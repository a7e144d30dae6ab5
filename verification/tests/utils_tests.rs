use sale_actions::utils::{Felt, to_hex};

#[test]
fn test_to_hex_small_number() {
    let num = Felt::from_u64(255u64);
    assert_eq!(to_hex(&num), "0xff");
}

#[test]
fn test_to_hex_large_number() {
    let num = Felt::from_u64(1234567890u64);
    assert_eq!(to_hex(&num), "0x499602d2");
}

#[test]
fn test_single_digit() {
    let num = Felt::from_u64(10u64);
    assert_eq!(to_hex(&num), "0x0a");
}

#[test]
fn test_boundary_values() {
    let cases = [
        (u64::MAX, "0xffffffffffffffff"),
        (u64::MIN, "0x0"),
        (u32::MAX as u64, "0xffffffff"),
    ];

    for (input, expected) in cases {
        let num = Felt::from_u64(input);
        assert_eq!(to_hex(&num), expected);
    }
}

#[test]
fn test_to_hex_max() {
    // the largest field element: 2^251 + 17 * 2^192, big-endian
    let mut bytes = vec![0u8; 32];
    bytes[0] = 0x08;
    bytes[7] = 0x11;
    let max = Felt { bytes };
    assert_eq!(to_hex(&max).len(), 66);
    assert!(to_hex(&max).starts_with("0x"));
}

#[test]
fn test_to_hex_empty_bytes() {
    let felt = Felt { bytes: vec![] };
    assert_eq!(to_hex(&felt), "0x0");
}

#[test]
fn test_from_u64_layout() {
    let felt = Felt::from_u64(0x0102030405060708u64);
    assert_eq!(felt.bytes.len(), 32);
    assert!(felt.bytes[..24].iter().all(|&b| b == 0));
    assert_eq!(&felt.bytes[24..], &[1, 2, 3, 4, 5, 6, 7, 8]);
}
