//! Field-element values and their hexadecimal text form.
//!
//! Transaction identifiers arrive as 252-bit field elements.  The pipeline
//! only ever reads their big-endian bytes, so the library models them as a
//! byte string and renders the canonical short hexadecimal form itself.

use vstd::prelude::*;

verus! {

/// A field element, held as its big-endian bytes (32 of them when it comes
/// from the chain, though nothing below depends on the exact count).
pub struct Felt {
    pub bytes: Vec<u8>,
}

/// The lowercase hexadecimal digit of a nibble.
pub open spec fn hex_digit(n: u8) -> char {
    if n == 0 {
        '0'
    } else if n == 1 {
        '1'
    } else if n == 2 {
        '2'
    } else if n == 3 {
        '3'
    } else if n == 4 {
        '4'
    } else if n == 5 {
        '5'
    } else if n == 6 {
        '6'
    } else if n == 7 {
        '7'
    } else if n == 8 {
        '8'
    } else if n == 9 {
        '9'
    } else if n == 10 {
        'a'
    } else if n == 11 {
        'b'
    } else if n == 12 {
        'c'
    } else if n == 13 {
        'd'
    } else if n == 14 {
        'e'
    } else {
        'f'
    }
}

/// The two lowercase hexadecimal digits of one byte.
pub open spec fn hex_pair(b: u8) -> Seq<char> {
    seq![hex_digit(b / 16), hex_digit(b % 16)]
}

/// Lowercase hexadecimal text of a byte string, two digits per byte.
pub open spec fn hex_chars(bs: Seq<u8>) -> Seq<char>
    decreases bs.len(),
{
    if bs.len() == 0 {
        Seq::empty()
    } else {
        hex_chars(bs.drop_last()) + hex_pair(bs.last())
    }
}

/// The byte string without its leading zero bytes.
pub open spec fn trim_zeros(bs: Seq<u8>) -> Seq<u8>
    decreases bs.len(),
{
    if bs.len() > 0 && bs[0] == 0 {
        trim_zeros(bs.skip(1))
    } else {
        bs
    }
}

/// The canonical short hexadecimal form: `0x` followed by the digits of the
/// byte string with leading zero bytes dropped, or `0x0` for zero.
pub open spec fn felt_hex(bs: Seq<u8>) -> Seq<char> {
    if trim_zeros(bs).len() == 0 {
        "0x0"@
    } else {
        "0x"@ + hex_chars(trim_zeros(bs))
    }
}

pub proof fn lemma_hex_chars_len(bs: Seq<u8>)
    ensures
        hex_chars(bs).len() == 2 * bs.len(),
    decreases bs.len(),
{
    if bs.len() > 0 {
        lemma_hex_chars_len(bs.drop_last());
    }
}

/// Dropping a known-zero prefix does not change the trimmed bytes.
proof fn lemma_trim_zeros_skip(bs: Seq<u8>, k: int)
    requires
        0 <= k <= bs.len(),
        forall|j: int| 0 <= j < k ==> bs[j] == 0,
    ensures
        trim_zeros(bs) == trim_zeros(bs.skip(k)),
    decreases k,
{
    if k > 0 {
        assert(bs.skip(1).skip(k - 1) =~= bs.skip(k));
        lemma_trim_zeros_skip(bs.skip(1), k - 1);
    } else {
        assert(bs.skip(0) =~= bs);
    }
}

/// The one lowercase hexadecimal digit of a nibble, as text.
fn hex_digit_str(n: u8) -> (r: &'static str)
    requires
        n < 16,
    ensures
        r@ =~= seq![hex_digit(n)],
{
    proof {
        reveal_strlit("0");
        reveal_strlit("1");
        reveal_strlit("2");
        reveal_strlit("3");
        reveal_strlit("4");
        reveal_strlit("5");
        reveal_strlit("6");
        reveal_strlit("7");
        reveal_strlit("8");
        reveal_strlit("9");
        reveal_strlit("a");
        reveal_strlit("b");
        reveal_strlit("c");
        reveal_strlit("d");
        reveal_strlit("e");
        reveal_strlit("f");
    }
    match n {
        0 => "0",
        1 => "1",
        2 => "2",
        3 => "3",
        4 => "4",
        5 => "5",
        6 => "6",
        7 => "7",
        8 => "8",
        9 => "9",
        10 => "a",
        11 => "b",
        12 => "c",
        13 => "d",
        14 => "e",
        _ => "f",
    }
}

/// Appends the two hexadecimal digits of one byte.
fn push_hex_byte(s: &mut String, b: u8)
    ensures
        final(s)@ == old(s)@ + hex_pair(b),
{
    s.append(hex_digit_str(b / 16));
    s.append(hex_digit_str(b % 16));
}

/// The canonical short hexadecimal form of a field element: `0x` followed by
/// its big-endian digits without leading zero bytes, `0x0` for zero.
pub fn to_hex(felt: &Felt) -> (r: String)
    ensures
        r@ == felt_hex(felt.bytes@),
{
    let n = felt.bytes.len();
    let mut start: usize = 0;
    while start < n && felt.bytes[start] == 0
        invariant
            start <= n,
            n == felt.bytes@.len(),
            forall|j: int| 0 <= j < start ==> felt.bytes@[j] == 0,
        decreases n - start,
    {
        start = start + 1;
    }
    proof {
        lemma_trim_zeros_skip(felt.bytes@, start as int);
    }
    if start == n {
        proof {
            assert(felt.bytes@.skip(start as int).len() == 0);
        }
        let mut r = String::new();
        r.append("0x0");
        return r;
    }
    // the first surviving byte is not zero, so trimming stops right there
    proof {
        assert(felt.bytes@.skip(start as int)[0] == felt.bytes@[start as int]);
        assert(trim_zeros(felt.bytes@.skip(start as int)) == felt.bytes@.skip(start as int));
    }
    let mut r = String::new();
    r.append("0x");
    let mut i: usize = start;
    while i < n
        invariant
            start <= i <= n,
            n == felt.bytes@.len(),
            r@ == "0x"@ + hex_chars(felt.bytes@.subrange(start as int, i as int)),
        decreases n - i,
    {
        let b = felt.bytes[i];
        push_hex_byte(&mut r, b);
        proof {
            let pre = felt.bytes@.subrange(start as int, i as int);
            let post = felt.bytes@.subrange(start as int, i + 1 as int);
            assert(post.drop_last() =~= pre);
            assert(post.last() == b);
        }
        i = i + 1;
    }
    proof {
        assert(felt.bytes@.subrange(start as int, n as int) =~= felt.bytes@.skip(start as int));
    }
    r
}

/// The big-endian bytes of a 64-bit value, widened to 32 bytes.
pub open spec fn felt_bytes_of(n: u64) -> Seq<u8> {
    Seq::new(
        32,
        |i: int|
            if i == 24 {
                (n >> 56) as u8
            } else if i == 25 {
                (n >> 48) as u8
            } else if i == 26 {
                (n >> 40) as u8
            } else if i == 27 {
                (n >> 32) as u8
            } else if i == 28 {
                (n >> 24) as u8
            } else if i == 29 {
                (n >> 16) as u8
            } else if i == 30 {
                (n >> 8) as u8
            } else if i == 31 {
                n as u8
            } else {
                0u8
            },
    )
}

impl Felt {
    /// The field element with the value of a 64-bit integer.
    pub fn from_u64(n: u64) -> (r: Felt)
        ensures
            r.bytes@ == felt_bytes_of(n),
    {
        let mut bytes: Vec<u8> = Vec::new();
        let mut i: usize = 0;
        while i < 24
            invariant
                i <= 24,
                bytes@.len() == i,
                forall|j: int| 0 <= j < i ==> bytes@[j] == 0,
            decreases 24 - i,
        {
            bytes.push(0);
            i = i + 1;
        }
        bytes.push(#[verifier::truncate] ((n >> 56) as u8));
        bytes.push(#[verifier::truncate] ((n >> 48) as u8));
        bytes.push(#[verifier::truncate] ((n >> 40) as u8));
        bytes.push(#[verifier::truncate] ((n >> 32) as u8));
        bytes.push(#[verifier::truncate] ((n >> 24) as u8));
        bytes.push(#[verifier::truncate] ((n >> 16) as u8));
        bytes.push(#[verifier::truncate] ((n >> 8) as u8));
        bytes.push(#[verifier::truncate] (n as u8));
        proof {
            assert(bytes@ =~= felt_bytes_of(n));
        }
        Felt { bytes }
    }
}

} // verus!
