use sale_actions::endpoints::add_metadata::{AddMetadata, compute_metadata_hash, metadata_hash_matches};
use sale_actions::endpoints::mail_subscribe::{MailSubscribeQuery, subscribe_docs};
use sale_actions::endpoints::newsletter_subscribe::{AddNewsletterQuery, plan_subscription};
use sale_actions::utils::Felt;
use sha2::Digest;

#[test]
fn metadata_hash_agrees_with_reference_digest() {
    let digest = sha2::Sha256::digest(b"a@b.com|FR|salt-1");
    let expected = hex::encode(digest)[..62].to_string();
    assert_eq!(compute_metadata_hash("a@b.com", "FR", "salt-1"), expected);
}

#[test]
fn metadata_hash_is_a_shortened_hex_digest() {
    let hash = compute_metadata_hash("a@b.com", "FR", "salt-1");
    assert_eq!(hash.len(), 62);
    assert!(hash.chars().all(|c| c.is_ascii_hexdigit() && !c.is_ascii_uppercase()));
    // the hash covers every field
    assert_ne!(hash, compute_metadata_hash("a@b.com", "FR", "salt-2"));
    assert_ne!(hash, compute_metadata_hash("a@b.com", "DE", "salt-1"));
    assert_ne!(hash, compute_metadata_hash("x@b.com", "FR", "salt-1"));
    // deterministic
    assert_eq!(hash, compute_metadata_hash("a@b.com", "FR", "salt-1"));
}

fn submission(meta_hash: String) -> AddMetadata {
    AddMetadata {
        meta_hash,
        email: String::from("a@b.com"),
        groups: vec![String::from("g1")],
        tax_state: String::from("FR"),
        salt: String::from("salt-1"),
    }
}

#[test]
fn metadata_submission_accepted_iff_hash_matches() {
    let good = submission(compute_metadata_hash("a@b.com", "FR", "salt-1"));
    assert!(metadata_hash_matches(&good));

    let bad = submission(String::from("0000"));
    assert!(!metadata_hash_matches(&bad));
}

#[test]
fn subscribe_docs_one_per_group() {
    let query = MailSubscribeQuery {
        tx_hash: Felt::from_u64(255),
        groups: vec![String::from("g1"), String::from("g2")],
    };
    let docs = subscribe_docs(&query);
    assert_eq!(docs.len(), 2);
    assert_eq!(docs[0].tx_hash, "0xff");
    assert_eq!(docs[0].group, "g1");
    assert_eq!(docs[1].tx_hash, "0xff");
    assert_eq!(docs[1].group, "g2");
}

#[test]
fn newsletter_fresh_address_is_recorded() {
    let query = AddNewsletterQuery {
        email: String::from("a@b.com"),
        address: Some(String::from("0x123")),
    };
    let rec = plan_subscription(query, false).unwrap();
    assert_eq!(rec.email, "a@b.com");
    assert_eq!(rec.address.as_deref(), Some("0x123"));
    assert_eq!(rec.source, "newsletter_subscription");
}

#[test]
fn newsletter_existing_address_is_rejected() {
    let query = AddNewsletterQuery { email: String::from("a@b.com"), address: None };
    assert!(plan_subscription(query, true).is_none());
}
