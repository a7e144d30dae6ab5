//! Accepting a metadata submission: hash verification.
//!
//! A submission carries contact data and the content hash it claims for it.
//! It is accepted only when the hash computed over the data matches the
//! claim; the hash is the SHA-256 of `email|tax_state|salt` in lowercase
//! hexadecimal, shortened by its last two digits (eight bits) so it fits a
//! field element.

use vstd::prelude::*;
use vstd::string::StringExecFns;
use vstd::string::StrSliceExecFns;
use vstd::utf8::{encode_utf8, is_ascii_chars};
use crate::interop::{hex_encode, sha256, sha256_of};
use crate::utils::{hex_chars, hex_digit, hex_pair, lemma_hex_chars_len};

verus! {

/// A metadata submission: the claimed content hash, the contact data it
/// covers, and the sibling groups asked for.
pub struct AddMetadata {
    pub meta_hash: String,
    pub email: String,
    pub groups: Vec<String>,
    pub tax_state: String,
    pub salt: String,
}

/// The endpoint's reply body.
pub struct Output {
    pub success: bool,
}

/// The content hash of a submission: SHA-256 of `email|tax_state|salt`,
/// lowercase hexadecimal, without its last two digits.
pub open spec fn spec_metadata_hash(email: Seq<char>, tax_state: Seq<char>, salt: Seq<char>) -> Seq<
    char,
> {
    hex_chars(sha256_of(encode_utf8(email + "|"@ + tax_state + "|"@ + salt))).take(62)
}

/// Every digit hex_chars yields is one of the sixteen ASCII digits.
proof fn lemma_hex_chars_ascii(bs: Seq<u8>)
    ensures
        is_ascii_chars(hex_chars(bs)),
    decreases bs.len(),
{
    if bs.len() > 0 {
        lemma_hex_chars_ascii(bs.drop_last());
        let pre = hex_chars(bs.drop_last());
        let whole = hex_chars(bs);
        assert forall|i: int| 0 <= i < whole.len() implies '\0' <= #[trigger] whole[i]
            <= '\u{7f}' by {
            if i < pre.len() {
                assert(whole[i] == pre[i]);
            } else {
                assert(whole[i] == hex_pair(bs.last())[i - pre.len()]);
            }
        }
    }
}

/// Computes the content hash of submitted contact data.
pub fn compute_metadata_hash(email: &str, tax_state: &str, salt: &str) -> (r: String)
    ensures
        r@ == spec_metadata_hash(email@, tax_state@, salt@),
{
    let mut data = String::new();
    data.append(email);
    data.append("|");
    data.append(tax_state);
    data.append("|");
    data.append(salt);
    proof {
        assert(data@ =~= email@ + "|"@ + tax_state@ + "|"@ + salt@);
    }
    let digest = sha256(data.as_str().as_bytes());
    let hash_hex = hex_encode(digest.as_slice());
    proof {
        lemma_hex_chars_len(digest@);
        lemma_hex_chars_ascii(digest@);
        assert(hash_hex@.len() == 64);
    }
    // drop the last two digits (eight bits) so the hash fits a field element
    let truncated = hash_hex.as_str().substring_ascii(0, 62);
    proof {
        assert(truncated@ =~= spec_metadata_hash(email@, tax_state@, salt@));
    }
    truncated.to_owned()
}

/// Whether the submission's claimed content hash matches the hash computed
/// over its own fields; submissions failing this are rejected.
pub fn metadata_hash_matches(query: &AddMetadata) -> (r: bool)
    ensures
        r == (query.meta_hash@ == spec_metadata_hash(query.email@, query.tax_state@, query.salt@)),
{
    let computed = compute_metadata_hash(
        query.email.as_str(),
        query.tax_state.as_str(),
        query.salt.as_str(),
    );
    computed == query.meta_hash
}

} // verus!
