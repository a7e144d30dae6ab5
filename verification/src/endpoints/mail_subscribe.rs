//! Accepting a mail-group subscription for a transaction.
//!
//! A request names a transaction and the group labels to subscribe; the
//! endpoint stores one sibling-group record per label, with the transaction
//! identifier in its canonical hexadecimal text form.

use vstd::prelude::*;
use crate::utils::{Felt, felt_hex, to_hex};

verus! {

/// A subscription request: the transaction and the group labels asked for.
pub struct MailSubscribeQuery {
    pub tx_hash: Felt,
    pub groups: Vec<String>,
}

/// One stored sibling-group record: the transaction identifier in
/// hexadecimal text, and one group label.
pub struct MailSubscribeDoc {
    pub tx_hash: String,
    pub group: String,
}

/// The endpoint's reply body.
pub struct Output {
    pub success: bool,
}

/// Builds the sibling-group records to store for a subscription request:
/// one per requested label, in order, all carrying the transaction
/// identifier's canonical hexadecimal form.
pub fn subscribe_docs(query: &MailSubscribeQuery) -> (r: Vec<MailSubscribeDoc>)
    ensures
        r@.len() == query.groups@.len(),
        forall|i: int|
            0 <= i < r@.len() ==> (#[trigger] r@[i]).tx_hash@ == felt_hex(query.tx_hash.bytes@)
                && r@[i].group == query.groups@[i],
{
    let hex = to_hex(&query.tx_hash);
    let mut r: Vec<MailSubscribeDoc> = Vec::new();
    let n = query.groups.len();
    let mut i: usize = 0;
    while i < n
        invariant
            i <= n,
            n == query.groups@.len(),
            hex@ == felt_hex(query.tx_hash.bytes@),
            r@.len() == i,
            forall|j: int|
                0 <= j < i ==> (#[trigger] r@[j]).tx_hash@ == felt_hex(query.tx_hash.bytes@)
                    && r@[j].group == query.groups@[j],
        decreases n - i,
    {
        r.push(MailSubscribeDoc { tx_hash: hex.clone(), group: query.groups[i].clone() });
        i = i + 1;
    }
    r
}

} // verus!
