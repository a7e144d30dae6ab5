//! Shared record types and join steps of the reconciliation pipeline.
//!
//! Enrichment joins an event with three side-collections: metadata records
//! sharing its content hash, the processed-marker set holding keys already
//! considered, and sibling-group subscriptions sharing its transaction
//! identifier.

use vstd::prelude::*;

pub mod purchases;
pub mod renewal;

verus! {

/// Off-chain contact data, keyed by a content hash.
#[derive(Debug)]
pub struct MetadataDoc {
    pub meta_hash: String,
    pub email: String,
    pub tax_state: String,
    pub salt: String,
}

impl Clone for MetadataDoc {
    fn clone(&self) -> (r: Self)
        ensures
            r == *self,
    {
        MetadataDoc {
            meta_hash: self.meta_hash.clone(),
            email: self.email.clone(),
            tax_state: self.tax_state.clone(),
            salt: self.salt.clone(),
        }
    }
}

/// One sibling-group subscription: a group label recorded against a
/// transaction identifier.
#[derive(Debug)]
pub struct EmailGroupDoc {
    pub tx_hash: String,
    pub group: String,
}

/// The metadata records whose content hash is `h`, in collection order.
pub open spec fn metadata_matching(metadata: Seq<MetadataDoc>, h: Seq<char>) -> Seq<MetadataDoc>
    decreases metadata.len(),
{
    if metadata.len() == 0 {
        Seq::empty()
    } else {
        metadata_matching(metadata.drop_last(), h) + (if metadata.last().meta_hash@ == h {
            seq![metadata.last()]
        } else {
            Seq::empty()
        })
    }
}

/// The group labels recorded against transaction `tx`, in collection order,
/// duplicates kept.
pub open spec fn group_labels(groups: Seq<EmailGroupDoc>, tx: Seq<char>) -> Seq<String>
    decreases groups.len(),
{
    if groups.len() == 0 {
        Seq::empty()
    } else {
        group_labels(groups.drop_last(), tx) + (if groups.last().tx_hash@ == tx {
            seq![groups.last().group]
        } else {
            Seq::empty()
        })
    }
}

/// Whether some key in `keys` reads `k`.
pub open spec fn key_in(keys: Seq<String>, k: Seq<char>) -> bool {
    exists|i: int| 0 <= i < keys.len() && keys[i]@ == k
}

/// Collects the metadata records whose content hash is `h`.
pub fn collect_metadata(metadata: &Vec<MetadataDoc>, h: &String) -> (r: Vec<MetadataDoc>)
    ensures
        r@ == metadata_matching(metadata@, h@),
{
    let mut r: Vec<MetadataDoc> = Vec::new();
    let n = metadata.len();
    let mut i: usize = 0;
    while i < n
        invariant
            i <= n,
            n == metadata@.len(),
            r@ == metadata_matching(metadata@.take(i as int), h@),
        decreases n - i,
    {
        if metadata[i].meta_hash == *h {
            r.push(metadata[i].clone());
        }
        proof {
            assert(metadata@.take(i + 1 as int).drop_last() =~= metadata@.take(i as int));
            assert(metadata@.take(i + 1 as int).last() == metadata@[i as int]);
        }
        i = i + 1;
    }
    proof {
        assert(metadata@.take(n as int) =~= metadata@);
    }
    r
}

/// Collects the group labels recorded against transaction `tx`.
pub fn collect_groups(groups: &Vec<EmailGroupDoc>, tx: &String) -> (r: Vec<String>)
    ensures
        r@ == group_labels(groups@, tx@),
{
    let mut r: Vec<String> = Vec::new();
    let n = groups.len();
    let mut i: usize = 0;
    while i < n
        invariant
            i <= n,
            n == groups@.len(),
            r@ == group_labels(groups@.take(i as int), tx@),
        decreases n - i,
    {
        if groups[i].tx_hash == *tx {
            r.push(groups[i].group.clone());
        }
        proof {
            assert(groups@.take(i + 1 as int).drop_last() =~= groups@.take(i as int));
            assert(groups@.take(i + 1 as int).last() == groups@[i as int]);
        }
        i = i + 1;
    }
    proof {
        assert(groups@.take(n as int) =~= groups@);
    }
    r
}

/// A key stays present however the processed-marker set grows.
pub proof fn lemma_key_in_extend(keys: Seq<String>, more: Seq<String>, k: Seq<char>)
    requires
        key_in(keys, k),
    ensures
        key_in(keys + more, k),
{
    let i = choose|i: int| 0 <= i < keys.len() && keys[i]@ == k;
    assert((keys + more)[i]@ == k);
}

/// Membership test against the processed-marker keys.
pub fn key_is_processed(keys: &Vec<String>, k: &String) -> (r: bool)
    ensures
        r == key_in(keys@, k@),
{
    let n = keys.len();
    let mut i: usize = 0;
    while i < n
        invariant
            i <= n,
            n == keys@.len(),
            forall|j: int| 0 <= j < i ==> keys@[j]@ != k@,
        decreases n - i,
    {
        if keys[i] == *k {
            assert(keys@[i as int]@ == k@);
            return true;
        }
        i = i + 1;
    }
    false
}

} // verus!
