//! The purchase pipeline: enrich, dispatch, mark processed.
//!
//! A pass reads the raw sale events, joins each with its metadata records,
//! drops events whose content hash already carries a processed marker, turns
//! the survivors into subscriber-upsert requests, cuts those into batches,
//! and reports the content hashes to mark processed.  The content hash is
//! the processed-marker key throughout this pipeline; the renewal pipeline
//! keys by transaction identifier.

use vstd::prelude::*;
use vstd::string::StringExecFns;
use crate::batching::{make_batches, spec_batches};
use crate::document::{Doc, DecodeError, FieldName, FieldValue, spec_number_field, spec_text_field};
use crate::interop::{datetime_text_of, email_ok, url_encode, urlenc_of};
use crate::processing::{
    EmailGroupDoc, MetadataDoc, collect_groups, collect_metadata, group_labels, key_in,
    key_is_processed, metadata_matching,
};
use crate::request::{
    Method, NotificationRequest, ReqView, append_groups_query, batch_views, groups_query,
    reqs_view,
};

verus! {

/// One sale event, with its joined metadata records and sibling-group
/// labels once enriched.
#[derive(Debug)]
pub struct SaleDoc {
    pub tx_hash: String,
    pub meta_hash: String,
    pub domain: String,
    pub price: i64,
    pub payer: String,
    pub timestamp: i64,
    pub expiry: i64,
    pub metadata: Vec<MetadataDoc>,
    pub same_tx_groups: Vec<String>,
}

/// The mathematical shape of a sale event.
pub struct SaleView {
    pub tx_hash: String,
    pub meta_hash: String,
    pub domain: String,
    pub price: i64,
    pub payer: String,
    pub timestamp: i64,
    pub expiry: i64,
    pub metadata: Seq<MetadataDoc>,
    pub same_tx_groups: Seq<String>,
}

impl View for SaleDoc {
    type V = SaleView;

    open spec fn view(&self) -> SaleView {
        SaleView {
            tx_hash: self.tx_hash,
            meta_hash: self.meta_hash,
            domain: self.domain,
            price: self.price,
            payer: self.payer,
            timestamp: self.timestamp,
            expiry: self.expiry,
            metadata: self.metadata@,
            same_tx_groups: self.same_tx_groups@,
        }
    }
}

/// Decoding a raw document into a sale event, joins still empty: the typed
/// record, or the first field found missing or mistyped.
pub open spec fn spec_decode_sale(fields: Seq<(String, FieldValue)>) -> Result<
    SaleView,
    DecodeError,
> {
    match spec_text_field(fields, "tx_hash"@, FieldName::TxHash) {
        Err(e) => Err(e),
        Ok(tx_hash) => match spec_text_field(fields, "meta_hash"@, FieldName::MetaHash) {
            Err(e) => Err(e),
            Ok(meta_hash) => match spec_text_field(fields, "domain"@, FieldName::Domain) {
                Err(e) => Err(e),
                Ok(domain) => match spec_number_field(fields, "price"@, FieldName::Price) {
                    Err(e) => Err(e),
                    Ok(price) => match spec_text_field(fields, "payer"@, FieldName::Payer) {
                        Err(e) => Err(e),
                        Ok(payer) => match spec_number_field(
                            fields,
                            "timestamp"@,
                            FieldName::Timestamp,
                        ) {
                            Err(e) => Err(e),
                            Ok(timestamp) => match spec_number_field(
                                fields,
                                "expiry"@,
                                FieldName::Expiry,
                            ) {
                                Err(e) => Err(e),
                                Ok(expiry) => Ok(
                                    SaleView {
                                        tx_hash,
                                        meta_hash,
                                        domain,
                                        price,
                                        payer,
                                        timestamp,
                                        expiry,
                                        metadata: Seq::empty(),
                                        same_tx_groups: Seq::empty(),
                                    },
                                ),
                            },
                        },
                    },
                },
            },
        },
    }
}

/// Decodes a raw document into a sale event, joins still empty.
pub fn decode_sale(doc: &Doc) -> (r: Result<SaleDoc, DecodeError>)
    ensures
        match r {
            Ok(d) => spec_decode_sale(doc.fields@) == Ok::<SaleView, DecodeError>(d@),
            Err(e) => spec_decode_sale(doc.fields@) == Err::<SaleView, DecodeError>(e),
        },
{
    let tx_hash = match doc.get_text(&String::from_str("tx_hash"), FieldName::TxHash) {
        Ok(s) => s,
        Err(e) => return Err(e),
    };
    let meta_hash = match doc.get_text(&String::from_str("meta_hash"), FieldName::MetaHash) {
        Ok(s) => s,
        Err(e) => return Err(e),
    };
    let domain = match doc.get_text(&String::from_str("domain"), FieldName::Domain) {
        Ok(s) => s,
        Err(e) => return Err(e),
    };
    let price = match doc.get_number(&String::from_str("price"), FieldName::Price) {
        Ok(n) => n,
        Err(e) => return Err(e),
    };
    let payer = match doc.get_text(&String::from_str("payer"), FieldName::Payer) {
        Ok(s) => s,
        Err(e) => return Err(e),
    };
    let timestamp = match doc.get_number(&String::from_str("timestamp"), FieldName::Timestamp) {
        Ok(n) => n,
        Err(e) => return Err(e),
    };
    let expiry = match doc.get_number(&String::from_str("expiry"), FieldName::Expiry) {
        Ok(n) => n,
        Err(e) => return Err(e),
    };
    Ok(
        SaleDoc {
            tx_hash,
            meta_hash,
            domain,
            price,
            payer,
            timestamp,
            expiry,
            metadata: Vec::new(),
            same_tx_groups: Vec::new(),
        },
    )
}

/// The decoded event with its joins attached.
pub open spec fn sale_with_joins(
    v: SaleView,
    metadata: Seq<MetadataDoc>,
    groups: Seq<EmailGroupDoc>,
) -> SaleView {
    SaleView {
        metadata: metadata_matching(metadata, v.meta_hash@),
        same_tx_groups: group_labels(groups, v.tx_hash@),
        ..v
    }
}

/// What one raw document contributes to a pass: the enriched event, or
/// nothing when it is malformed, has no metadata yet, or is already marked
/// processed.
pub open spec fn spec_enrich_one(
    fields: Seq<(String, FieldValue)>,
    metadata: Seq<MetadataDoc>,
    processed: Seq<String>,
    groups: Seq<EmailGroupDoc>,
) -> Option<SaleView> {
    match spec_decode_sale(fields) {
        Err(_) => None,
        Ok(v) => if metadata_matching(metadata, v.meta_hash@).len() == 0 {
            None
        } else if key_in(processed, v.meta_hash@) {
            None
        } else {
            Some(sale_with_joins(v, metadata, groups))
        },
    }
}

/// The enriched events of a pass, in store order.
pub open spec fn spec_enrich(
    docs: Seq<Doc>,
    metadata: Seq<MetadataDoc>,
    processed: Seq<String>,
    groups: Seq<EmailGroupDoc>,
) -> Seq<SaleView>
    decreases docs.len(),
{
    if docs.len() == 0 {
        Seq::empty()
    } else {
        spec_enrich(docs.drop_last(), metadata, processed, groups) + (match spec_enrich_one(
            docs.last().fields@,
            metadata,
            processed,
            groups,
        ) {
            Some(v) => seq![v],
            None => Seq::empty(),
        })
    }
}

/// Enriches the raw sale events: joins each with its metadata records and
/// sibling-group labels, drops events without metadata, already processed,
/// or malformed.
pub fn enrich(
    events: &Vec<Doc>,
    metadata: &Vec<MetadataDoc>,
    processed: &Vec<String>,
    groups: &Vec<EmailGroupDoc>,
) -> (r: Vec<SaleDoc>)
    ensures
        r@.map_values(|x: SaleDoc| x@) == spec_enrich(events@, metadata@, processed@, groups@),
{
    let mut out: Vec<SaleDoc> = Vec::new();
    let n = events.len();
    let mut i: usize = 0;
    while i < n
        invariant
            i <= n,
            n == events@.len(),
            out@.map_values(|x: SaleDoc| x@) == spec_enrich(
                events@.take(i as int),
                metadata@,
                processed@,
                groups@,
            ),
        decreases n - i,
    {
        let ghost pre = out@.map_values(|x: SaleDoc| x@);
        match decode_sale(&events[i]) {
            Err(_) => {},
            Ok(d) => {
                let matched = collect_metadata(metadata, &d.meta_hash);
                if matched.len() > 0 {
                    if !key_is_processed(processed, &d.meta_hash) {
                        let labels = collect_groups(groups, &d.tx_hash);
                        let ghost dv = d@;
                        let enriched = SaleDoc { metadata: matched, same_tx_groups: labels, ..d };
                        proof {
                            assert(enriched@ == sale_with_joins(
                                SaleView { metadata: Seq::empty(), same_tx_groups: Seq::empty(), ..dv },
                                metadata@,
                                groups@,
                            ));
                        }
                        out.push(enriched);
                        proof {
                            assert(out@.map_values(|x: SaleDoc| x@) =~= pre + seq![
                                out@.last()@,
                            ]);
                        }
                    }
                }
            },
        }
        proof {
            assert(events@.take(i + 1 as int).drop_last() =~= events@.take(i as int));
            assert(events@.take(i + 1 as int).last() == events@[i as int]);
            assert(out@.map_values(|x: SaleDoc| x@) =~= spec_enrich(
                events@.take(i + 1 as int),
                metadata@,
                processed@,
                groups@,
            ));
        }
        i = i + 1;
    }
    proof {
        assert(events@.take(n as int) =~= events@);
    }
    out
}

/// The expiry text of the upsert query: the percent-encoded timestamp
/// rendering, or `none` for a timestamp outside the calendar's range.
pub open spec fn expiry_text(ts: i64) -> Seq<char> {
    match datetime_text_of(ts) {
        Some(s) => urlenc_of(s),
        None => "none"@,
    }
}

/// The subscriber-upsert path for one enriched sale.
pub open spec fn spec_sale_path(v: SaleView, base: Seq<char>) -> Seq<char> {
    base + "/subscribers?email="@ + urlenc_of(v.metadata[0].email@) + "&fields[name]="@
        + urlenc_of(v.domain@) + "&fields[expiry]="@ + expiry_text(v.expiry) + "&"@
        + groups_query(v.same_tx_groups)
}

/// The subscriber-upsert request for one enriched sale.
pub open spec fn spec_sale_request(v: SaleView, base: Seq<char>) -> ReqView {
    ReqView { method: Method::Post, path: spec_sale_path(v, base), body: None }
}

/// Builds the subscriber-upsert request for one enriched sale: a POST whose
/// path carries the contact address, domain, expiry and the sibling-group
/// labels as repeated query parameters.
pub fn create_sale_request(sale: &SaleDoc, base_url: &str) -> (r: NotificationRequest)
    requires
        sale.metadata@.len() >= 1,
    ensures
        r@ == spec_sale_request(sale@, base_url@),
{
    let mut path = String::new();
    path.append(base_url);
    path.append("/subscribers?email=");
    let enc_email = url_encode(sale.metadata[0].email.as_str());
    path.append(enc_email.as_str());
    path.append("&fields[name]=");
    let enc_domain = url_encode(sale.domain.as_str());
    path.append(enc_domain.as_str());
    path.append("&fields[expiry]=");
    match format_expiry(sale.expiry) {
        Some(t) => path.append(t.as_str()),
        None => path.append("none"),
    }
    path.append("&");
    append_groups_query(&mut path, &sale.same_tx_groups);
    proof {
        assert(path@ =~= spec_sale_path(sale@, base_url@));
    }
    NotificationRequest { method: Method::Post, path, body: None }
}

/// The percent-encoded calendar rendering of an expiry timestamp, if it is
/// within the calendar's range.
fn format_expiry(ts: i64) -> (r: Option<String>)
    ensures
        match r {
            Some(s) => datetime_text_of(ts) matches Some(t) && s@ == urlenc_of(t),
            None => datetime_text_of(ts) is None,
        },
{
    match crate::interop::format_timestamp(ts) {
        Some(t) => Some(url_encode(t.as_str())),
        None => None,
    }
}

/// Whether an enriched sale is dispatched: its contact address is
/// well-formed and it has at least one sibling-group label.
pub open spec fn sale_eligible(v: SaleView) -> bool {
    email_ok(v.metadata[0].email@) && v.same_tx_groups.len() > 0
}

/// The requests of a pass: one upsert per eligible enriched sale, in order.
pub open spec fn spec_sale_requests(recs: Seq<SaleView>, base: Seq<char>) -> Seq<ReqView>
    decreases recs.len(),
{
    if recs.len() == 0 {
        Seq::empty()
    } else {
        spec_sale_requests(recs.drop_last(), base) + (if sale_eligible(recs.last()) {
            seq![spec_sale_request(recs.last(), base)]
        } else {
            Seq::empty()
        })
    }
}

/// The processed-marker keys of a pass: the content hash of every enriched
/// sale, dispatched or skipped.
pub open spec fn spec_keys(recs: Seq<SaleView>) -> Seq<String> {
    recs.map_values(|v: SaleView| v.meta_hash)
}

/// Every enriched sale carries at least one metadata record: events without
/// metadata are dropped by the join.
pub proof fn lemma_enrich_metadata_nonempty(
    docs: Seq<Doc>,
    metadata: Seq<MetadataDoc>,
    processed: Seq<String>,
    groups: Seq<EmailGroupDoc>,
)
    ensures
        forall|j: int|
            0 <= j < spec_enrich(docs, metadata, processed, groups).len() ==> (#[trigger] spec_enrich(
                docs,
                metadata,
                processed,
                groups,
            )[j]).metadata.len() >= 1,
    decreases docs.len(),
{
    if docs.len() > 0 {
        lemma_enrich_metadata_nonempty(docs.drop_last(), metadata, processed, groups);
        let pre = spec_enrich(docs.drop_last(), metadata, processed, groups);
        let e = spec_enrich(docs, metadata, processed, groups);
        assert forall|j: int| 0 <= j < e.len() implies (#[trigger] e[j]).metadata.len() >= 1 by {
            if j < pre.len() {
                assert(e[j] == pre[j]);
            } else {
                assert(e[j] == spec_enrich_one(
                    docs.last().fields@,
                    metadata,
                    processed,
                    groups,
                )->Some_0);
            }
        }
    }
}

/// The outcome of one purchase pass: the request batches to send, in flush
/// order, and the keys to mark processed afterwards.
pub struct PurchaseRun {
    pub batches: Vec<Vec<NotificationRequest>>,
    pub processed_keys: Vec<String>,
}

/// One full purchase pass over the store's collections: enrich, build the
/// upsert requests (skipping records with an ill-formed address or no
/// sibling groups, which are still marked), batch, and list the keys to
/// mark processed.
pub fn process_data(
    events: &Vec<Doc>,
    metadata: &Vec<MetadataDoc>,
    processed: &Vec<String>,
    groups: &Vec<EmailGroupDoc>,
    base_url: &str,
    batch_size: usize,
) -> (r: PurchaseRun)
    requires
        batch_size >= 1,
    ensures
        batch_views(r.batches@) == spec_batches(
            spec_sale_requests(spec_enrich(events@, metadata@, processed@, groups@), base_url@),
            batch_size as int,
        ),
        r.processed_keys@ == spec_keys(spec_enrich(events@, metadata@, processed@, groups@)),
{
    let recs = enrich(events, metadata, processed, groups);
    let ghost rviews = recs@.map_values(|x: SaleDoc| x@);
    proof {
        lemma_enrich_metadata_nonempty(events@, metadata@, processed@, groups@);
    }
    let mut requests: Vec<NotificationRequest> = Vec::new();
    let mut keys: Vec<String> = Vec::new();
    let n = recs.len();
    let mut i: usize = 0;
    while i < n
        invariant
            i <= n,
            n == recs@.len(),
            rviews == recs@.map_values(|x: SaleDoc| x@),
            forall|j: int| 0 <= j < rviews.len() ==> (#[trigger] rviews[j]).metadata.len() >= 1,
            reqs_view(requests@) == spec_sale_requests(rviews.take(i as int), base_url@),
            keys@ == spec_keys(rviews.take(i as int)),
        decreases n - i,
    {
        let ghost preq = reqs_view(requests@);
        keys.push(recs[i].meta_hash.clone());
        assert(recs@[i as int].metadata@.len() >= 1) by {
            assert(rviews[i as int] == recs@[i as int]@);
        }
        let valid = email_address::EmailAddress::is_valid(recs[i].metadata[0].email.as_str());
        if valid && recs[i].same_tx_groups.len() > 0 {
            let req = create_sale_request(&recs[i], base_url);
            proof {
                assert(req@ == spec_sale_request(rviews[i as int], base_url@));
            }
            requests.push(req);
            proof {
                assert(reqs_view(requests@) =~= preq + seq![requests@.last()@]);
            }
        } else {
            proof {
                assert(!sale_eligible(rviews[i as int]));
            }
        }
        proof {
            assert(rviews.take(i + 1 as int).drop_last() =~= rviews.take(i as int));
            assert(rviews.take(i + 1 as int).last() == rviews[i as int]);
            assert(reqs_view(requests@) =~= spec_sale_requests(
                rviews.take(i + 1 as int),
                base_url@,
            ));
            assert(keys@ =~= spec_keys(rviews.take(i + 1 as int)));
        }
        i = i + 1;
    }
    proof {
        assert(rviews.take(n as int) =~= rviews);
    }
    let ghost reqseq = requests@;
    let batches = make_batches(requests, batch_size);
    proof {
        crate::batching::lemma_batches_map(
            reqseq,
            batch_size as int,
            |q: NotificationRequest| q@,
        );
        assert(batch_views(batches@) =~= crate::batching::batches_view(batches@).map_values(
            |t: Seq<NotificationRequest>| t.map_values(|q: NotificationRequest| q@),
        ));
    }
    PurchaseRun { batches, processed_keys: keys }
}

/// Processed monotonicity: once a key carries a processed marker, no pass
/// enriches an event with that content hash again.
pub proof fn lemma_processed_key_never_emitted(
    docs: Seq<Doc>,
    metadata: Seq<MetadataDoc>,
    processed: Seq<String>,
    groups: Seq<EmailGroupDoc>,
    k: Seq<char>,
)
    requires
        key_in(processed, k),
    ensures
        forall|j: int|
            0 <= j < spec_enrich(docs, metadata, processed, groups).len() ==> (#[trigger] spec_enrich(
                docs,
                metadata,
                processed,
                groups,
            )[j]).meta_hash@ != k,
    decreases docs.len(),
{
    if docs.len() > 0 {
        lemma_processed_key_never_emitted(docs.drop_last(), metadata, processed, groups, k);
        let pre = spec_enrich(docs.drop_last(), metadata, processed, groups);
        let e = spec_enrich(docs, metadata, processed, groups);
        assert forall|j: int| 0 <= j < e.len() implies (#[trigger] e[j]).meta_hash@ != k by {
            if j < pre.len() {
                assert(e[j] == pre[j]);
            } else {
                assert(e[j] == spec_enrich_one(
                    docs.last().fields@,
                    metadata,
                    processed,
                    groups,
                )->Some_0);
            }
        }
    }
}

/// Every event that a pass would enrich against `p2` is already enriched
/// against `processed`, so if `p2` covers `processed` and all of that pass's
/// keys, nothing is left.
proof fn lemma_enrich_all_marked(
    docs: Seq<Doc>,
    metadata: Seq<MetadataDoc>,
    processed: Seq<String>,
    groups: Seq<EmailGroupDoc>,
    p2: Seq<String>,
)
    requires
        forall|k: Seq<char>| key_in(processed, k) ==> key_in(p2, k),
        forall|j: int|
            0 <= j < spec_enrich(docs, metadata, processed, groups).len() ==> key_in(
                p2,
                (#[trigger] spec_enrich(docs, metadata, processed, groups)[j]).meta_hash@,
            ),
    ensures
        spec_enrich(docs, metadata, p2, groups).len() == 0,
    decreases docs.len(),
{
    if docs.len() > 0 {
        let e1pre = spec_enrich(docs.drop_last(), metadata, processed, groups);
        let e1 = spec_enrich(docs, metadata, processed, groups);
        assert forall|j: int|
            0 <= j < e1pre.len() implies key_in(p2, (#[trigger] e1pre[j]).meta_hash@) by {
            assert(e1[j] == e1pre[j]);
        }
        lemma_enrich_all_marked(docs.drop_last(), metadata, processed, groups, p2);
        match spec_decode_sale(docs.last().fields@) {
            Err(_) => {},
            Ok(v) => {
                if metadata_matching(metadata, v.meta_hash@).len() == 0 {
                } else if key_in(processed, v.meta_hash@) {
                    assert(key_in(p2, v.meta_hash@));
                } else {
                    assert(e1[e1.len() - 1] == spec_enrich_one(
                        docs.last().fields@,
                        metadata,
                        processed,
                        groups,
                    )->Some_0);
                    assert(key_in(p2, v.meta_hash@));
                }
            },
        }
    }
}

/// Idempotency: marking a pass's keys processed leaves nothing for a second
/// pass to enrich, so the second pass dispatches no request at all — until
/// new data arrives.
pub proof fn lemma_second_pass_empty(
    docs: Seq<Doc>,
    metadata: Seq<MetadataDoc>,
    processed: Seq<String>,
    groups: Seq<EmailGroupDoc>,
    base: Seq<char>,
)
    ensures
        spec_enrich(
            docs,
            metadata,
            processed + spec_keys(spec_enrich(docs, metadata, processed, groups)),
            groups,
        ) == Seq::<SaleView>::empty(),
        spec_sale_requests(
            spec_enrich(
                docs,
                metadata,
                processed + spec_keys(spec_enrich(docs, metadata, processed, groups)),
                groups,
            ),
            base,
        ) == Seq::<ReqView>::empty(),
{
    let e1 = spec_enrich(docs, metadata, processed, groups);
    let p2 = processed + spec_keys(e1);
    assert forall|k: Seq<char>| key_in(processed, k) implies key_in(p2, k) by {
        crate::processing::lemma_key_in_extend(processed, spec_keys(e1), k);
    }
    assert forall|j: int|
        0 <= j < e1.len() implies key_in(p2, (#[trigger] e1[j]).meta_hash@) by {
        assert(p2[processed.len() + j] == spec_keys(e1)[j]);
        assert(spec_keys(e1)[j] == e1[j].meta_hash);
    }
    lemma_enrich_all_marked(docs, metadata, processed, groups, p2);
    assert(spec_enrich(docs, metadata, p2, groups) =~= Seq::<SaleView>::empty());
}

/// Join gating: an event with no matching metadata record contributes
/// nothing to a pass — it is neither enriched nor marked, as if it were not
/// there at all.
pub proof fn lemma_unmatched_event_ignored(
    docs: Seq<Doc>,
    metadata: Seq<MetadataDoc>,
    processed: Seq<String>,
    groups: Seq<EmailGroupDoc>,
    j: int,
)
    requires
        0 <= j < docs.len(),
        spec_decode_sale(docs[j].fields@) matches Ok(v) ==> metadata_matching(
            metadata,
            v.meta_hash@,
        ).len() == 0,
    ensures
        spec_enrich(docs.remove(j), metadata, processed, groups) == spec_enrich(
            docs,
            metadata,
            processed,
            groups,
        ),
    decreases docs.len(),
{
    if j == docs.len() - 1 {
        assert(docs.remove(j) =~= docs.drop_last());
        assert(spec_enrich_one(docs.last().fields@, metadata, processed, groups) is None);
        assert(spec_enrich(docs, metadata, processed, groups) =~= spec_enrich(
            docs.drop_last(),
            metadata,
            processed,
            groups,
        ));
    } else {
        lemma_unmatched_event_ignored(docs.drop_last(), metadata, processed, groups, j);
        assert(docs.remove(j).drop_last() =~= docs.drop_last().remove(j));
        assert(docs.remove(j).last() == docs.last());
        assert(spec_enrich(docs.remove(j), metadata, processed, groups) =~= spec_enrich(
            docs,
            metadata,
            processed,
            groups,
        ));
    }
}

/// Skip-but-mark: an enriched event with an ill-formed address or no
/// sibling-group labels adds no request to the pass, yet its key still
/// stands in the pass's processed-marker list.
pub proof fn lemma_skip_but_mark(recs: Seq<SaleView>, base: Seq<char>, j: int)
    requires
        0 <= j < recs.len(),
        !sale_eligible(recs[j]),
    ensures
        spec_sale_requests(recs.remove(j), base) == spec_sale_requests(recs, base),
        spec_keys(recs)[j] == recs[j].meta_hash,
    decreases recs.len(),
{
    if j == recs.len() - 1 {
        assert(recs.remove(j) =~= recs.drop_last());
    } else {
        lemma_skip_but_mark(recs.drop_last(), base, j);
        assert(recs.remove(j).drop_last() =~= recs.drop_last().remove(j));
        assert(recs.remove(j).last() == recs.last());
        assert(spec_sale_requests(recs.remove(j), base) =~= spec_sale_requests(recs, base));
    }
}

} // verus!
