//! The renewal pipeline: enrich, look up, dispatch, mark processed.
//!
//! A pass reads the raw renewal-toggle events and enriches them like the
//! purchase pipeline, except that the processed-marker key is the
//! transaction identifier.  Dispatch then depends on the toggle: a non-zero
//! allowance enables auto-renewal with one POST; a zero allowance first
//! needs the subscriber's current groups, fetched from the mailing service
//! by contact address, and then re-submits them with the managed group
//! removed in one PUT.  The fetches happen outside the library between
//! `lookup_targets` and `process_data`, one per target, in order.

use vstd::prelude::*;
use vstd::string::StringExecFns;
use crate::batching::{make_batches, spec_batches};
use crate::document::{Doc, DecodeError, FieldName, FieldValue, spec_text_field};
use crate::interop::email_ok;
use crate::processing::{
    EmailGroupDoc, MetadataDoc, collect_groups, collect_metadata, group_labels, key_in,
    key_is_processed, metadata_matching,
};
use crate::request::{
    Method, NotificationRequest, ReqView, append_groups_query, batch_views, groups_query,
    reqs_view,
};

verus! {

/// One renewal-toggle event, with its joined metadata records and
/// sibling-group labels once enriched.
#[derive(Debug)]
pub struct ReenewalToggledDoc {
    pub tx_hash: String,
    pub domain: String,
    pub renewer: String,
    pub allowance: String,
    pub metadata: Vec<MetadataDoc>,
    pub same_tx_groups: Vec<String>,
}

/// The mathematical shape of a renewal-toggle event.
pub struct RenewalView {
    pub tx_hash: String,
    pub domain: String,
    pub renewer: String,
    pub allowance: String,
    pub metadata: Seq<MetadataDoc>,
    pub same_tx_groups: Seq<String>,
}

impl View for ReenewalToggledDoc {
    type V = RenewalView;

    open spec fn view(&self) -> RenewalView {
        RenewalView {
            tx_hash: self.tx_hash,
            domain: self.domain,
            renewer: self.renewer,
            allowance: self.allowance,
            metadata: self.metadata@,
            same_tx_groups: self.same_tx_groups@,
        }
    }
}

/// A subscriber as the mailing service reports it: its identifier and its
/// current group memberships.
#[derive(Debug)]
pub struct SubscriberInfo {
    pub id: String,
    pub groups: Vec<String>,
}

/// The mathematical shape of a subscriber lookup result.
pub struct SubscriberView {
    pub id: String,
    pub groups: Seq<String>,
}

impl View for SubscriberInfo {
    type V = SubscriberView;

    open spec fn view(&self) -> SubscriberView {
        SubscriberView { id: self.id, groups: self.groups@ }
    }
}

/// The lookup results as mathematical shapes; a `None` is a fetch that
/// failed or returned an unreadable body.
pub open spec fn lookups_view(s: Seq<Option<SubscriberInfo>>) -> Seq<Option<SubscriberView>> {
    s.map_values(
        |o: Option<SubscriberInfo>|
            match o {
                Some(info) => Some(info@),
                None => None,
            },
    )
}

/// Decoding a raw document into a renewal event: the content hash it joins
/// metadata on, and the typed record with joins still empty; or the first
/// field found missing or mistyped.
pub open spec fn spec_decode_renewal(fields: Seq<(String, FieldValue)>) -> Result<
    (String, RenewalView),
    DecodeError,
> {
    match spec_text_field(fields, "tx_hash"@, FieldName::TxHash) {
        Err(e) => Err(e),
        Ok(tx_hash) => match spec_text_field(fields, "meta_hash"@, FieldName::MetaHash) {
            Err(e) => Err(e),
            Ok(meta_hash) => match spec_text_field(fields, "domain"@, FieldName::Domain) {
                Err(e) => Err(e),
                Ok(domain) => match spec_text_field(fields, "renewer"@, FieldName::Renewer) {
                    Err(e) => Err(e),
                    Ok(renewer) => match spec_text_field(
                        fields,
                        "allowance"@,
                        FieldName::Allowance,
                    ) {
                        Err(e) => Err(e),
                        Ok(allowance) => Ok(
                            (
                                meta_hash,
                                RenewalView {
                                    tx_hash,
                                    domain,
                                    renewer,
                                    allowance,
                                    metadata: Seq::empty(),
                                    same_tx_groups: Seq::empty(),
                                },
                            ),
                        ),
                    },
                },
            },
        },
    }
}

/// Decodes a raw document into a renewal event and its content hash.
pub fn decode_renewal(doc: &Doc) -> (r: Result<(String, ReenewalToggledDoc), DecodeError>)
    ensures
        match r {
            Ok(p) => spec_decode_renewal(doc.fields@) == Ok::<(String, RenewalView), DecodeError>(
                (p.0, p.1@),
            ),
            Err(e) => spec_decode_renewal(doc.fields@) == Err::<
                (String, RenewalView),
                DecodeError,
            >(e),
        },
{
    let tx_hash = match doc.get_text(&String::from_str("tx_hash"), FieldName::TxHash) {
        Ok(s) => s,
        Err(e) => return Err(e),
    };
    let meta_hash = match doc.get_text(&String::from_str("meta_hash"), FieldName::MetaHash) {
        Ok(s) => s,
        Err(e) => return Err(e),
    };
    let domain = match doc.get_text(&String::from_str("domain"), FieldName::Domain) {
        Ok(s) => s,
        Err(e) => return Err(e),
    };
    let renewer = match doc.get_text(&String::from_str("renewer"), FieldName::Renewer) {
        Ok(s) => s,
        Err(e) => return Err(e),
    };
    let allowance = match doc.get_text(&String::from_str("allowance"), FieldName::Allowance) {
        Ok(s) => s,
        Err(e) => return Err(e),
    };
    Ok(
        (
            meta_hash,
            ReenewalToggledDoc {
                tx_hash,
                domain,
                renewer,
                allowance,
                metadata: Vec::new(),
                same_tx_groups: Vec::new(),
            },
        ),
    )
}

/// The decoded event with its joins attached.
pub open spec fn renewal_with_joins(
    v: RenewalView,
    meta_hash: String,
    metadata: Seq<MetadataDoc>,
    groups: Seq<EmailGroupDoc>,
) -> RenewalView {
    RenewalView {
        metadata: metadata_matching(metadata, meta_hash@),
        same_tx_groups: group_labels(groups, v.tx_hash@),
        ..v
    }
}

/// What one raw document contributes to a pass: the enriched event, or
/// nothing when it is malformed, has no metadata yet, or its transaction
/// identifier is already marked processed.
pub open spec fn spec_enrich_one(
    fields: Seq<(String, FieldValue)>,
    metadata: Seq<MetadataDoc>,
    processed: Seq<String>,
    groups: Seq<EmailGroupDoc>,
) -> Option<RenewalView> {
    match spec_decode_renewal(fields) {
        Err(_) => None,
        Ok(p) => if metadata_matching(metadata, p.0@).len() == 0 {
            None
        } else if key_in(processed, p.1.tx_hash@) {
            None
        } else {
            Some(renewal_with_joins(p.1, p.0, metadata, groups))
        },
    }
}

/// The enriched renewal events of a pass, in store order.
pub open spec fn spec_enrich(
    docs: Seq<Doc>,
    metadata: Seq<MetadataDoc>,
    processed: Seq<String>,
    groups: Seq<EmailGroupDoc>,
) -> Seq<RenewalView>
    decreases docs.len(),
{
    if docs.len() == 0 {
        Seq::empty()
    } else {
        spec_enrich(docs.drop_last(), metadata, processed, groups) + (match spec_enrich_one(
            docs.last().fields@,
            metadata,
            processed,
            groups,
        ) {
            Some(v) => seq![v],
            None => Seq::empty(),
        })
    }
}

/// Enriches the raw renewal events: joins each with its metadata records and
/// sibling-group labels, drops events without metadata, already processed,
/// or malformed.
pub fn enrich(
    events: &Vec<Doc>,
    metadata: &Vec<MetadataDoc>,
    processed: &Vec<String>,
    groups: &Vec<EmailGroupDoc>,
) -> (r: Vec<ReenewalToggledDoc>)
    ensures
        r@.map_values(|x: ReenewalToggledDoc| x@) == spec_enrich(
            events@,
            metadata@,
            processed@,
            groups@,
        ),
{
    let mut out: Vec<ReenewalToggledDoc> = Vec::new();
    let n = events.len();
    let mut i: usize = 0;
    while i < n
        invariant
            i <= n,
            n == events@.len(),
            out@.map_values(|x: ReenewalToggledDoc| x@) == spec_enrich(
                events@.take(i as int),
                metadata@,
                processed@,
                groups@,
            ),
        decreases n - i,
    {
        let ghost pre = out@.map_values(|x: ReenewalToggledDoc| x@);
        match decode_renewal(&events[i]) {
            Err(_) => {},
            Ok(p) => {
                let (meta_hash, d) = p;
                let matched = collect_metadata(metadata, &meta_hash);
                if matched.len() > 0 {
                    if !key_is_processed(processed, &d.tx_hash) {
                        let labels = collect_groups(groups, &d.tx_hash);
                        let ghost dv = d@;
                        let ghost mh = meta_hash;
                        let enriched = ReenewalToggledDoc {
                            metadata: matched,
                            same_tx_groups: labels,
                            ..d
                        };
                        proof {
                            assert(enriched@ == renewal_with_joins(
                                RenewalView {
                                    metadata: Seq::empty(),
                                    same_tx_groups: Seq::empty(),
                                    ..dv
                                },
                                mh,
                                metadata@,
                                groups@,
                            ));
                        }
                        out.push(enriched);
                        proof {
                            assert(out@.map_values(|x: ReenewalToggledDoc| x@) =~= pre + seq![
                                out@.last()@,
                            ]);
                        }
                    }
                }
            },
        }
        proof {
            assert(events@.take(i + 1 as int).drop_last() =~= events@.take(i as int));
            assert(events@.take(i + 1 as int).last() == events@[i as int]);
            assert(out@.map_values(|x: ReenewalToggledDoc| x@) =~= spec_enrich(
                events@.take(i + 1 as int),
                metadata@,
                processed@,
                groups@,
            ));
        }
        i = i + 1;
    }
    proof {
        assert(events@.take(n as int) =~= events@);
    }
    out
}

/// Every enriched renewal event carries at least one metadata record.
pub proof fn lemma_enrich_metadata_nonempty(
    docs: Seq<Doc>,
    metadata: Seq<MetadataDoc>,
    processed: Seq<String>,
    groups: Seq<EmailGroupDoc>,
)
    ensures
        forall|j: int|
            0 <= j < spec_enrich(docs, metadata, processed, groups).len() ==> (#[trigger] spec_enrich(
                docs,
                metadata,
                processed,
                groups,
            )[j]).metadata.len() >= 1,
    decreases docs.len(),
{
    if docs.len() > 0 {
        lemma_enrich_metadata_nonempty(docs.drop_last(), metadata, processed, groups);
        let pre = spec_enrich(docs.drop_last(), metadata, processed, groups);
        let e = spec_enrich(docs, metadata, processed, groups);
        assert forall|j: int| 0 <= j < e.len() implies (#[trigger] e[j]).metadata.len() >= 1 by {
            if j < pre.len() {
                assert(e[j] == pre[j]);
            } else {
                assert(e[j] == spec_enrich_one(
                    docs.last().fields@,
                    metadata,
                    processed,
                    groups,
                )->Some_0);
            }
        }
    }
}

/// Whether dispatching an enriched renewal event needs the subscriber's
/// current groups first: its address is well-formed and its allowance is
/// zero.
pub open spec fn needs_lookup(v: RenewalView) -> bool {
    email_ok(v.metadata[0].email@) && v.allowance@ == "0"@
}

/// How many of the events need a subscriber lookup.
pub open spec fn spec_lookup_count(recs: Seq<RenewalView>) -> int
    decreases recs.len(),
{
    if recs.len() == 0 {
        0
    } else {
        spec_lookup_count(recs.drop_last()) + (if needs_lookup(recs.last()) {
            1int
        } else {
            0int
        })
    }
}

/// The contact addresses to look up, one per event that needs it, in order.
pub open spec fn spec_lookup_targets(recs: Seq<RenewalView>) -> Seq<String>
    decreases recs.len(),
{
    if recs.len() == 0 {
        Seq::empty()
    } else {
        spec_lookup_targets(recs.drop_last()) + (if needs_lookup(recs.last()) {
            seq![recs.last().metadata[0].email]
        } else {
            Seq::empty()
        })
    }
}

/// Lists the contact addresses whose current groups the disable path needs:
/// one per enriched event with a well-formed address and a zero allowance,
/// in order.  Each address is fetched outside the library and the results
/// are handed to `process_data` in the same order.
pub fn lookup_targets(records: &Vec<ReenewalToggledDoc>) -> (r: Vec<String>)
    requires
        forall|j: int|
            0 <= j < records@.len() ==> (#[trigger] records@[j]).metadata@.len() >= 1,
    ensures
        r@ == spec_lookup_targets(records@.map_values(|x: ReenewalToggledDoc| x@)),
        r@.len() == spec_lookup_count(records@.map_values(|x: ReenewalToggledDoc| x@)),
{
    let ghost rviews = records@.map_values(|x: ReenewalToggledDoc| x@);
    let mut r: Vec<String> = Vec::new();
    let n = records.len();
    let mut i: usize = 0;
    while i < n
        invariant
            i <= n,
            n == records@.len(),
            rviews == records@.map_values(|x: ReenewalToggledDoc| x@),
            forall|j: int| 0 <= j < rviews.len() ==> (#[trigger] rviews[j]).metadata.len() >= 1,
            r@ == spec_lookup_targets(rviews.take(i as int)),
            r@.len() == spec_lookup_count(rviews.take(i as int)),
        decreases n - i,
    {
        assert(rviews[i as int] == records@[i as int]@);
        let valid = email_address::EmailAddress::is_valid(
            records[i].metadata[0].email.as_str(),
        );
        if valid && records[i].allowance == String::from_str("0") {
            r.push(records[i].metadata[0].email.clone());
        }
        proof {
            assert(rviews.take(i + 1 as int).drop_last() =~= rviews.take(i as int));
            assert(rviews.take(i + 1 as int).last() == rviews[i as int]);
            assert(r@ =~= spec_lookup_targets(rviews.take(i + 1 as int)));
        }
        i = i + 1;
    }
    proof {
        assert(rviews.take(n as int) =~= rviews);
    }
    r
}

/// The groups that stay when the managed group is removed, order and
/// duplicates kept.
pub open spec fn spec_remaining_groups(gs: Seq<String>, ar: Seq<char>) -> Seq<String>
    decreases gs.len(),
{
    if gs.len() == 0 {
        Seq::empty()
    } else {
        spec_remaining_groups(gs.drop_last(), ar) + (if gs.last()@ == ar {
            Seq::empty()
        } else {
            seq![gs.last()]
        })
    }
}

/// The disable request for one subscriber: a PUT that re-submits its groups
/// with the managed group removed.
pub open spec fn spec_disable_request(
    info: SubscriberView,
    base: Seq<char>,
    ar: Seq<char>,
) -> ReqView {
    ReqView {
        method: Method::Put,
        path: base + "/subscribers/"@ + info.id@,
        body: Some(spec_remaining_groups(info.groups, ar)),
    }
}

/// Builds the disable request for one subscriber: a PUT to its own path
/// whose body carries every fetched group except the managed one.
pub fn create_disable_request(info: &SubscriberInfo, base_url: &str, ar_group_id: &str) -> (r:
    NotificationRequest)
    ensures
        r@ == spec_disable_request(info@, base_url@, ar_group_id@),
{
    let ar = String::from_str(ar_group_id);
    let mut new_groups: Vec<String> = Vec::new();
    let n = info.groups.len();
    let mut i: usize = 0;
    while i < n
        invariant
            i <= n,
            n == info.groups@.len(),
            ar@ == ar_group_id@,
            new_groups@ == spec_remaining_groups(info.groups@.take(i as int), ar_group_id@),
        decreases n - i,
    {
        if !(info.groups[i] == ar) {
            new_groups.push(info.groups[i].clone());
        }
        proof {
            assert(info.groups@.take(i + 1 as int).drop_last() =~= info.groups@.take(i as int));
            assert(info.groups@.take(i + 1 as int).last() == info.groups@[i as int]);
        }
        i = i + 1;
    }
    proof {
        assert(info.groups@.take(n as int) =~= info.groups@);
    }
    let mut path = String::new();
    path.append(base_url);
    path.append("/subscribers/");
    path.append(info.id.as_str());
    proof {
        assert(path@ =~= base_url@ + "/subscribers/"@ + info.id@);
    }
    NotificationRequest { method: Method::Put, path, body: Some(new_groups) }
}

/// The PUT of a disable never re-submits the managed group, and keeps every
/// other fetched group.
pub proof fn lemma_remaining_groups(gs: Seq<String>, ar: Seq<char>)
    ensures
        forall|j: int|
            0 <= j < spec_remaining_groups(gs, ar).len() ==> (#[trigger] spec_remaining_groups(
                gs,
                ar,
            )[j])@ != ar,
        forall|i: int|
            0 <= i < gs.len() && (#[trigger] gs[i])@ != ar ==> spec_remaining_groups(
                gs,
                ar,
            ).contains(gs[i]),
    decreases gs.len(),
{
    if gs.len() > 0 {
        lemma_remaining_groups(gs.drop_last(), ar);
        let pre = spec_remaining_groups(gs.drop_last(), ar);
        let whole = spec_remaining_groups(gs, ar);
        assert forall|i: int| 0 <= i < gs.len() && (#[trigger] gs[i])@ != ar implies whole.contains(
            gs[i],
        ) by {
            if i < gs.len() - 1 {
                assert(gs.drop_last()[i] == gs[i]);
                assert(pre.contains(gs[i]));
                let w = choose|w: int| 0 <= w < pre.len() && pre[w] == gs[i];
                assert(whole[w] == gs[i]);
            } else {
                assert(whole[whole.len() - 1] == gs[i]);
            }
        }
    }
}

/// The enable request for one enriched renewal event: a POST carrying the
/// contact address, domain, renewer and the sibling-group labels.
pub open spec fn spec_enable_request(v: RenewalView, base: Seq<char>) -> ReqView {
    ReqView {
        method: Method::Post,
        path: base + "/subscribers?email="@ + v.metadata[0].email@ + "&fields[name]="@ + v.domain@
            + "&fields[renewer]="@ + v.renewer@ + "&"@ + groups_query(v.same_tx_groups),
        body: None,
    }
}

/// Builds the enable request for one enriched renewal event.
pub fn create_enable_request(sale: &ReenewalToggledDoc, base_url: &str) -> (r: NotificationRequest)
    requires
        sale.metadata@.len() >= 1,
    ensures
        r@ == spec_enable_request(sale@, base_url@),
{
    let mut path = String::new();
    path.append(base_url);
    path.append("/subscribers?email=");
    path.append(sale.metadata[0].email.as_str());
    path.append("&fields[name]=");
    path.append(sale.domain.as_str());
    path.append("&fields[renewer]=");
    path.append(sale.renewer.as_str());
    path.append("&");
    append_groups_query(&mut path, &sale.same_tx_groups);
    proof {
        assert(path@ =~= spec_enable_request(sale@, base_url@).path);
    }
    NotificationRequest { method: Method::Post, path, body: None }
}

/// What one enriched event adds to the pass's requests, given its lookup
/// result when it needed one: nothing for an ill-formed address, a skipped
/// enable with no sibling groups, or a failed lookup; otherwise one request.
pub open spec fn spec_renewal_action(
    v: RenewalView,
    lookup: Option<SubscriberView>,
    base: Seq<char>,
    ar: Seq<char>,
) -> Seq<ReqView> {
    if !email_ok(v.metadata[0].email@) {
        Seq::empty()
    } else if v.allowance@ == "0"@ {
        match lookup {
            Some(info) => seq![spec_disable_request(info, base, ar)],
            None => Seq::empty(),
        }
    } else if v.same_tx_groups.len() > 0 {
        seq![spec_enable_request(v, base)]
    } else {
        Seq::empty()
    }
}

/// The requests of a pass, each event consuming the next lookup result when
/// it needs one; a missing result counts as a failed lookup.
pub open spec fn spec_renewal_requests(
    recs: Seq<RenewalView>,
    lookups: Seq<Option<SubscriberView>>,
    base: Seq<char>,
    ar: Seq<char>,
) -> Seq<ReqView>
    decreases recs.len(),
{
    if recs.len() == 0 {
        Seq::empty()
    } else {
        spec_renewal_requests(recs.drop_last(), lookups, base, ar) + spec_renewal_action(
            recs.last(),
            if needs_lookup(recs.last()) {
                let k = spec_lookup_count(recs.drop_last());
                if 0 <= k < lookups.len() {
                    lookups[k]
                } else {
                    None
                }
            } else {
                None
            },
            base,
            ar,
        )
    }
}

/// The processed-marker keys of a pass: the transaction identifier of every
/// enriched renewal event, dispatched or skipped.
pub open spec fn spec_renewal_keys(recs: Seq<RenewalView>) -> Seq<String> {
    recs.map_values(|v: RenewalView| v.tx_hash)
}

/// The outcome of one renewal pass: the request batches to send, in flush
/// order, and the keys to mark processed afterwards.
pub struct RenewalRun {
    pub batches: Vec<Vec<NotificationRequest>>,
    pub processed_keys: Vec<String>,
}

/// One renewal dispatch pass over the enriched events and their fetched
/// lookup results: builds the enable and disable requests in event order,
/// batches them, and lists every event's transaction identifier to mark
/// processed — also for events that were skipped or whose lookup failed.
pub fn process_data(
    records: &Vec<ReenewalToggledDoc>,
    lookups: &Vec<Option<SubscriberInfo>>,
    base_url: &str,
    ar_group_id: &str,
    batch_size: usize,
) -> (r: RenewalRun)
    requires
        batch_size >= 1,
        forall|j: int|
            0 <= j < records@.len() ==> (#[trigger] records@[j]).metadata@.len() >= 1,
    ensures
        batch_views(r.batches@) == spec_batches(
            spec_renewal_requests(
                records@.map_values(|x: ReenewalToggledDoc| x@),
                lookups_view(lookups@),
                base_url@,
                ar_group_id@,
            ),
            batch_size as int,
        ),
        r.processed_keys@ == spec_renewal_keys(records@.map_values(|x: ReenewalToggledDoc| x@)),
{
    let ghost rviews = records@.map_values(|x: ReenewalToggledDoc| x@);
    let ghost lviews = lookups_view(lookups@);
    let mut requests: Vec<NotificationRequest> = Vec::new();
    let mut keys: Vec<String> = Vec::new();
    let n = records.len();
    let mut i: usize = 0;
    let mut used: usize = 0;
    while i < n
        invariant
            i <= n,
            n == records@.len(),
            rviews == records@.map_values(|x: ReenewalToggledDoc| x@),
            lviews == lookups_view(lookups@),
            forall|j: int| 0 <= j < rviews.len() ==> (#[trigger] rviews[j]).metadata.len() >= 1,
            used <= lookups@.len(),
            spec_lookup_count(rviews.take(i as int)) < lookups@.len() ==> used as int
                == spec_lookup_count(rviews.take(i as int)),
            spec_lookup_count(rviews.take(i as int)) >= lookups@.len() ==> used as int
                == lookups@.len(),
            reqs_view(requests@) == spec_renewal_requests(
                rviews.take(i as int),
                lviews,
                base_url@,
                ar_group_id@,
            ),
            keys@ == spec_renewal_keys(rviews.take(i as int)),
        decreases n - i,
    {
        let ghost preq = reqs_view(requests@);
        assert(rviews[i as int] == records@[i as int]@);
        keys.push(records[i].tx_hash.clone());
        let valid = email_address::EmailAddress::is_valid(
            records[i].metadata[0].email.as_str(),
        );
        let ghost cnt = spec_lookup_count(rviews.take(i as int));
        if valid && records[i].allowance == String::from_str("0") {
            let lookup: Option<&SubscriberInfo> = if used < lookups.len() {
                match &lookups[used] {
                    Some(info) => Some(info),
                    None => None,
                }
            } else {
                None
            };
            if used < lookups.len() {
                used = used + 1;
            }
            match lookup {
                Some(info) => {
                    let req = create_disable_request(info, base_url, ar_group_id);
                    requests.push(req);
                    proof {
                        assert(reqs_view(requests@) =~= preq + seq![requests@.last()@]);
                    }
                },
                None => {},
            }
        } else if valid && records[i].same_tx_groups.len() > 0 {
            let req = create_enable_request(&records[i], base_url);
            requests.push(req);
            proof {
                assert(reqs_view(requests@) =~= preq + seq![requests@.last()@]);
            }
        }
        proof {
            assert(rviews.take(i + 1 as int).drop_last() =~= rviews.take(i as int));
            assert(rviews.take(i + 1 as int).last() == rviews[i as int]);
            assert(reqs_view(requests@) =~= spec_renewal_requests(
                rviews.take(i + 1 as int),
                lviews,
                base_url@,
                ar_group_id@,
            ));
            assert(keys@ =~= spec_renewal_keys(rviews.take(i + 1 as int)));
        }
        i = i + 1;
    }
    proof {
        assert(rviews.take(n as int) =~= rviews);
    }
    let ghost reqseq = requests@;
    let batches = make_batches(requests, batch_size);
    proof {
        crate::batching::lemma_batches_map(
            reqseq,
            batch_size as int,
            |q: NotificationRequest| q@,
        );
        assert(batch_views(batches@) =~= crate::batching::batches_view(batches@).map_values(
            |t: Seq<NotificationRequest>| t.map_values(|q: NotificationRequest| q@),
        ));
    }
    RenewalRun { batches, processed_keys: keys }
}

/// Disable path: one well-addressed event with allowance zero asks for
/// exactly one lookup — its contact address — and dispatches exactly one
/// PUT, built from what that one lookup returned; a failed lookup
/// dispatches nothing.  Either way the event's transaction identifier is
/// marked.
pub proof fn lemma_disable_path(
    v: RenewalView,
    info: SubscriberView,
    base: Seq<char>,
    ar: Seq<char>,
)
    requires
        needs_lookup(v),
    ensures
        spec_lookup_targets(seq![v]) == seq![v.metadata[0].email],
        spec_renewal_requests(seq![v], seq![Some(info)], base, ar) == seq![
            spec_disable_request(info, base, ar),
        ],
        spec_renewal_requests(seq![v], seq![Option::<SubscriberView>::None], base, ar)
            == Seq::<ReqView>::empty(),
        spec_renewal_keys(seq![v]) == seq![v.tx_hash],
        forall|j: int|
            0 <= j < spec_remaining_groups(info.groups, ar).len() ==> (
            #[trigger] spec_remaining_groups(info.groups, ar)[j])@ != ar,
        forall|i: int|
            0 <= i < info.groups.len() && (#[trigger] info.groups[i])@ != ar
                ==> spec_remaining_groups(info.groups, ar).contains(info.groups[i]),
{
    let s = seq![v];
    assert(s.drop_last() =~= Seq::<RenewalView>::empty());
    assert(s.last() == v);
    assert(spec_lookup_targets(Seq::<RenewalView>::empty()) =~= Seq::<String>::empty());
    assert(spec_lookup_count(Seq::<RenewalView>::empty()) == 0);
    assert(spec_renewal_requests(
        Seq::<RenewalView>::empty(),
        seq![Some(info)],
        base,
        ar,
    ) =~= Seq::<ReqView>::empty());
    assert(spec_renewal_requests(
        Seq::<RenewalView>::empty(),
        seq![Option::<SubscriberView>::None],
        base,
        ar,
    ) =~= Seq::<ReqView>::empty());
    assert(spec_lookup_targets(s) =~= seq![v.metadata[0].email]);
    assert(spec_renewal_requests(s, seq![Some(info)], base, ar) =~= seq![
        spec_disable_request(info, base, ar),
    ]);
    assert(spec_renewal_requests(s, seq![Option::<SubscriberView>::None], base, ar)
        =~= Seq::<ReqView>::empty());
    assert(spec_renewal_keys(s) =~= seq![v.tx_hash]);
    lemma_remaining_groups(info.groups, ar);
}

/// Processed monotonicity: once a transaction identifier carries a
/// processed marker, no pass enriches an event with that identifier again.
pub proof fn lemma_processed_key_never_emitted(
    docs: Seq<Doc>,
    metadata: Seq<MetadataDoc>,
    processed: Seq<String>,
    groups: Seq<EmailGroupDoc>,
    k: Seq<char>,
)
    requires
        key_in(processed, k),
    ensures
        forall|j: int|
            0 <= j < spec_enrich(docs, metadata, processed, groups).len() ==> (#[trigger] spec_enrich(
                docs,
                metadata,
                processed,
                groups,
            )[j]).tx_hash@ != k,
    decreases docs.len(),
{
    if docs.len() > 0 {
        lemma_processed_key_never_emitted(docs.drop_last(), metadata, processed, groups, k);
        let pre = spec_enrich(docs.drop_last(), metadata, processed, groups);
        let e = spec_enrich(docs, metadata, processed, groups);
        assert forall|j: int| 0 <= j < e.len() implies (#[trigger] e[j]).tx_hash@ != k by {
            if j < pre.len() {
                assert(e[j] == pre[j]);
            } else {
                assert(e[j] == spec_enrich_one(
                    docs.last().fields@,
                    metadata,
                    processed,
                    groups,
                )->Some_0);
            }
        }
    }
}

/// Every event that a pass would enrich against `p2` is already enriched
/// against `processed`, so if `p2` covers `processed` and all of that pass's
/// keys, nothing is left.
proof fn lemma_enrich_all_marked(
    docs: Seq<Doc>,
    metadata: Seq<MetadataDoc>,
    processed: Seq<String>,
    groups: Seq<EmailGroupDoc>,
    p2: Seq<String>,
)
    requires
        forall|k: Seq<char>| key_in(processed, k) ==> key_in(p2, k),
        forall|j: int|
            0 <= j < spec_enrich(docs, metadata, processed, groups).len() ==> key_in(
                p2,
                (#[trigger] spec_enrich(docs, metadata, processed, groups)[j]).tx_hash@,
            ),
    ensures
        spec_enrich(docs, metadata, p2, groups).len() == 0,
    decreases docs.len(),
{
    if docs.len() > 0 {
        let e1pre = spec_enrich(docs.drop_last(), metadata, processed, groups);
        let e1 = spec_enrich(docs, metadata, processed, groups);
        assert forall|j: int|
            0 <= j < e1pre.len() implies key_in(p2, (#[trigger] e1pre[j]).tx_hash@) by {
            assert(e1[j] == e1pre[j]);
        }
        lemma_enrich_all_marked(docs.drop_last(), metadata, processed, groups, p2);
        match spec_decode_renewal(docs.last().fields@) {
            Err(_) => {},
            Ok(p) => {
                if metadata_matching(metadata, p.0@).len() == 0 {
                } else if key_in(processed, p.1.tx_hash@) {
                    assert(key_in(p2, p.1.tx_hash@));
                } else {
                    assert(e1[e1.len() - 1] == spec_enrich_one(
                        docs.last().fields@,
                        metadata,
                        processed,
                        groups,
                    )->Some_0);
                    assert(key_in(p2, p.1.tx_hash@));
                }
            },
        }
    }
}

/// Idempotency: marking a renewal pass's keys processed leaves nothing for
/// a second pass to enrich, so the second pass dispatches no request at
/// all — until new data arrives.
pub proof fn lemma_second_pass_empty(
    docs: Seq<Doc>,
    metadata: Seq<MetadataDoc>,
    processed: Seq<String>,
    groups: Seq<EmailGroupDoc>,
    lookups: Seq<Option<SubscriberView>>,
    base: Seq<char>,
    ar: Seq<char>,
)
    ensures
        spec_enrich(
            docs,
            metadata,
            processed + spec_renewal_keys(spec_enrich(docs, metadata, processed, groups)),
            groups,
        ) == Seq::<RenewalView>::empty(),
        spec_renewal_requests(
            spec_enrich(
                docs,
                metadata,
                processed + spec_renewal_keys(spec_enrich(docs, metadata, processed, groups)),
                groups,
            ),
            lookups,
            base,
            ar,
        ) == Seq::<ReqView>::empty(),
{
    let e1 = spec_enrich(docs, metadata, processed, groups);
    let p2 = processed + spec_renewal_keys(e1);
    assert forall|k: Seq<char>| key_in(processed, k) implies key_in(p2, k) by {
        crate::processing::lemma_key_in_extend(processed, spec_renewal_keys(e1), k);
    }
    assert forall|j: int| 0 <= j < e1.len() implies key_in(p2, (#[trigger] e1[j]).tx_hash@) by {
        assert(p2[processed.len() + j] == spec_renewal_keys(e1)[j]);
        assert(spec_renewal_keys(e1)[j] == e1[j].tx_hash);
    }
    lemma_enrich_all_marked(docs, metadata, processed, groups, p2);
    assert(spec_enrich(docs, metadata, p2, groups) =~= Seq::<RenewalView>::empty());
}

/// Removing an event that needs no lookup leaves the lookup count alone.
proof fn lemma_count_remove_non_needer(recs: Seq<RenewalView>, j: int)
    requires
        0 <= j < recs.len(),
        !needs_lookup(recs[j]),
    ensures
        spec_lookup_count(recs.remove(j)) == spec_lookup_count(recs),
    decreases recs.len(),
{
    if j == recs.len() - 1 {
        assert(recs.remove(j) =~= recs.drop_last());
    } else {
        lemma_count_remove_non_needer(recs.drop_last(), j);
        assert(recs.remove(j).drop_last() =~= recs.drop_last().remove(j));
        assert(recs.remove(j).last() == recs.last());
    }
}

/// Skip-but-mark: an enriched renewal event with an ill-formed address, or
/// one with a non-zero allowance and no sibling-group labels, adds no
/// request to the pass, yet its transaction identifier still stands in the
/// pass's processed-marker list.
pub proof fn lemma_skip_but_mark(
    recs: Seq<RenewalView>,
    lookups: Seq<Option<SubscriberView>>,
    base: Seq<char>,
    ar: Seq<char>,
    j: int,
)
    requires
        0 <= j < recs.len(),
        !email_ok(recs[j].metadata[0].email@) || (recs[j].allowance@ != "0"@
            && recs[j].same_tx_groups.len() == 0),
    ensures
        spec_renewal_requests(recs.remove(j), lookups, base, ar) == spec_renewal_requests(
            recs,
            lookups,
            base,
            ar,
        ),
        spec_renewal_keys(recs)[j] == recs[j].tx_hash,
    decreases recs.len(),
{
    assert(!needs_lookup(recs[j]));
    if j == recs.len() - 1 {
        assert(recs.remove(j) =~= recs.drop_last());
        assert(spec_renewal_action(
            recs[j],
            if needs_lookup(recs[j]) {
                let k = spec_lookup_count(recs.drop_last());
                if 0 <= k < lookups.len() {
                    lookups[k]
                } else {
                    None
                }
            } else {
                None
            },
            base,
            ar,
        ) =~= Seq::<ReqView>::empty());
        assert(spec_renewal_requests(recs, lookups, base, ar) =~= spec_renewal_requests(
            recs.drop_last(),
            lookups,
            base,
            ar,
        ));
    } else {
        lemma_skip_but_mark(recs.drop_last(), lookups, base, ar, j);
        lemma_count_remove_non_needer(recs.drop_last(), j);
        assert(recs.remove(j).drop_last() =~= recs.drop_last().remove(j));
        assert(recs.remove(j).last() == recs.last());
        assert(spec_renewal_requests(recs.remove(j), lookups, base, ar) =~= spec_renewal_requests(
            recs,
            lookups,
            base,
            ar,
        ));
    }
}

} // verus!
