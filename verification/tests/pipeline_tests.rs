use sale_actions::document::{Doc, DecodeError, FieldName, FieldValue};
use sale_actions::processing::{EmailGroupDoc, MetadataDoc};
use sale_actions::processing::purchases;
use sale_actions::processing::renewal;
use sale_actions::request::Method;

fn text(s: &str) -> FieldValue {
    FieldValue::Text(String::from(s))
}

fn field(name: &str, value: FieldValue) -> (String, FieldValue) {
    (String::from(name), value)
}

fn sale_doc(tx: &str, hash: &str) -> Doc {
    Doc {
        fields: vec![
            field("tx_hash", text(tx)),
            field("meta_hash", text(hash)),
            field("domain", text("dom.stark")),
            field("price", FieldValue::Number(1000)),
            field("payer", text("0x123")),
            field("timestamp", FieldValue::Number(1)),
            field("expiry", FieldValue::Number(0)),
        ],
    }
}

fn metadata(hash: &str, email: &str) -> MetadataDoc {
    MetadataDoc {
        meta_hash: String::from(hash),
        email: String::from(email),
        tax_state: String::from("st"),
        salt: String::from("s1"),
    }
}

fn group(tx: &str, label: &str) -> EmailGroupDoc {
    EmailGroupDoc { tx_hash: String::from(tx), group: String::from(label) }
}

const BASE: &str = "https://api.example.com";

#[test]
fn end_to_end_purchase_pass() {
    let events = vec![sale_doc("t1", "h1")];
    let meta = vec![metadata("h1", "a@b.com")];
    let processed: Vec<String> = vec![];
    let groups = vec![group("t1", "g1"), group("t1", "g2")];

    let run = purchases::process_data(&events, &meta, &processed, &groups, BASE, 10);

    assert_eq!(run.batches.len(), 1);
    assert_eq!(run.batches[0].len(), 1);
    let req = &run.batches[0][0];
    assert!(matches!(req.method, Method::Post));
    assert!(req.path.contains("groups[]=g1&groups[]=g2"));
    let expected = String::from("https://api.example.com/subscribers?email=a%40b.com")
        + "&fields[name]=dom.stark&fields[expiry]=1970-01-01%2000%3A00%3A00"
        + "&groups[]=g1&groups[]=g2";
    assert_eq!(req.path, expected);
    assert_eq!(run.processed_keys, vec![String::from("h1")]);

    // a second pass with the markers written dispatches nothing
    let second = purchases::process_data(&events, &meta, &run.processed_keys, &groups, BASE, 10);
    assert_eq!(second.batches.len(), 0);
    assert_eq!(second.processed_keys.len(), 0);
}

#[test]
fn join_gating_no_metadata() {
    let events = vec![sale_doc("t1", "h1")];
    let meta = vec![metadata("other", "a@b.com")];
    let processed: Vec<String> = vec![];
    let groups = vec![group("t1", "g1")];

    let run = purchases::process_data(&events, &meta, &processed, &groups, BASE, 3);
    assert_eq!(run.batches.len(), 0);
    assert!(run.processed_keys.is_empty());
}

#[test]
fn processed_marker_excludes_event() {
    let events = vec![sale_doc("t1", "h1"), sale_doc("t2", "h2")];
    let meta = vec![metadata("h1", "a@b.com"), metadata("h2", "c@d.com")];
    let processed = vec![String::from("h1")];
    let groups = vec![group("t1", "g1"), group("t2", "g2")];

    let run = purchases::process_data(&events, &meta, &processed, &groups, BASE, 3);
    assert_eq!(run.processed_keys, vec![String::from("h2")]);
    assert_eq!(run.batches.len(), 1);
    assert_eq!(run.batches[0].len(), 1);
    assert!(run.batches[0][0].path.contains("c%40d.com"));
}

#[test]
fn group_aggregation_three_labels() {
    let events = vec![sale_doc("t1", "h1")];
    let meta = vec![metadata("h1", "a@b.com")];
    let processed: Vec<String> = vec![];
    let groups = vec![group("t1", "a"), group("t1", "b"), group("t1", "c"), group("t2", "x")];

    let enriched = purchases::enrich(&events, &meta, &processed, &groups);
    assert_eq!(enriched.len(), 1);
    assert_eq!(
        enriched[0].same_tx_groups,
        vec![String::from("a"), String::from("b"), String::from("c")]
    );
    assert_eq!(enriched[0].metadata.len(), 1);
    assert_eq!(enriched[0].metadata[0].email, "a@b.com");
}

#[test]
fn skip_but_mark_invalid_address() {
    let events = vec![sale_doc("t1", "h1")];
    let meta = vec![metadata("h1", "not an address")];
    let processed: Vec<String> = vec![];
    let groups = vec![group("t1", "g1")];

    let run = purchases::process_data(&events, &meta, &processed, &groups, BASE, 3);
    assert_eq!(run.batches.len(), 0);
    assert_eq!(run.processed_keys, vec![String::from("h1")]);
}

#[test]
fn skip_but_mark_empty_groups() {
    let events = vec![sale_doc("t1", "h1")];
    let meta = vec![metadata("h1", "a@b.com")];
    let processed: Vec<String> = vec![];
    let groups: Vec<EmailGroupDoc> = vec![];

    let run = purchases::process_data(&events, &meta, &processed, &groups, BASE, 3);
    assert_eq!(run.batches.len(), 0);
    assert_eq!(run.processed_keys, vec![String::from("h1")]);
}

#[test]
fn batch_equivalence_on_purchases() {
    let events = vec![
        sale_doc("t1", "h1"),
        sale_doc("t2", "h2"),
        sale_doc("t3", "h3"),
        sale_doc("t4", "h4"),
        sale_doc("t5", "h5"),
    ];
    let meta = vec![
        metadata("h1", "a1@b.com"),
        metadata("h2", "a2@b.com"),
        metadata("h3", "a3@b.com"),
        metadata("h4", "a4@b.com"),
        metadata("h5", "a5@b.com"),
    ];
    let processed: Vec<String> = vec![];
    let groups = vec![
        group("t1", "g"),
        group("t2", "g"),
        group("t3", "g"),
        group("t4", "g"),
        group("t5", "g"),
    ];

    let run_by_one = purchases::process_data(&events, &meta, &processed, &groups, BASE, 1);
    let run_by_two = purchases::process_data(&events, &meta, &processed, &groups, BASE, 2);

    let flat_one: Vec<&String> =
        run_by_one.batches.iter().flatten().map(|r| &r.path).collect();
    let flat_two: Vec<&String> =
        run_by_two.batches.iter().flatten().map(|r| &r.path).collect();
    assert_eq!(flat_one, flat_two);
    assert_eq!(flat_one.len(), 5);

    assert_eq!(run_by_one.batches.len(), 5);
    assert_eq!(run_by_two.batches.len(), 3);
    assert!(run_by_two.batches[0].len() == 2 && run_by_two.batches[1].len() == 2);
    assert_eq!(run_by_two.batches[2].len(), 1);
    assert_eq!(run_by_one.processed_keys, run_by_two.processed_keys);
}

#[test]
fn malformed_document_is_skipped_not_marked() {
    let mut bad = sale_doc("t1", "h1");
    bad.fields.retain(|f| f.0 != "expiry");
    let events = vec![bad, sale_doc("t2", "h2")];
    let meta = vec![metadata("h1", "a@b.com"), metadata("h2", "c@d.com")];
    let processed: Vec<String> = vec![];
    let groups = vec![group("t1", "g1"), group("t2", "g2")];

    let run = purchases::process_data(&events, &meta, &processed, &groups, BASE, 3);
    assert_eq!(run.processed_keys, vec![String::from("h2")]);
}

#[test]
fn decode_sale_reports_missing_field() {
    let mut doc = sale_doc("t1", "h1");
    doc.fields.retain(|f| f.0 != "price");
    let r = purchases::decode_sale(&doc);
    assert_eq!(r.unwrap_err(), DecodeError::Missing(FieldName::Price));
}

#[test]
fn decode_sale_reports_wrong_type() {
    let mut doc = sale_doc("t1", "h1");
    for f in doc.fields.iter_mut() {
        if f.0 == "price" {
            f.1 = text("a lot");
        }
    }
    let r = purchases::decode_sale(&doc);
    assert_eq!(r.unwrap_err(), DecodeError::WrongType(FieldName::Price));
}

fn renewal_doc(tx: &str, hash: &str, allowance: &str) -> Doc {
    Doc {
        fields: vec![
            field("tx_hash", text(tx)),
            field("meta_hash", text(hash)),
            field("domain", text("dom.stark")),
            field("renewer", text("0xabc")),
            field("allowance", text(allowance)),
        ],
    }
}

#[test]
fn disable_path_one_get_one_put() {
    let events = vec![renewal_doc("t1", "h1", "0")];
    let meta = vec![metadata("h1", "a@b.com")];
    let processed: Vec<String> = vec![];
    let groups = vec![group("t1", "g1")];

    let enriched = renewal::enrich(&events, &meta, &processed, &groups);
    assert_eq!(enriched.len(), 1);

    // exactly one lookup, by contact address, before anything is sent
    let targets = renewal::lookup_targets(&enriched);
    assert_eq!(targets, vec![String::from("a@b.com")]);

    let lookups = vec![Some(renewal::SubscriberInfo {
        id: String::from("sub-1"),
        groups: vec![String::from("g1"), String::from("ar"), String::from("g2")],
    })];
    let run = renewal::process_data(&enriched, &lookups, BASE, "ar", 10);

    assert_eq!(run.batches.len(), 1);
    assert_eq!(run.batches[0].len(), 1);
    let req = &run.batches[0][0];
    assert!(matches!(req.method, Method::Put));
    assert_eq!(req.path, "https://api.example.com/subscribers/sub-1");
    assert_eq!(
        req.body.as_ref().unwrap(),
        &vec![String::from("g1"), String::from("g2")]
    );
    assert_eq!(run.processed_keys, vec![String::from("t1")]);
}

#[test]
fn disable_path_failed_lookup_still_marks() {
    let events = vec![renewal_doc("t1", "h1", "0")];
    let meta = vec![metadata("h1", "a@b.com")];
    let processed: Vec<String> = vec![];
    let groups = vec![group("t1", "g1")];

    let enriched = renewal::enrich(&events, &meta, &processed, &groups);
    let lookups: Vec<Option<renewal::SubscriberInfo>> = vec![None];
    let run = renewal::process_data(&enriched, &lookups, BASE, "ar", 10);

    assert_eq!(run.batches.len(), 0);
    assert_eq!(run.processed_keys, vec![String::from("t1")]);
}

#[test]
fn renewal_enable_request_contents() {
    let events = vec![renewal_doc("t1", "h1", "10")];
    let meta = vec![metadata("h1", "a@b.com")];
    let processed: Vec<String> = vec![];
    let groups = vec![group("t1", "g1"), group("t1", "g2")];

    let enriched = renewal::enrich(&events, &meta, &processed, &groups);
    let targets = renewal::lookup_targets(&enriched);
    assert!(targets.is_empty());

    let run = renewal::process_data(&enriched, &vec![], BASE, "ar", 10);
    assert_eq!(run.batches.len(), 1);
    let req = &run.batches[0][0];
    assert!(matches!(req.method, Method::Post));
    let expected = String::from("https://api.example.com/subscribers?email=a@b.com")
        + "&fields[name]=dom.stark&fields[renewer]=0xabc&groups[]=g1&groups[]=g2";
    assert_eq!(req.path, expected);
    assert!(req.body.is_none());
    assert_eq!(run.processed_keys, vec![String::from("t1")]);
}

#[test]
fn renewal_invalid_address_skipped_but_marked() {
    let events = vec![renewal_doc("t1", "h1", "0")];
    let meta = vec![metadata("h1", "not an address")];
    let processed: Vec<String> = vec![];
    let groups = vec![group("t1", "g1")];

    let enriched = renewal::enrich(&events, &meta, &processed, &groups);
    assert!(renewal::lookup_targets(&enriched).is_empty());
    let run = renewal::process_data(&enriched, &vec![], BASE, "ar", 10);
    assert_eq!(run.batches.len(), 0);
    assert_eq!(run.processed_keys, vec![String::from("t1")]);
}

#[test]
fn renewal_second_pass_enriches_nothing() {
    let events = vec![renewal_doc("t1", "h1", "10")];
    let meta = vec![metadata("h1", "a@b.com")];
    let processed: Vec<String> = vec![];
    let groups = vec![group("t1", "g1")];

    let enriched = renewal::enrich(&events, &meta, &processed, &groups);
    let run = renewal::process_data(&enriched, &vec![], BASE, "ar", 10);
    let again = renewal::enrich(&events, &meta, &run.processed_keys, &groups);
    assert!(again.is_empty());
}

#[test]
fn sale_request_expiry_out_of_range_reads_none() {
    let sale = sale_actions::processing::purchases::SaleDoc {
        tx_hash: String::from("t1"),
        meta_hash: String::from("h1"),
        domain: String::from("dom.stark"),
        price: 0,
        payer: String::from("0x1"),
        timestamp: 0,
        expiry: i64::MIN,
        metadata: vec![metadata("h1", "a@b.com")],
        same_tx_groups: vec![String::from("g1")],
    };
    let req = sale_actions::processing::purchases::create_sale_request(&sale, BASE);
    assert!(req.path.contains("&fields[expiry]=none&"));
}

#[test]
fn duplicate_group_labels_pass_through() {
    let events = vec![sale_doc("t1", "h1")];
    let meta = vec![metadata("h1", "a@b.com")];
    let processed: Vec<String> = vec![];
    let groups = vec![group("t1", "a"), group("t1", "a")];

    let enriched = purchases::enrich(&events, &meta, &processed, &groups);
    assert_eq!(enriched[0].same_tx_groups, vec![String::from("a"), String::from("a")]);
}

#[test]
fn sale_request_percent_encodes_reserved_bytes() {
    let sale = sale_actions::processing::purchases::SaleDoc {
        tx_hash: String::from("t1"),
        meta_hash: String::from("h1"),
        domain: String::from("dom stark"),
        price: 0,
        payer: String::from("0x1"),
        timestamp: 0,
        expiry: 0,
        metadata: vec![metadata("h1", "a b@c:d")],
        same_tx_groups: vec![String::from("g1")],
    };
    let req = sale_actions::processing::purchases::create_sale_request(&sale, BASE);
    assert!(req.path.contains("email=a%20b%40c%3Ad"));
    assert!(req.path.contains("fields[name]=dom%20stark"));
}
