use esm_checker::aggregate::aggregate;
use esm_checker::pipeline::process_responses;
use esm_checker::pipeline::RunAccumulator;

fn doc(name: &str) -> Option<String> {
    Some(format!("{{\"name\":\"{}\",\"type\":\"module\"}}", name))
}

#[test]
fn total_equals_records_that_passed_extraction() {
    let responses = vec![
        doc("a"),
        Some(String::from("{broken")),
        doc("b"),
        Some(String::from("{\"type\":\"module\"}")),
        None,
        doc("c"),
    ];
    let out = process_responses(&responses);
    assert_eq!(out.records.len(), 3);
    assert_eq!(out.fetch_failures, 1);
    assert_eq!(out.parse_failures, 1);
    assert_eq!(out.schema_failures, 1);

    let counts = aggregate(&out.records);
    assert_eq!(counts.total, out.records.len());
}

#[test]
fn one_malformed_response_costs_exactly_one_record() {
    let good = vec![doc("a"), doc("b"), doc("c"), doc("d")];
    let mut one_bad = good.clone();
    one_bad[2] = Some(String::from("not json"));

    let good_out = process_responses(&good);
    let bad_out = process_responses(&one_bad);

    assert_eq!(good_out.records.len(), 4);
    assert_eq!(bad_out.records.len(), 3);

    // The other three results are untouched, value for value.
    assert_eq!(bad_out.records[0].name, "a");
    assert_eq!(bad_out.records[1].name, "b");
    assert_eq!(bad_out.records[2].name, "d");
    for r in &bad_out.records {
        assert!(r.type_module);
        assert!(!r.exports_require);
        assert!(!r.exports_no_require);
    }
}

#[test]
fn incremental_accumulation_matches_batch_processing() {
    let outcomes = vec![
        doc("a"),
        None,
        Some(String::from("{oops")),
        doc("b"),
        Some(String::from("{\"no\":\"name\"}")),
    ];

    let mut acc = RunAccumulator::new();
    for o in &outcomes {
        acc.accept(o);
    }
    let batch = process_responses(&outcomes);

    assert_eq!(acc.records.len(), batch.records.len());
    assert_eq!(acc.fetch_failures, batch.fetch_failures);
    assert_eq!(acc.parse_failures, batch.parse_failures);
    assert_eq!(acc.schema_failures, batch.schema_failures);
    assert_eq!(acc.records[0].name, "a");
    assert_eq!(acc.records[1].name, "b");
    assert_eq!(acc.fetch_failures, 1);
    assert_eq!(acc.parse_failures, 1);
    assert_eq!(acc.schema_failures, 1);
}

#[test]
fn every_response_is_a_record_or_a_counted_skip() {
    let responses = vec![None, doc("x"), Some(String::from("[1,2]")), None];
    let out = process_responses(&responses);
    assert_eq!(
        out.records.len() + out.fetch_failures + out.parse_failures + out.schema_failures,
        responses.len()
    );
    // An array parses but has no name field: a schema skip, not a parse one.
    assert_eq!(out.parse_failures, 0);
    assert_eq!(out.schema_failures, 1);
    assert_eq!(out.fetch_failures, 2);
}
