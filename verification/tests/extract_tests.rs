use esm_checker::extract::extract;
use esm_checker::extract::extract_from_doc;
use esm_checker::extract::ExtractError;
use esm_checker::extract::ExtractedDoc;

#[test]
fn module_type_without_exports_sets_only_type_module() {
    let raw = "{\"name\":\"left-pad\",\"type\":\"module\"}";
    let p = extract(raw).unwrap();
    assert_eq!(p.name, "left-pad");
    assert!(p.type_module);
    assert!(!p.exports_require);
    assert!(!p.exports_no_require);
}

#[test]
fn exports_with_require_key_sets_exports_require() {
    let raw = "{\"name\":\"a\",\"exports\":{\"require\":\"./index.cjs\",\"import\":\"./index.mjs\"}}";
    let p = extract(raw).unwrap();
    assert!(p.exports_require);
    assert!(!p.exports_no_require);
    assert!(!p.type_module);
}

#[test]
fn exports_without_require_sets_exports_no_require() {
    let raw = "{\"name\":\"a\",\"exports\":{\"import\":\"./index.mjs\"}}";
    let p = extract(raw).unwrap();
    assert!(!p.exports_require);
    assert!(p.exports_no_require);
}

#[test]
fn exports_attributes_never_both_true() {
    let cases = vec![
        "{\"name\":\"a\"}",
        "{\"name\":\"a\",\"exports\":{\"require\":\"./x\"}}",
        "{\"name\":\"a\",\"exports\":{\"import\":\"./x\"}}",
        "{\"name\":\"a\",\"exports\":\"./plain.js\"}",
    ];
    for raw in cases {
        let p = extract(raw).unwrap();
        assert!(!(p.exports_require && p.exports_no_require));
    }
}

#[test]
fn missing_exports_leaves_both_attributes_false() {
    let raw = "{\"name\":\"a\",\"type\":\"commonjs\"}";
    let p = extract(raw).unwrap();
    assert!(!p.exports_require);
    assert!(!p.exports_no_require);
    assert!(!p.type_module);
}

#[test]
fn require_substring_heuristic_matches_incidental_names() {
    // The textual heuristic is intentionally substring-based: a field
    // literally named "requireSomething" counts as a match.
    let raw = "{\"name\":\"a\",\"exports\":{\"requireSomething\":\"./x\"}}";
    let p = extract(raw).unwrap();
    assert!(p.exports_require);
    assert!(!p.exports_no_require);
}

#[test]
fn malformed_document_is_a_parse_error_retaining_the_text() {
    let raw = "{not json at all";
    match extract(raw) {
        Err(ExtractError::Parse(kept)) => assert_eq!(kept, raw),
        _ => panic!("expected a parse error"),
    }
}

#[test]
fn document_without_name_is_a_schema_error() {
    let raw = "{\"type\":\"module\"}";
    assert!(matches!(extract(raw), Err(ExtractError::MissingName)));
}

#[test]
fn non_string_name_is_a_schema_error() {
    let raw = "{\"name\":5,\"type\":\"module\"}";
    assert!(matches!(extract(raw), Err(ExtractError::MissingName)));
}

#[test]
fn doc_attributes_follow_the_substring_heuristic_exactly() {
    let with_require = ExtractedDoc {
        name: Some(String::from("a")),
        package_type: Some(String::from("module")),
        exports_text: Some("{\"x\":\"require\"}".as_bytes().to_vec()),
    };
    let p = extract_from_doc(with_require).unwrap();
    assert!(p.type_module);
    assert!(p.exports_require);
    assert!(!p.exports_no_require);

    let without_require = ExtractedDoc {
        name: Some(String::from("a")),
        package_type: None,
        exports_text: Some("{\"x\":\"requir\"}".as_bytes().to_vec()),
    };
    let p = extract_from_doc(without_require).unwrap();
    assert!(!p.type_module);
    assert!(!p.exports_require);
    assert!(p.exports_no_require);

    let nameless = ExtractedDoc {
        name: None,
        package_type: Some(String::from("module")),
        exports_text: None,
    };
    assert!(matches!(extract_from_doc(nameless), Err(ExtractError::MissingName)));
}

#[test]
fn non_module_type_leaves_type_module_false() {
    let raw = "{\"name\":\"a\",\"type\":\"commonjs\"}";
    let p = extract(raw).unwrap();
    assert!(!p.type_module);
}
