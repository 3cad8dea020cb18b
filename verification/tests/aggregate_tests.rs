use esm_checker::aggregate::aggregate;
use esm_checker::aggregate::count_has_values;
use esm_checker::Package;

fn pkg(name: &str, type_module: bool, exports_require: bool, exports_no_require: bool) -> Package {
    Package { name: String::from(name), exports_require, exports_no_require, type_module }
}

#[test]
fn counts_are_exact_and_empty_records_still_count_toward_total() {
    let records = vec![
        pkg("a", true, false, false),
        pkg("b", false, true, false),
        pkg("c", false, false, true),
        pkg("d", false, false, false),
        pkg("e", true, false, true),
    ];
    let c = aggregate(&records);
    assert_eq!(c.total, 5);
    assert_eq!(c.type_module, 2);
    assert_eq!(c.exports_require, 1);
    assert_eq!(c.exports_no_require, 2);
    assert_eq!(count_has_values(&records), 4);
}

#[test]
fn counts_do_not_depend_on_record_order() {
    let forward = vec![
        pkg("a", true, false, false),
        pkg("b", false, true, false),
        pkg("c", false, false, false),
    ];
    let backward = vec![
        pkg("c", false, false, false),
        pkg("b", false, true, false),
        pkg("a", true, false, false),
    ];
    let cf = aggregate(&forward);
    let cb = aggregate(&backward);
    assert_eq!(cf.total, cb.total);
    assert_eq!(cf.type_module, cb.type_module);
    assert_eq!(cf.exports_require, cb.exports_require);
    assert_eq!(cf.exports_no_require, cb.exports_no_require);
}

#[test]
fn empty_run_aggregates_to_zero() {
    let records: Vec<Package> = Vec::new();
    let c = aggregate(&records);
    assert_eq!(c.total, 0);
    assert_eq!(c.type_module, 0);
    assert_eq!(c.exports_require, 0);
    assert_eq!(c.exports_no_require, 0);
}

#[test]
fn has_values_is_true_exactly_when_any_attribute_is_set() {
    assert!(pkg("a", true, false, false).has_values());
    assert!(pkg("a", false, true, false).has_values());
    assert!(pkg("a", false, false, true).has_values());
    assert!(!pkg("a", false, false, false).has_values());
}
