use esm_checker::diff::diff_packages;
use esm_checker::Package;

#[test]
fn test_update_type_module() {
    let old_pkg = Package {
        name: String::from("test-package"),
        exports_no_require: false,
        exports_require: false,
        type_module: false,
    };
    let new_pkg = Package {
        name: String::from("test-package"),
        exports_no_require: false,
        exports_require: false,
        type_module: true,
    };

    let result = diff_packages(&old_pkg, &new_pkg, &String::from("2022-01-01"));

    assert_eq!(result.0, true);
    assert_eq!(result.1.len(), 1);
    assert_eq!(result.1[0].change, String::from("type_module"));
}

#[test]
fn test_multiple() {
    let old_pkg = Package {
        name: String::from("test-package"),
        exports_no_require: false,
        exports_require: false,
        type_module: false,
    };
    let new_pkg = Package {
        name: String::from("test-package"),
        exports_no_require: false,
        exports_require: true,
        type_module: true,
    };

    let result = diff_packages(&old_pkg, &new_pkg, &String::from("2022-01-01"));

    assert_eq!(result.0, true);
    assert_eq!(result.1.len(), 2);
}

#[test]
fn test_no_change() {
    let old_pkg = Package {
        name: String::from("test-package"),
        exports_no_require: false,
        exports_require: false,
        type_module: false,
    };
    let new_pkg = Package {
        name: String::from("test-package"),
        exports_no_require: false,
        exports_require: false,
        type_module: false,
    };

    let result = diff_packages(&old_pkg, &new_pkg, &String::from("2022-01-01"));

    assert_eq!(result.0, false);
    assert_eq!(result.1.len(), 0);
}

#[test]
fn single_attribute_change_entry_is_exact() {
    let old_pkg = Package {
        name: String::from("pkg"),
        exports_no_require: false,
        exports_require: false,
        type_module: false,
    };
    let new_pkg = Package {
        name: String::from("pkg"),
        exports_no_require: false,
        exports_require: false,
        type_module: true,
    };

    let (should_update, audits) = diff_packages(&old_pkg, &new_pkg, &String::from("2024-05-01"));

    assert!(should_update);
    assert_eq!(audits.len(), 1);
    assert_eq!(audits[0].package_name, "pkg");
    assert_eq!(audits[0].timestamp, "2024-05-01");
    assert_eq!(audits[0].change, "type_module");
    assert_eq!(audits[0].old_value, false);
    assert_eq!(audits[0].new_value, true);
}

#[test]
fn multi_attribute_change_keeps_fixed_order() {
    let old_pkg = Package {
        name: String::from("pkg"),
        exports_no_require: false,
        exports_require: false,
        type_module: false,
    };
    let new_pkg = Package {
        name: String::from("pkg"),
        exports_no_require: true,
        exports_require: false,
        type_module: true,
    };

    let (should_update, audits) = diff_packages(&old_pkg, &new_pkg, &String::from("2024-05-01"));

    assert!(should_update);
    assert_eq!(audits.len(), 2);
    assert_eq!(audits[0].change, "type_module");
    assert_eq!(audits[1].change, "exports_no_require");
    assert_eq!(audits[0].timestamp, audits[1].timestamp);
    assert_eq!(audits[1].old_value, false);
    assert_eq!(audits[1].new_value, true);
}

#[test]
fn exports_require_change_is_reported() {
    let old_pkg = Package {
        name: String::from("pkg"),
        exports_no_require: true,
        exports_require: false,
        type_module: false,
    };
    let new_pkg = Package {
        name: String::from("pkg"),
        exports_no_require: false,
        exports_require: true,
        type_module: false,
    };

    let (should_update, audits) = diff_packages(&old_pkg, &new_pkg, &String::from("2024-05-02"));

    assert!(should_update);
    assert_eq!(audits.len(), 2);
    assert_eq!(audits[0].change, "exports_require");
    assert_eq!(audits[0].old_value, false);
    assert_eq!(audits[0].new_value, true);
    assert_eq!(audits[1].change, "exports_no_require");
    assert_eq!(audits[1].old_value, true);
    assert_eq!(audits[1].new_value, false);
}
