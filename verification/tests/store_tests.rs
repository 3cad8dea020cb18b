use esm_checker::store::plan_run;
use esm_checker::store::Snapshot;
use esm_checker::Package;

fn pkg(name: &str, type_module: bool, exports_require: bool, exports_no_require: bool) -> Package {
    Package { name: String::from(name), exports_require, exports_no_require, type_module }
}

#[test]
fn first_run_inserts_everything_second_run_is_a_no_op() {
    let records = vec![pkg("a", true, false, false), pkg("b", false, true, false)];
    let date = String::from("2024-05-01");

    let mut snap = Snapshot::new();
    let first = plan_run(&snap, &records, &date);
    assert_eq!(first.inserts.len(), 2);
    assert_eq!(first.updates.len(), 0);
    assert_eq!(first.audits.len(), 0);

    snap.apply_run(&records);

    // Re-running persistence with identical records: nothing to insert,
    // nothing to rewrite, zero new audit entries.
    let second = plan_run(&snap, &records, &date);
    assert_eq!(second.inserts.len(), 0);
    assert_eq!(second.updates.len(), 0);
    assert_eq!(second.audits.len(), 0);

    // And writing them again leaves the stored state identical.
    let before: Vec<(String, bool, bool, bool)> = snap
        .records
        .iter()
        .map(|p| (p.name.clone(), p.type_module, p.exports_require, p.exports_no_require))
        .collect();
    snap.apply_run(&records);
    let after: Vec<(String, bool, bool, bool)> = snap
        .records
        .iter()
        .map(|p| (p.name.clone(), p.type_module, p.exports_require, p.exports_no_require))
        .collect();
    assert_eq!(before, after);
}

#[test]
fn changed_record_is_updated_and_audited() {
    let mut snap = Snapshot::new();
    let initial = vec![pkg("a", false, false, false)];
    snap.apply_run(&initial);

    let rerun = vec![pkg("a", true, false, true)];
    let plan = plan_run(&snap, &rerun, &String::from("2024-06-01"));

    assert_eq!(plan.inserts.len(), 0);
    assert_eq!(plan.updates.len(), 1);
    assert_eq!(plan.updates[0].name, "a");
    assert_eq!(plan.audits.len(), 2);
    assert_eq!(plan.audits[0].change, "type_module");
    assert_eq!(plan.audits[1].change, "exports_no_require");
    assert_eq!(plan.audits[0].timestamp, "2024-06-01");
}

#[test]
fn unknown_names_insert_and_known_unchanged_names_do_nothing() {
    let mut snap = Snapshot::new();
    snap.apply_run(&vec![pkg("a", true, false, false)]);

    let records = vec![pkg("a", true, false, false), pkg("b", false, false, true)];
    let plan = plan_run(&snap, &records, &String::from("2024-06-02"));

    assert_eq!(plan.inserts.len(), 1);
    assert_eq!(plan.inserts[0].name, "b");
    assert_eq!(plan.updates.len(), 0);
    assert_eq!(plan.audits.len(), 0);
}

#[test]
fn executing_the_plan_matches_writing_every_record() {
    let base = vec![pkg("a", true, false, false), pkg("b", false, false, false)];
    let records = vec![
        pkg("a", true, false, false),  // unchanged: the plan skips it
        pkg("b", false, true, false),  // changed: the plan rewrites it
        pkg("c", false, false, true),  // new: the plan inserts it
    ];

    let mut full_write = Snapshot::new();
    full_write.apply_run(&base);
    let mut plan_write = Snapshot::new();
    plan_write.apply_run(&base);

    let plan = plan_run(&plan_write, &records, &String::from("2024-07-01"));
    assert_eq!(plan.inserts.len(), 1);
    assert_eq!(plan.updates.len(), 1);
    for p in plan.inserts {
        plan_write.upsert(p);
    }
    for p in plan.updates {
        plan_write.upsert(p);
    }

    full_write.apply_run(&records);

    let mut a: Vec<(String, bool, bool, bool)> = full_write
        .records
        .iter()
        .map(|p| (p.name.clone(), p.type_module, p.exports_require, p.exports_no_require))
        .collect();
    let mut b: Vec<(String, bool, bool, bool)> = plan_write
        .records
        .iter()
        .map(|p| (p.name.clone(), p.type_module, p.exports_require, p.exports_no_require))
        .collect();
    a.sort();
    b.sort();
    assert_eq!(a, b);
}

#[test]
fn get_returns_the_stored_record() {
    let mut snap = Snapshot::new();
    snap.apply_run(&vec![pkg("a", true, false, false)]);

    let found = snap.get(&String::from("a")).expect("record should be stored");
    assert!(found.type_module);
    assert!(snap.get(&String::from("missing")).is_none());
}

#[test]
fn upsert_overwrites_wholesale() {
    let mut snap = Snapshot::new();
    snap.upsert(pkg("a", false, true, false));
    snap.upsert(pkg("a", true, false, false));
    assert_eq!(snap.records.len(), 1);
    let p = snap.get(&String::from("a")).unwrap();
    assert!(p.type_module);
    assert!(!p.exports_require);
}
