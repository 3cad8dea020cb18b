//! Diff engine: compares a package's previous record against its freshly
//! extracted record and produces the audit entries for every changed
//! attribute, in the fixed order `type_module`, `exports_require`,
//! `exports_no_require`.
use vstd::prelude::*;

verus! {

use crate::AuditEntry;
use crate::AuditEntryView;
use crate::Package;
use crate::PackageView;

/// The views of a sequence of audit entries.
pub open spec fn audits_view(s: Seq<AuditEntry>) -> Seq<AuditEntryView> {
    s.map_values(|a: AuditEntry| a@)
}

/// One audit entry recording that `change` flipped from `old_value` to
/// `new_value` for the package `name` at time `t`.
pub open spec fn audit_for(
    name: Seq<char>,
    t: Seq<char>,
    change: Seq<char>,
    old_value: bool,
    new_value: bool,
) -> AuditEntryView {
    AuditEntryView { package_name: name, timestamp: t, change: change, old_value, new_value }
}

/// The exact audit log that a diff of `o` against `n` at time `t` must
/// produce: one entry per differing attribute, in the fixed order
/// `type_module`, `exports_require`, `exports_no_require`, all sharing the
/// timestamp `t`.
pub open spec fn diff_spec(o: PackageView, n: PackageView, t: Seq<char>) -> Seq<AuditEntryView> {
    let tm = if o.type_module != n.type_module {
        seq![audit_for(n.name, t, "type_module"@, o.type_module, n.type_module)]
    } else {
        Seq::<AuditEntryView>::empty()
    };
    let er = if o.exports_require != n.exports_require {
        seq![audit_for(n.name, t, "exports_require"@, o.exports_require, n.exports_require)]
    } else {
        Seq::<AuditEntryView>::empty()
    };
    let enr = if o.exports_no_require != n.exports_no_require {
        seq![audit_for(n.name, t, "exports_no_require"@, o.exports_no_require, n.exports_no_require)]
    } else {
        Seq::<AuditEntryView>::empty()
    };
    tm + er + enr
}

/// Compare the previously stored record `old_pkg` against the freshly
/// extracted record `pkg` and return whether the stored record must be
/// rewritten, together with one audit entry per changed attribute.
pub fn diff_packages(old_pkg: &Package, pkg: &Package, date: &String) -> (r: (bool, Vec<AuditEntry>))
    ensures
        audits_view(r.1@) == diff_spec(old_pkg@, pkg@, date@),
        r.0 == !old_pkg@.same_attributes(pkg@),
        r.0 == (diff_spec(old_pkg@, pkg@, date@).len() > 0),
{
    let mut should_update = false;
    let mut audits: Vec<AuditEntry> = Vec::new();

    if old_pkg.type_module != pkg.type_module {
        should_update = true;
        audits.push(AuditEntry {
            package_name: pkg.name.clone(),
            timestamp: date.clone(),
            change: "type_module".to_owned(),
            old_value: old_pkg.type_module,
            new_value: pkg.type_module,
        });
    }
    if old_pkg.exports_require != pkg.exports_require {
        should_update = true;
        audits.push(AuditEntry {
            package_name: pkg.name.clone(),
            timestamp: date.clone(),
            change: "exports_require".to_owned(),
            old_value: old_pkg.exports_require,
            new_value: pkg.exports_require,
        });
    }
    if old_pkg.exports_no_require != pkg.exports_no_require {
        should_update = true;
        audits.push(AuditEntry {
            package_name: pkg.name.clone(),
            timestamp: date.clone(),
            change: "exports_no_require".to_owned(),
            old_value: old_pkg.exports_no_require,
            new_value: pkg.exports_no_require,
        });
    }
    assert(audits_view(audits@) =~= diff_spec(old_pkg@, pkg@, date@));
    (should_update, audits)
}

/// Law: diffing a record against itself is a no-op — no audit entries and
/// no update, whatever the record and the timestamp.
pub proof fn lemma_diff_no_op(r: PackageView, t: Seq<char>)
    ensures
        diff_spec(r, r, t) == Seq::<AuditEntryView>::empty(),
        diff_spec(r, r, t).len() == 0,
{
    assert(diff_spec(r, r, t) =~= Seq::<AuditEntryView>::empty());
}

} // verus!
