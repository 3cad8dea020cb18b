//! Verified core of a package-metadata audit pipeline.
//!
//! Remote metadata documents are fetched under a bounded concurrency window,
//! a fixed set of boolean attributes is extracted from each document, the
//! attributes are aggregated into summary counts, and each record is compared
//! against a previously persisted snapshot to produce an auditable change log.
use vstd::prelude::*;

pub mod aggregate;
pub mod diff;
pub mod extract;
pub mod fetcher;
pub mod pipeline;
pub mod stats;
pub mod store;
pub mod versions;

verus! {

/// Per-package snapshot of the three derived boolean attributes.
///
/// Invariant (`wf`): `exports_require` and `exports_no_require` are never
/// both true; both are false exactly when the source document had no
/// `exports` field.
#[derive(Debug, Default)]
pub struct Package {
    pub name: String,
    pub exports_require: bool,
    pub exports_no_require: bool,
    pub type_module: bool,
}

/// Mathematical image of a [`Package`].
pub struct PackageView {
    pub name: Seq<char>,
    pub exports_require: bool,
    pub exports_no_require: bool,
    pub type_module: bool,
}

impl View for Package {
    type V = PackageView;

    open spec fn view(&self) -> PackageView {
        PackageView {
            name: self.name@,
            exports_require: self.exports_require,
            exports_no_require: self.exports_no_require,
            type_module: self.type_module,
        }
    }
}

impl PackageView {
    /// The record-level invariant: the two exports attributes exclude
    /// each other.
    pub open spec fn wf(self) -> bool {
        !(self.exports_require && self.exports_no_require)
    }

    /// True when the two records agree on all three derived attributes.
    pub open spec fn same_attributes(self, other: PackageView) -> bool {
        &&& self.type_module == other.type_module
        &&& self.exports_require == other.exports_require
        &&& self.exports_no_require == other.exports_no_require
    }
}

impl Clone for Package {
    fn clone(&self) -> (res: Self)
        ensures
            res@ == self@,
    {
        Package {
            name: self.name.clone(),
            exports_require: self.exports_require,
            exports_no_require: self.exports_no_require,
            type_module: self.type_module,
        }
    }
}

/// The views of a sequence of package records.
pub open spec fn packages_view(s: Seq<Package>) -> Seq<PackageView> {
    s.map_values(|p: Package| p@)
}

impl Package {
    /// True when at least one of the three derived attributes is set.
    pub fn has_values(&self) -> (r: bool)
        ensures
            r == (self.exports_no_require || self.exports_require || self.type_module),
    {
        self.exports_no_require || self.exports_require || self.type_module
    }
}

/// One recorded attribute change for one package on one run.
///
/// Entries are append-only; the persistence layer keys them by the package
/// name plus a generated unique suffix.
pub struct AuditEntry {
    pub package_name: String,
    pub timestamp: String,
    pub change: String,
    pub old_value: bool,
    pub new_value: bool,
}

/// Mathematical image of an [`AuditEntry`].
pub struct AuditEntryView {
    pub package_name: Seq<char>,
    pub timestamp: Seq<char>,
    pub change: Seq<char>,
    pub old_value: bool,
    pub new_value: bool,
}

impl View for AuditEntry {
    type V = AuditEntryView;

    open spec fn view(&self) -> AuditEntryView {
        AuditEntryView {
            package_name: self.package_name@,
            timestamp: self.timestamp@,
            change: self.change@,
            old_value: self.old_value,
            new_value: self.new_value,
        }
    }
}

} // verus!
