//! Store adapter core: the in-memory image of the persisted package table,
//! the plan of persistence operations one run must perform, and the law
//! that re-running persistence with identical records is a no-op.
//!
//! The external table itself (get/put/update/append) is an outside
//! collaborator; everything it is asked to do is computed here, and every
//! operation is an idempotent overwrite keyed by the package name (audit
//! appends aside, which are keyed by a generated unique suffix).
use vstd::prelude::*;

verus! {

use crate::AuditEntry;
use crate::AuditEntryView;
use crate::Package;
use crate::PackageView;
use crate::packages_view;
use crate::diff::audits_view;
use crate::diff::diff_packages;
use crate::diff::diff_spec;

/// No two records carry the same name.
pub open spec fn names_unique(s: Seq<PackageView>) -> bool {
    forall|i: int, j: int| 0 <= i < j < s.len() ==> s[i].name != s[j].name
}

/// The mapping name → record that a list of records denotes; a later
/// record with the same name overwrites an earlier one.
pub open spec fn map_of_records(s: Seq<PackageView>) -> Map<Seq<char>, PackageView>
    decreases s.len(),
{
    if s.len() == 0 {
        Map::<Seq<char>, PackageView>::empty()
    } else {
        map_of_records(s.drop_last()).insert(s.last().name, s.last())
    }
}

/// The mapping after every record of `recs` has been written over `m`,
/// each an overwrite keyed by its name.
pub open spec fn upsert_all(
    m: Map<Seq<char>, PackageView>,
    recs: Seq<PackageView>,
) -> Map<Seq<char>, PackageView>
    decreases recs.len(),
{
    if recs.len() == 0 {
        m
    } else {
        upsert_all(m, recs.drop_last()).insert(recs.last().name, recs.last())
    }
}

proof fn lemma_map_of_records_contains(s: Seq<PackageView>, i: int)
    requires
        0 <= i < s.len(),
    ensures
        map_of_records(s).contains_key(s[i].name),
        names_unique(s) ==> map_of_records(s)[s[i].name] == s[i],
    decreases s.len(),
{
    if i == s.len() - 1 {
    } else {
        lemma_map_of_records_contains(s.drop_last(), i);
        assert(s.drop_last()[i] == s[i]);
        if names_unique(s) {
            assert(s[i].name != s[s.len() - 1].name);
        }
    }
}

proof fn lemma_map_of_records_absent(s: Seq<PackageView>, n: Seq<char>)
    requires
        forall|i: int| 0 <= i < s.len() ==> s[i].name != n,
    ensures
        !map_of_records(s).contains_key(n),
    decreases s.len(),
{
    if s.len() > 0 {
        lemma_map_of_records_absent(s.drop_last(), n);
    }
}

/// The in-memory image of the persisted package table: one record per
/// name. It mirrors what `get_all_records` returns before a run and what
/// the table holds after one.
pub struct Snapshot {
    pub records: Vec<Package>,
}

impl Snapshot {
    /// The records as views, in storage order.
    pub open spec fn recs(self) -> Seq<PackageView> {
        packages_view(self.records@)
    }

    /// Well-formed: no name occurs twice (the table is keyed by name).
    pub open spec fn wf(self) -> bool {
        names_unique(self.recs())
    }

    /// The mapping name → record the snapshot denotes.
    pub open spec fn as_map(self) -> Map<Seq<char>, PackageView> {
        map_of_records(self.recs())
    }

    /// The empty table.
    pub fn new() -> (s: Snapshot)
        ensures
            s.wf(),
            s.as_map() == Map::<Seq<char>, PackageView>::empty(),
    {
        let s = Snapshot { records: Vec::new() };
        proof {
            assert(s.recs() =~= Seq::<PackageView>::empty());
        }
        s
    }

    /// The table image built from the records read out of the store; the
    /// store is keyed by name, so the names are distinct.
    pub fn from_records(records: Vec<Package>) -> (s: Snapshot)
        requires
            names_unique(packages_view(records@)),
        ensures
            s.wf(),
            s.recs() == packages_view(records@),
    {
        Snapshot { records }
    }

    fn find_index(&self, name: &String) -> (r: Option<usize>)
        ensures
            match r {
                Some(j) => 0 <= j < self.recs().len() && self.recs()[j as int].name == name@,
                None => forall|k: int| 0 <= k < self.recs().len()
                    ==> (#[trigger] self.recs()[k]).name != name@,
            },
    {
        let n = self.records.len();
        let mut j: usize = 0;
        while j < n
            invariant
                n == self.records@.len(),
                0 <= j <= n,
                forall|k: int| 0 <= k < j ==> (#[trigger] self.recs()[k]).name != name@,
            decreases n - j,
        {
            if self.records[j].name == *name {
                return Some(j);
            }
            j += 1;
        }
        None
    }

    /// Look one name up, as the diff step does before deciding between
    /// insert and update.
    pub fn get(&self, name: &String) -> (r: Option<&Package>)
        requires
            self.wf(),
        ensures
            match r {
                Some(p) => self.as_map().contains_key(name@) && p@ == self.as_map()[name@],
                None => !self.as_map().contains_key(name@),
            },
    {
        match self.find_index(name) {
            Some(j) => {
                proof {
                    lemma_map_of_records_contains(self.recs(), j as int);
                }
                Some(&self.records[j])
            },
            None => {
                proof {
                    lemma_map_of_records_absent(self.recs(), name@);
                }
                None
            },
        }
    }

    /// Write every record of one run into the table image, each an
    /// idempotent overwrite keyed by its name — the store-side effect of
    /// executing a run's plan.
    pub fn apply_run(&mut self, records: &Vec<Package>)
        requires
            old(self).wf(),
        ensures
            final(self).wf(),
            final(self).as_map() == upsert_all(old(self).as_map(), packages_view(records@)),
    {
        let rv = Ghost(packages_view(records@));
        let n = records.len();
        let mut i: usize = 0;
        while i < n
            invariant
                n == records@.len(),
                rv@ == packages_view(records@),
                0 <= i <= n,
                self.wf(),
                self.as_map() == upsert_all(old(self).as_map(), rv@.take(i as int)),
            decreases n - i,
        {
            proof {
                assert(rv@.take(i + 1).drop_last() =~= rv@.take(i as int));
                assert(rv@.take(i + 1).last() == rv@[i as int]);
            }
            let rec = records[i].clone();
            self.upsert(rec);
            i += 1;
        }
        proof {
            assert(rv@.take(n as int) =~= rv@);
        }
    }

    /// Overwrite-or-insert one record, keyed by its name.
    pub fn upsert(&mut self, rec: Package)
        requires
            old(self).wf(),
        ensures
            final(self).wf(),
            final(self).as_map() == old(self).as_map().insert(rec@.name, rec@),
    {
        let ghost old_recs = self.recs();
        match self.find_index(&rec.name) {
            Some(j) => {
                self.records.set(j, rec);
                proof {
                    let new_recs = self.recs();
                    assert(new_recs =~= old_recs.update(j as int, rec@));
                    lemma_update_keeps_unique_and_map(old_recs, j as int, rec@);
                }
            },
            None => {
                self.records.push(rec);
                proof {
                    assert(self.recs() =~= old_recs.push(rec@));
                    assert(self.recs().drop_last() =~= old_recs);
                    assert forall|i: int, j: int| 0 <= i < j < self.recs().len() implies self.recs()[i].name
                        != self.recs()[j].name by {
                        if j < self.recs().len() - 1 {
                            assert(old_recs[i].name != old_recs[j].name);
                        } else {
                            assert(old_recs[i].name != rec@.name);
                        }
                    }
                }
            },
        }
    }
}

proof fn lemma_update_keeps_unique_and_map(s: Seq<PackageView>, j: int, r: PackageView)
    requires
        names_unique(s),
        0 <= j < s.len(),
        s[j].name == r.name,
    ensures
        names_unique(s.update(j, r)),
        map_of_records(s.update(j, r)) == map_of_records(s).insert(r.name, r),
    decreases s.len(),
{
    let su = s.update(j, r);
    assert forall|a: int, b: int| 0 <= a < b < su.len() implies su[a].name != su[b].name by {
        assert(s[a].name != s[b].name);
    }
    if j == s.len() - 1 {
        assert(su.drop_last() =~= s.drop_last());
        assert(su.last() == r);
        assert(map_of_records(s).insert(r.name, r) =~= map_of_records(s.drop_last()).insert(
            s.last().name,
            s.last(),
        ).insert(r.name, r));
        assert(map_of_records(su) =~= map_of_records(s).insert(r.name, r));
    } else {
        assert(su.drop_last() =~= s.drop_last().update(j, r));
        assert(su.last() == s.last());
        lemma_update_keeps_unique_and_map(s.drop_last(), j, r);
        assert(map_of_records(su) =~= map_of_records(s).insert(r.name, r));
    }
}

/// What one run asks the store to do: insert the brand-new records, rewrite
/// the changed ones, and append one audit entry per changed attribute.
pub struct RunPlan {
    pub inserts: Vec<Package>,
    pub updates: Vec<Package>,
    pub audits: Vec<AuditEntry>,
}

/// Mathematical image of a [`RunPlan`].
pub struct RunPlanView {
    pub inserts: Seq<PackageView>,
    pub updates: Seq<PackageView>,
    pub audits: Seq<AuditEntryView>,
}

impl View for RunPlan {
    type V = RunPlanView;

    open spec fn view(&self) -> RunPlanView {
        RunPlanView {
            inserts: packages_view(self.inserts@),
            updates: packages_view(self.updates@),
            audits: audits_view(self.audits@),
        }
    }
}

/// The exact plan a run over `recs` must produce against the stored
/// mapping `m` at time `t`: a record whose name is unknown is inserted; a
/// known one is diffed, and rewritten exactly when some attribute changed,
/// with the diff's audit entries appended in record order.
pub open spec fn plan_spec(
    m: Map<Seq<char>, PackageView>,
    recs: Seq<PackageView>,
    t: Seq<char>,
) -> RunPlanView
    decreases recs.len(),
{
    if recs.len() == 0 {
        RunPlanView {
            inserts: Seq::<PackageView>::empty(),
            updates: Seq::<PackageView>::empty(),
            audits: Seq::<AuditEntryView>::empty(),
        }
    } else {
        let p = plan_spec(m, recs.drop_last(), t);
        let r = recs.last();
        if m.contains_key(r.name) {
            let a = diff_spec(m[r.name], r, t);
            RunPlanView {
                inserts: p.inserts,
                updates: if a.len() > 0 {
                    p.updates.push(r)
                } else {
                    p.updates
                },
                audits: p.audits + a,
            }
        } else {
            RunPlanView { inserts: p.inserts.push(r), updates: p.updates, audits: p.audits }
        }
    }
}

/// Diff every extracted record of one run against the stored snapshot and
/// return exactly the plan that [`plan_spec`] prescribes.
pub fn plan_run(prev: &Snapshot, records: &Vec<Package>, date: &String) -> (plan: RunPlan)
    requires
        prev.wf(),
    ensures
        plan@ == plan_spec(prev.as_map(), packages_view(records@), date@),
{
    let rv = Ghost(packages_view(records@));
    let n = records.len();
    let mut inserts: Vec<Package> = Vec::new();
    let mut updates: Vec<Package> = Vec::new();
    let mut audits: Vec<AuditEntry> = Vec::new();
    let mut i: usize = 0;
    while i < n
        invariant
            n == records@.len(),
            rv@ == packages_view(records@),
            0 <= i <= n,
            prev.wf(),
            packages_view(inserts@) == plan_spec(prev.as_map(), rv@.take(i as int), date@).inserts,
            packages_view(updates@) == plan_spec(prev.as_map(), rv@.take(i as int), date@).updates,
            audits_view(audits@) == plan_spec(prev.as_map(), rv@.take(i as int), date@).audits,
        decreases n - i,
    {
        proof {
            assert(rv@.take(i + 1).drop_last() =~= rv@.take(i as int));
            assert(rv@.take(i + 1).last() == rv@[i as int]);
        }
        let rec = &records[i];
        match prev.get(&rec.name) {
            None => {
                inserts.push(rec.clone());
                proof {
                    assert(packages_view(inserts@) =~= plan_spec(
                        prev.as_map(),
                        rv@.take(i + 1),
                        date@,
                    ).inserts);
                }
            },
            Some(old_pkg) => {
                let (should_update, mut local_audits) = diff_packages(old_pkg, rec, date);
                audits.append(&mut local_audits);
                proof {
                    assert(audits_view(audits@) =~= plan_spec(
                        prev.as_map(),
                        rv@.take(i + 1),
                        date@,
                    ).audits);
                }
                if should_update {
                    updates.push(rec.clone());
                    proof {
                        assert(packages_view(updates@) =~= plan_spec(
                            prev.as_map(),
                            rv@.take(i + 1),
                            date@,
                        ).updates);
                    }
                }
            },
        }
        i += 1;
    }
    proof {
        assert(rv@.take(n as int) =~= rv@);
    }
    RunPlan { inserts, updates, audits }
}

proof fn lemma_upsert_all_stores(m: Map<Seq<char>, PackageView>, recs: Seq<PackageView>)
    requires
        names_unique(recs),
    ensures
        forall|i: int| 0 <= i < recs.len() ==> {
            &&& upsert_all(m, recs).contains_key((#[trigger] recs[i]).name)
            &&& upsert_all(m, recs)[recs[i].name] == recs[i]
        },
    decreases recs.len(),
{
    if recs.len() > 0 {
        lemma_upsert_all_stores(m, recs.drop_last());
        assert forall|i: int| 0 <= i < recs.len() implies {
            &&& upsert_all(m, recs).contains_key((#[trigger] recs[i]).name)
            &&& upsert_all(m, recs)[recs[i].name] == recs[i]
        } by {
            if i < recs.len() - 1 {
                assert(recs.drop_last()[i] == recs[i]);
                assert(recs[i].name != recs[recs.len() - 1].name);
            }
        }
    }
}

proof fn lemma_plan_of_stored_is_empty(
    m: Map<Seq<char>, PackageView>,
    recs: Seq<PackageView>,
    t: Seq<char>,
)
    requires
        forall|i: int| 0 <= i < recs.len() ==> {
            &&& m.contains_key((#[trigger] recs[i]).name)
            &&& m[recs[i].name] == recs[i]
        },
    ensures
        plan_spec(m, recs, t).inserts.len() == 0,
        plan_spec(m, recs, t).updates.len() == 0,
        plan_spec(m, recs, t).audits.len() == 0,
    decreases recs.len(),
{
    if recs.len() > 0 {
        assert(forall|i: int| 0 <= i < recs.drop_last().len()
            ==> recs.drop_last()[i] == recs[i]);
        lemma_plan_of_stored_is_empty(m, recs.drop_last(), t);
        let r = recs.last();
        assert(m[r.name] == r);
        crate::diff::lemma_diff_no_op(r, t);
    }
}

proof fn lemma_upsert_all_of_stored_is_same(
    m: Map<Seq<char>, PackageView>,
    recs: Seq<PackageView>,
)
    requires
        forall|i: int| 0 <= i < recs.len() ==> {
            &&& m.contains_key((#[trigger] recs[i]).name)
            &&& m[recs[i].name] == recs[i]
        },
    ensures
        upsert_all(m, recs) == m,
    decreases recs.len(),
{
    if recs.len() > 0 {
        assert(forall|i: int| 0 <= i < recs.drop_last().len()
            ==> recs.drop_last()[i] == recs[i]);
        lemma_upsert_all_of_stored_is_same(m, recs.drop_last());
        let r = recs.last();
        assert(m.insert(r.name, r) =~= m);
    }
}

/// Every stored value sits under its own name — true of every snapshot's
/// mapping, and preserved by writes.
pub open spec fn keyed_by_name(m: Map<Seq<char>, PackageView>) -> bool {
    forall|k: Seq<char>| m.contains_key(k) ==> (#[trigger] m[k]).name == k
}

/// The mapping a list of records denotes keys every value by its name.
pub proof fn lemma_map_of_records_keyed(s: Seq<PackageView>)
    ensures
        keyed_by_name(map_of_records(s)),
    decreases s.len(),
{
    if s.len() > 0 {
        lemma_map_of_records_keyed(s.drop_last());
    }
}

/// Writing records keeps every value keyed by its name.
pub proof fn lemma_upsert_all_keyed(m: Map<Seq<char>, PackageView>, recs: Seq<PackageView>)
    requires
        keyed_by_name(m),
    ensures
        keyed_by_name(upsert_all(m, recs)),
    decreases recs.len(),
{
    if recs.len() > 0 {
        lemma_upsert_all_keyed(m, recs.drop_last());
    }
}

proof fn lemma_upsert_all_frame(m: Map<Seq<char>, PackageView>, recs: Seq<PackageView>, k: Seq<char>)
    requires
        forall|i: int| 0 <= i < recs.len() ==> (#[trigger] recs[i]).name != k,
    ensures
        upsert_all(m, recs).contains_key(k) == m.contains_key(k),
        m.contains_key(k) ==> upsert_all(m, recs)[k] == m[k],
    decreases recs.len(),
{
    if recs.len() > 0 {
        assert(forall|i: int| 0 <= i < recs.drop_last().len()
            ==> recs.drop_last()[i] == recs[i]);
        lemma_upsert_all_frame(m, recs.drop_last(), k);
    }
}

proof fn lemma_upsert_all_insert_commutes(
    m: Map<Seq<char>, PackageView>,
    recs: Seq<PackageView>,
    k: Seq<char>,
    v: PackageView,
)
    requires
        forall|i: int| 0 <= i < recs.len() ==> (#[trigger] recs[i]).name != k,
    ensures
        upsert_all(m.insert(k, v), recs) == upsert_all(m, recs).insert(k, v),
    decreases recs.len(),
{
    if recs.len() == 0 {
    } else {
        assert(forall|i: int| 0 <= i < recs.drop_last().len()
            ==> recs.drop_last()[i] == recs[i]);
        lemma_upsert_all_insert_commutes(m, recs.drop_last(), k, v);
        let r = recs.last();
        assert(upsert_all(m, recs.drop_last()).insert(k, v).insert(r.name, r) =~= upsert_all(
            m,
            recs.drop_last(),
        ).insert(r.name, r).insert(k, v));
    }
}

proof fn lemma_plan_names_come_from_records(
    m: Map<Seq<char>, PackageView>,
    recs: Seq<PackageView>,
    t: Seq<char>,
)
    ensures
        forall|j: int| 0 <= j < plan_spec(m, recs, t).inserts.len() ==> exists|i: int|
            0 <= i < recs.len() && (#[trigger] plan_spec(m, recs, t).inserts[j]).name
                == recs[i].name,
        forall|j: int| 0 <= j < plan_spec(m, recs, t).updates.len() ==> exists|i: int|
            0 <= i < recs.len() && (#[trigger] plan_spec(m, recs, t).updates[j]).name
                == recs[i].name,
    decreases recs.len(),
{
    if recs.len() > 0 {
        let recs0 = recs.drop_last();
        let p0 = plan_spec(m, recs0, t);
        let p = plan_spec(m, recs, t);
        lemma_plan_names_come_from_records(m, recs0, t);
        assert(forall|i: int| 0 <= i < recs0.len() ==> recs0[i] == recs[i]);
        assert(recs[recs.len() - 1] == recs.last());
        assert forall|j: int| 0 <= j < p.inserts.len() implies exists|i: int|
            0 <= i < recs.len() && (#[trigger] p.inserts[j]).name == recs[i].name by {
            if j < p0.inserts.len() {
                let i = choose|i: int|
                    0 <= i < recs0.len() && (#[trigger] p0.inserts[j]).name == recs0[i].name;
                assert(0 <= i < recs.len() && p.inserts[j].name == recs[i].name);
            } else {
                assert(p.inserts[j].name == recs[recs.len() - 1].name);
            }
        }
        assert forall|j: int| 0 <= j < p.updates.len() implies exists|i: int|
            0 <= i < recs.len() && (#[trigger] p.updates[j]).name == recs[i].name by {
            if j < p0.updates.len() {
                let i = choose|i: int|
                    0 <= i < recs0.len() && (#[trigger] p0.updates[j]).name == recs0[i].name;
                assert(0 <= i < recs.len() && p.updates[j].name == recs[i].name);
            } else {
                assert(p.updates[j].name == recs[recs.len() - 1].name);
            }
        }
    }
}

/// Law (plan fidelity): executing one run's plan — writing its inserts,
/// then its updates — leaves the store exactly as writing every record of
/// the run would: the records the plan does not rewrite already stand in
/// the store with the same value.
pub proof fn lemma_plan_writes_suffice(
    m: Map<Seq<char>, PackageView>,
    recs: Seq<PackageView>,
    t: Seq<char>,
)
    requires
        names_unique(recs),
        keyed_by_name(m),
    ensures
        upsert_all(upsert_all(m, plan_spec(m, recs, t).inserts), plan_spec(m, recs, t).updates)
            == upsert_all(m, recs),
    decreases recs.len(),
{
    if recs.len() == 0 {
    } else {
        let recs0 = recs.drop_last();
        let r = recs.last();
        let p0 = plan_spec(m, recs0, t);
        let p = plan_spec(m, recs, t);
        assert(forall|i: int| 0 <= i < recs0.len() ==> recs0[i] == recs[i]);
        lemma_plan_writes_suffice(m, recs0, t);
        lemma_plan_names_come_from_records(m, recs0, t);
        // r's name is fresh among the plan-so-far's entries.
        assert(forall|i: int| 0 <= i < recs0.len() ==> (#[trigger] recs0[i]).name != r.name);
        assert forall|j: int| 0 <= j < p0.updates.len() implies (#[trigger] p0.updates[j]).name
            != r.name by {
            let i = choose|i: int|
                0 <= i < recs0.len() && (#[trigger] p0.updates[j]).name == recs0[i].name;
        }
        assert forall|j: int| 0 <= j < p0.inserts.len() implies (#[trigger] p0.inserts[j]).name
            != r.name by {
            let i = choose|i: int|
                0 <= i < recs0.len() && (#[trigger] p0.inserts[j]).name == recs0[i].name;
        }
        if m.contains_key(r.name) {
            let a = diff_spec(m[r.name], r, t);
            assert(p.inserts == p0.inserts);
            if a.len() > 0 {
                assert(p.updates == p0.updates.push(r));
                assert(p.updates.drop_last() =~= p0.updates);
            } else {
                // No attribute changed, and the stored value carries its
                // own name: the stored record already equals r.
                assert(m[r.name].name == r.name);
                assert(m[r.name].same_attributes(r));
                assert(m[r.name] == r);
                lemma_upsert_all_frame(m, recs0, r.name);
                assert(upsert_all(m, recs0)[r.name] == r);
                lemma_upsert_all_frame(upsert_all(m, p0.inserts), p0.updates, r.name);
                lemma_upsert_all_frame(m, p0.inserts, r.name);
                assert(upsert_all(m, recs0).insert(r.name, r) =~= upsert_all(m, recs0));
            }
        } else {
            assert(p.inserts == p0.inserts.push(r));
            assert(p.inserts.drop_last() =~= p0.inserts);
            assert(p.updates == p0.updates);
            lemma_upsert_all_insert_commutes(
                upsert_all(m, p0.inserts),
                p0.updates,
                r.name,
                r,
            );
        }
    }
}

/// Law (re-run idempotence): once the records of a run have been written,
/// planning the same records again — at any timestamp — asks for nothing:
/// no inserts, no rewrites, no new audit entries; and writing them again
/// leaves the stored mapping identical.
pub proof fn lemma_rerun_is_no_op(
    m: Map<Seq<char>, PackageView>,
    recs: Seq<PackageView>,
    t: Seq<char>,
)
    requires
        names_unique(recs),
    ensures
        plan_spec(upsert_all(m, recs), recs, t).inserts.len() == 0,
        plan_spec(upsert_all(m, recs), recs, t).updates.len() == 0,
        plan_spec(upsert_all(m, recs), recs, t).audits.len() == 0,
        upsert_all(upsert_all(m, recs), recs) == upsert_all(m, recs),
{
    lemma_upsert_all_stores(m, recs);
    lemma_plan_of_stored_is_empty(upsert_all(m, recs), recs, t);
    lemma_upsert_all_of_stored_is_same(upsert_all(m, recs), recs);
}

} // verus!
