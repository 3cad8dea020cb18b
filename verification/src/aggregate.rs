//! Aggregator: a single pass over the extracted records producing the
//! summary counts, together with the law that the counts depend only on
//! the multiset of records — never on the order the fetcher surfaced them
//! in.
use vstd::prelude::*;

verus! {

use crate::Package;
use vstd::multiset::Multiset;

broadcast use
    vstd::multiset::group_multiset_axioms,
    vstd::multiset::group_multiset_properties,
    vstd::seq_lib::group_to_multiset_ensures,
;

/// The summary counts of one run: every extracted record counts toward
/// `total`; each attribute count is the number of records with that
/// attribute true.
pub struct StatsCounts {
    pub total: usize,
    pub type_module: usize,
    pub exports_require: usize,
    pub exports_no_require: usize,
}

/// How many records of `s` satisfy `pred`.
pub open spec fn count_matching(s: Seq<Package>, pred: spec_fn(Package) -> bool) -> nat
    decreases s.len(),
{
    if s.len() == 0 {
        0
    } else {
        count_matching(s.drop_last(), pred) + (if pred(s.last()) {
            1nat
        } else {
            0nat
        })
    }
}

/// How many records of `s` have `type_module` set.
pub open spec fn type_module_count_of(s: Seq<Package>) -> nat {
    count_matching(s, |p: Package| p.type_module)
}

/// How many records of `s` have `exports_require` set.
pub open spec fn exports_require_count_of(s: Seq<Package>) -> nat {
    count_matching(s, |p: Package| p.exports_require)
}

/// How many records of `s` have `exports_no_require` set.
pub open spec fn exports_no_require_count_of(s: Seq<Package>) -> nat {
    count_matching(s, |p: Package| p.exports_no_require)
}

/// How many records of `s` have at least one attribute set.
pub open spec fn has_values_count_of(s: Seq<Package>) -> nat {
    count_matching(
        s,
        |p: Package| p.exports_no_require || p.exports_require || p.type_module,
    )
}

proof fn lemma_count_step(s: Seq<Package>, pred: spec_fn(Package) -> bool, i: int)
    requires
        0 <= i < s.len(),
    ensures
        count_matching(s.take(i + 1), pred) == count_matching(s.take(i), pred) + (if pred(s[i]) {
            1nat
        } else {
            0nat
        }),
{
    assert(s.take(i + 1).drop_last() =~= s.take(i));
    assert(s.take(i + 1).last() == s[i]);
}

proof fn lemma_count_is_multiset_count(s: Seq<Package>, pred: spec_fn(Package) -> bool)
    ensures
        count_matching(s, pred) == s.to_multiset().filter(pred).len(),
    decreases s.len(),
{
    if s.len() == 0 {
        assert(s.to_multiset().len() == 0);
        assert(s.to_multiset().filter(pred) =~= Multiset::<Package>::empty());
    } else {
        let s0 = s.drop_last();
        let a = s.last();
        lemma_count_is_multiset_count(s0, pred);
        assert(s =~= s0.push(a));
        assert(s0.push(a).to_multiset() =~= s0.to_multiset().insert(a));
        let m0 = s0.to_multiset();
        if pred(a) {
            assert(m0.insert(a).filter(pred) =~= m0.filter(pred).insert(a));
        } else {
            assert(m0.insert(a).filter(pred) =~= m0.filter(pred));
        }
    }
}

/// Law: two runs whose records are the same up to order produce the same
/// total and the same three attribute counts.
pub proof fn lemma_counts_order_independent(s1: Seq<Package>, s2: Seq<Package>)
    requires
        s1.to_multiset() == s2.to_multiset(),
    ensures
        s1.len() == s2.len(),
        type_module_count_of(s1) == type_module_count_of(s2),
        exports_require_count_of(s1) == exports_require_count_of(s2),
        exports_no_require_count_of(s1) == exports_no_require_count_of(s2),
        has_values_count_of(s1) == has_values_count_of(s2),
{
    s1.to_multiset_ensures();
    s2.to_multiset_ensures();
    lemma_count_is_multiset_count(s1, |p: Package| p.type_module);
    lemma_count_is_multiset_count(s2, |p: Package| p.type_module);
    lemma_count_is_multiset_count(s1, |p: Package| p.exports_require);
    lemma_count_is_multiset_count(s2, |p: Package| p.exports_require);
    lemma_count_is_multiset_count(s1, |p: Package| p.exports_no_require);
    lemma_count_is_multiset_count(s2, |p: Package| p.exports_no_require);
    lemma_count_is_multiset_count(
        s1,
        |p: Package| p.exports_no_require || p.exports_require || p.type_module,
    );
    lemma_count_is_multiset_count(
        s2,
        |p: Package| p.exports_no_require || p.exports_require || p.type_module,
    );
}

/// One pass over the extracted records: `total` counts every record, and
/// each attribute count is exactly the number of records with that
/// attribute true. A record with no attribute set still counts toward
/// `total` and toward no attribute count.
pub fn aggregate(records: &Vec<Package>) -> (c: StatsCounts)
    ensures
        c.total == records@.len(),
        c.type_module == type_module_count_of(records@),
        c.exports_require == exports_require_count_of(records@),
        c.exports_no_require == exports_no_require_count_of(records@),
{
    let n = records.len();
    let mut type_module: usize = 0;
    let mut exports_require: usize = 0;
    let mut exports_no_require: usize = 0;
    let mut i: usize = 0;
    while i < n
        invariant
            n == records@.len(),
            0 <= i <= n,
            type_module == type_module_count_of(records@.take(i as int)),
            exports_require == exports_require_count_of(records@.take(i as int)),
            exports_no_require == exports_no_require_count_of(records@.take(i as int)),
            type_module <= i,
            exports_require <= i,
            exports_no_require <= i,
        decreases n - i,
    {
        proof {
            lemma_count_step(records@, |p: Package| p.type_module, i as int);
            lemma_count_step(records@, |p: Package| p.exports_require, i as int);
            lemma_count_step(records@, |p: Package| p.exports_no_require, i as int);
        }
        if records[i].type_module {
            type_module += 1;
        }
        if records[i].exports_require {
            exports_require += 1;
        }
        if records[i].exports_no_require {
            exports_no_require += 1;
        }
        i += 1;
    }
    proof {
        assert(records@.take(n as int) =~= records@);
    }
    StatsCounts { total: n, type_module, exports_require, exports_no_require }
}

/// How many of the records have at least one attribute set — the filter
/// the percentage-style report uses; it never changes `total`.
pub fn count_has_values(records: &Vec<Package>) -> (c: usize)
    ensures
        c == has_values_count_of(records@),
        c <= records@.len(),
{
    let n = records.len();
    let mut c: usize = 0;
    let mut i: usize = 0;
    while i < n
        invariant
            n == records@.len(),
            0 <= i <= n,
            c == has_values_count_of(records@.take(i as int)),
            c <= i,
        decreases n - i,
    {
        proof {
            lemma_count_step(
                records@,
                |p: Package| p.exports_no_require || p.exports_require || p.type_module,
                i as int,
            );
        }
        if records[i].exports_no_require || records[i].exports_require || records[i].type_module {
            c += 1;
        }
        i += 1;
    }
    proof {
        assert(records@.take(n as int) =~= records@);
    }
    c
}

} // verus!
