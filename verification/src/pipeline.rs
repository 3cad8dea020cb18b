//! Pipeline driver core: turns the per-name fetch outcomes of one run into
//! the extracted records and the skip counts, with every per-document
//! failure isolated to its own document.
//!
//! The accumulator works incrementally — one outcome at a time, as each
//! fetch completes — so a driver never needs to buffer all raw documents;
//! peak memory stays proportional to the concurrency window, not to the
//! input size.
use vstd::prelude::*;

verus! {

use crate::Package;
use crate::PackageView;
use crate::extract::ExtractError;
use crate::extract::doc_of;
use crate::extract::extract;
use crate::extract::record_of_doc;

/// The record a fetched document text yields, or `None` where the text
/// does not parse or has no string `name` field.
pub open spec fn extract_ok(t: Seq<char>) -> Option<PackageView> {
    match doc_of(t) {
        None => None,
        Some(d) => record_of_doc(d),
    }
}

/// The fetch of this name failed (timeout, network, non-success status):
/// there is no document text at all.
pub open spec fn is_fetch_failure(o: Option<String>) -> bool {
    o is None
}

/// The document text arrived but does not parse.
pub open spec fn is_parse_failure(o: Option<String>) -> bool {
    match o {
        Some(t) => doc_of(t@) is None,
        None => false,
    }
}

/// The document parsed but has no string `name` field.
pub open spec fn is_schema_failure(o: Option<String>) -> bool {
    match o {
        Some(t) => match doc_of(t@) {
            Some(d) => d.name is None,
            None => false,
        },
        None => false,
    }
}

/// How many outcomes of `s` satisfy `pred`.
pub open spec fn count_outcomes(s: Seq<Option<String>>, pred: spec_fn(Option<String>) -> bool) -> nat
    decreases s.len(),
{
    if s.len() == 0 {
        0
    } else {
        count_outcomes(s.drop_last(), pred) + (if pred(s.last()) {
            1nat
        } else {
            0nat
        })
    }
}

/// How many outcomes of `s` are failed fetches.
pub open spec fn fetch_failure_count(s: Seq<Option<String>>) -> nat {
    count_outcomes(s, |o: Option<String>| is_fetch_failure(o))
}

/// How many outcomes of `s` carry a document that does not parse.
pub open spec fn parse_failure_count(s: Seq<Option<String>>) -> nat {
    count_outcomes(s, |o: Option<String>| is_parse_failure(o))
}

/// How many outcomes of `s` carry a document with no string `name` field.
pub open spec fn schema_failure_count(s: Seq<Option<String>>) -> nat {
    count_outcomes(s, |o: Option<String>| is_schema_failure(o))
}

/// The records that the fetch outcomes `s` yield, in arrival order: one
/// per outcome whose document arrived, parsed, and carried a string
/// `name` field.
pub open spec fn collected(s: Seq<Option<String>>) -> Seq<PackageView>
    decreases s.len(),
{
    if s.len() == 0 {
        Seq::<PackageView>::empty()
    } else {
        let rest = collected(s.drop_last());
        match s.last() {
            None => rest,
            Some(t) => match extract_ok(t@) {
                None => rest,
                Some(pv) => rest.push(pv),
            },
        }
    }
}

proof fn lemma_pipeline_step(s: Seq<Option<String>>, o: Option<String>)
    ensures
        collected(s.push(o)) == (match o {
            None => collected(s),
            Some(t) => match extract_ok(t@) {
                None => collected(s),
                Some(pv) => collected(s).push(pv),
            },
        }),
        fetch_failure_count(s.push(o)) == fetch_failure_count(s) + (if is_fetch_failure(o) {
            1nat
        } else {
            0nat
        }),
        parse_failure_count(s.push(o)) == parse_failure_count(s) + (if is_parse_failure(o) {
            1nat
        } else {
            0nat
        }),
        schema_failure_count(s.push(o)) == schema_failure_count(s) + (if is_schema_failure(o) {
            1nat
        } else {
            0nat
        }),
{
    assert(s.push(o).drop_last() =~= s);
    assert(s.push(o).last() == o);
}

/// The incremental pipeline state of one run: the records extracted so
/// far and the per-reason skip counts, over the fetch outcomes accepted
/// so far (kept as ghost history).
pub struct RunAccumulator {
    pub records: Vec<Package>,
    pub fetch_failures: usize,
    pub parse_failures: usize,
    pub schema_failures: usize,
    pub history: Ghost<Seq<Option<String>>>,
}

impl RunAccumulator {
    /// The accumulator faithfully reflects its history: the records are
    /// exactly those the accepted outcomes yield, every skip is counted
    /// under its reason, every outcome is a record or a counted skip, and
    /// every record satisfies the record invariant.
    pub open spec fn wf(self) -> bool {
        &&& self.records@.map_values(|p: Package| p@) == collected(self.history@)
        &&& self.fetch_failures == fetch_failure_count(self.history@)
        &&& self.parse_failures == parse_failure_count(self.history@)
        &&& self.schema_failures == schema_failure_count(self.history@)
        &&& self.records@.len() + self.fetch_failures + self.parse_failures
            + self.schema_failures == self.history@.len()
        &&& forall|i: int| 0 <= i < self.records@.len() ==> (#[trigger] self.records@[i])@.wf()
    }

    /// An accumulator that has seen nothing.
    pub fn new() -> (acc: RunAccumulator)
        ensures
            acc.wf(),
            acc.history@ == Seq::<Option<String>>::empty(),
    {
        let acc = RunAccumulator {
            records: Vec::new(),
            fetch_failures: 0,
            parse_failures: 0,
            schema_failures: 0,
            history: Ghost(Seq::empty()),
        };
        proof {
            assert(acc.records@.map_values(|p: Package| p@) =~= collected(acc.history@));
        }
        acc
    }

    /// Accept one fetch outcome as it completes (`None` marks a failed
    /// fetch): extract a record from the document if one arrived, or
    /// count the skip under its failure reason — isolated from every
    /// other outcome.
    pub fn accept(&mut self, outcome: &Option<String>)
        requires
            old(self).wf(),
            old(self).history@.len() < usize::MAX,
        ensures
            final(self).wf(),
            final(self).history@ == old(self).history@.push(*outcome),
    {
        proof {
            lemma_pipeline_step(self.history@, *outcome);
        }
        self.history = Ghost(self.history@.push(*outcome));
        match outcome {
            None => {
                self.fetch_failures += 1;
            },
            Some(t) => {
                match extract(t.as_str()) {
                    Ok(p) => {
                        self.records.push(p);
                        proof {
                            assert(self.records@.map_values(|p: Package| p@) =~= collected(
                                self.history@,
                            ));
                        }
                    },
                    Err(ExtractError::Parse(_)) => {
                        self.parse_failures += 1;
                    },
                    Err(ExtractError::MissingName) => {
                        self.schema_failures += 1;
                    },
                }
            },
        }
    }
}

/// What one run's fetch outcomes produced: the extracted records in
/// arrival order, and the number of skipped documents per failure reason.
pub struct ProcessedBatch {
    pub records: Vec<Package>,
    pub fetch_failures: usize,
    pub parse_failures: usize,
    pub schema_failures: usize,
}

/// Process a whole batch of fetch outcomes at once (`None` marks a failed
/// fetch): one [`RunAccumulator`] step per outcome. Every outcome is
/// either a record or a counted skip, and every returned record satisfies
/// the record invariant.
pub fn process_responses(responses: &Vec<Option<String>>) -> (out: ProcessedBatch)
    ensures
        out.records@.map_values(|p: Package| p@) == collected(responses@),
        out.fetch_failures == fetch_failure_count(responses@),
        out.parse_failures == parse_failure_count(responses@),
        out.schema_failures == schema_failure_count(responses@),
        out.records@.len() + out.fetch_failures + out.parse_failures + out.schema_failures
            == responses@.len(),
        forall|i: int| 0 <= i < out.records@.len() ==> (#[trigger] out.records@[i])@.wf(),
{
    let n = responses.len();
    let mut acc = RunAccumulator::new();
    proof {
        assert(acc.history@ =~= responses@.take(0));
    }
    let mut i: usize = 0;
    while i < n
        invariant
            n == responses@.len(),
            0 <= i <= n,
            acc.wf(),
            acc.history@ == responses@.take(i as int),
        decreases n - i,
    {
        acc.accept(&responses[i]);
        proof {
            assert(responses@.take(i as int).push(responses@[i as int]) =~= responses@.take(
                i + 1,
            ));
        }
        i += 1;
    }
    proof {
        assert(responses@.take(n as int) =~= responses@);
    }
    let RunAccumulator { records, fetch_failures, parse_failures, schema_failures, history: _ } =
        acc;
    ProcessedBatch { records, fetch_failures, parse_failures, schema_failures }
}

/// Law (isolation): an outcome that yields no record — a failed fetch, a
/// malformed document, or one with no string `name` — contributes
/// nothing: the run's records are exactly those of the other outcomes, so
/// it reduces the successful-record count by exactly one relative to a
/// well-formed outcome and leaves every other result unaffected.
pub proof fn lemma_isolation(s: Seq<Option<String>>, i: int)
    requires
        0 <= i < s.len(),
        match s[i] {
            None => true,
            Some(t) => extract_ok(t@) is None,
        },
    ensures
        collected(s) == collected(s.remove(i)),
    decreases s.len(),
{
    if i == s.len() - 1 {
        assert(s.remove(i) =~= s.drop_last());
    } else {
        let s0 = s.drop_last();
        lemma_isolation(s0, i);
        assert(s.remove(i).drop_last() =~= s0.remove(i));
        assert(s.remove(i).last() == s.last());
    }
}

} // verus!
