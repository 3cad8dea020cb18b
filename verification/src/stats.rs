//! Stats snapshots: the per-run counts as persisted (keyed by period and
//! day), and the period-over-period deltas the notification collaborator
//! formats.
use vstd::prelude::*;

verus! {

use crate::aggregate::StatsCounts;

/// One run's persisted counts: keyed by `year_month` (the period) and
/// `timestamp` (the day), overwritten if a run repeats for the same day.
pub struct StatsSnapshot {
    pub year_month: String,
    pub timestamp: String,
    pub total_packages: usize,
    pub type_module: usize,
    pub exports_require: usize,
    pub exports_no_require: usize,
}

/// The numeric period-over-period deltas (`current - previous` per
/// count), carrying the current snapshot's day key.
pub struct StatsDelta {
    pub timestamp: String,
    pub total_packages: i128,
    pub type_module: i128,
    pub exports_require: i128,
    pub exports_no_require: i128,
}

impl StatsSnapshot {
    /// Assemble the snapshot one run persists from its aggregated counts
    /// and its period and day keys.
    pub fn of_counts(counts: &StatsCounts, year_month: String, timestamp: String) -> (s:
        StatsSnapshot)
        ensures
            s.year_month@ == year_month@,
            s.timestamp@ == timestamp@,
            s.total_packages == counts.total,
            s.type_module == counts.type_module,
            s.exports_require == counts.exports_require,
            s.exports_no_require == counts.exports_no_require,
    {
        StatsSnapshot {
            year_month,
            timestamp,
            total_packages: counts.total,
            type_module: counts.type_module,
            exports_require: counts.exports_require,
            exports_no_require: counts.exports_no_require,
        }
    }
}

/// The exact count deltas between two snapshots, `current - previous`
/// per count, under the current snapshot's day key.
pub fn stats_delta(current: &StatsSnapshot, previous: &StatsSnapshot) -> (d: StatsDelta)
    ensures
        d.timestamp@ == current.timestamp@,
        d.total_packages == current.total_packages - previous.total_packages,
        d.type_module == current.type_module - previous.type_module,
        d.exports_require == current.exports_require - previous.exports_require,
        d.exports_no_require == current.exports_no_require - previous.exports_no_require,
{
    StatsDelta {
        timestamp: current.timestamp.clone(),
        total_packages: current.total_packages as i128 - previous.total_packages as i128,
        type_module: current.type_module as i128 - previous.type_module as i128,
        exports_require: current.exports_require as i128 - previous.exports_require as i128,
        exports_no_require: current.exports_no_require as i128
            - previous.exports_no_require as i128,
    }
}

} // verus!
