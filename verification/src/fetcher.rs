//! Fetcher core: the sliding-window dispatch state. The pool hands out
//! queued names in submission order and accounts for the requests in
//! flight; its invariant is the concurrency bound — at no instant are
//! more than `limit` requests in flight.
//!
//! The requests themselves (network I/O, timeouts) are the caller's:
//! whoever drives the pool performs one fetch per dispatched name and
//! reports each completion — success, timeout and error alike — so a
//! failed request frees its slot exactly like a successful one.
use vstd::prelude::*;

verus! {

/// The dispatch state of one run's fetches.
pub struct FetchPool {
    /// The names to fetch, in submission order.
    pub names: Vec<String>,
    /// How many names have been dispatched so far.
    pub next: usize,
    /// How many dispatched requests have not completed yet.
    pub in_flight: usize,
    /// The concurrency window: the most requests ever allowed in flight.
    pub limit: usize,
}

impl FetchPool {
    /// The pool invariant; every method keeps it, so the in-flight count
    /// never exceeds the window.
    pub open spec fn wf(self) -> bool {
        &&& 1 <= self.limit
        &&& self.in_flight <= self.limit
        &&& self.next <= self.names@.len()
    }

    /// A fresh pool over `names` with window `limit`: nothing dispatched,
    /// nothing in flight.
    pub fn new(names: Vec<String>, limit: usize) -> (p: FetchPool)
        requires
            1 <= limit,
        ensures
            p.wf(),
            p.names == names,
            p.next == 0,
            p.in_flight == 0,
            p.limit == limit,
    {
        FetchPool { names, next: 0, in_flight: 0, limit }
    }

    /// Whether another request may start now: a name is still queued and
    /// a slot is free.
    pub fn can_dispatch(&self) -> (r: bool)
        ensures
            r == (self.next < self.names@.len() && self.in_flight < self.limit),
    {
        self.next < self.names.len() && self.in_flight < self.limit
    }

    /// Whether every queued name has been dispatched and every request
    /// has completed.
    pub fn is_done(&self) -> (r: bool)
        ensures
            r == (self.next == self.names@.len() && self.in_flight == 0),
    {
        self.next == self.names.len() && self.in_flight == 0
    }

    /// Start the next request: hand out the next queued name and take one
    /// slot. Only possible while a slot is free, so the bound holds after
    /// the dispatch too.
    pub fn dispatch(&mut self) -> (name: String)
        requires
            old(self).wf(),
            old(self).next < old(self).names@.len(),
            old(self).in_flight < old(self).limit,
        ensures
            final(self).wf(),
            name@ == old(self).names@[old(self).next as int]@,
            final(self).next == old(self).next + 1,
            final(self).in_flight == old(self).in_flight + 1,
            final(self).in_flight <= final(self).limit,
            final(self).names == old(self).names,
            final(self).limit == old(self).limit,
    {
        let queued = self.names.len();
        assert(self.next < queued);
        let name = self.names[self.next].clone();
        self.next += 1;
        self.in_flight += 1;
        name
    }

    /// One request finished — with a document, a timeout or an error, all
    /// alike — and frees its slot; the next queued name may dispatch.
    pub fn complete(&mut self)
        requires
            old(self).wf(),
            1 <= old(self).in_flight,
        ensures
            final(self).wf(),
            final(self).in_flight == old(self).in_flight - 1,
            final(self).next == old(self).next,
            final(self).names == old(self).names,
            final(self).limit == old(self).limit,
    {
        self.in_flight -= 1;
    }
}

/// Law (concurrency bound): in every reachable pool state — every method
/// establishes or preserves `wf` — the instantaneous in-flight request
/// count never exceeds the window.
pub proof fn lemma_in_flight_bounded(p: FetchPool)
    requires
        p.wf(),
    ensures
        p.in_flight <= p.limit,
{
}

} // verus!
