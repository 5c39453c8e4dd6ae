use std::collections::VecDeque;
use vstd::prelude::*;

use crate::clock::now_millis;
use crate::history::{bounded_push, newest_first};

verus! {

/// Traffic counters at one moment.
#[derive(Debug, Clone, Copy)]
pub struct TrafficStats {
    pub up: u64,
    pub down: u64,
    pub timestamp: i64,
}

/// How many traffic samples are kept.
pub open spec fn max_traffic_history() -> nat {
    3600
}

/// The latest traffic sample and the last 3600 samples.
pub struct TrafficManager {
    history: VecDeque<TrafficStats>,
    current: TrafficStats,
}

impl TrafficManager {
    /// The samples kept, oldest first.
    pub closed spec fn samples(&self) -> Seq<TrafficStats> {
        self.history@
    }

    /// The latest sample.
    pub closed spec fn latest(&self) -> TrafficStats {
        self.current
    }

    /// The invariant: at most 3600 samples, the newest of which, if any, is the latest.
    pub closed spec fn wf(&self) -> bool {
        &&& self.history@.len() <= max_traffic_history()
        &&& self.history@.len() > 0 ==> self.history@.last() == self.current
    }

    /// No samples yet, and a latest sample of no traffic at time `now` (milliseconds
    /// since the Unix epoch).
    pub fn new_at(now: i64) -> (r: TrafficManager)
        ensures
            r.wf(),
            r.samples() == Seq::<TrafficStats>::empty(),
            r.latest() == (TrafficStats { up: 0, down: 0, timestamp: now }),
    {
        TrafficManager { history: VecDeque::new(), current: TrafficStats { up: 0, down: 0, timestamp: now } }
    }

    /// No samples yet, and a latest sample of no traffic at the current time.
    pub fn new() -> (r: TrafficManager)
        ensures
            r.wf(),
            r.samples() == Seq::<TrafficStats>::empty(),
            r.latest() == (TrafficStats { up: 0, down: 0, timestamp: r.latest().timestamp }),
    {
        TrafficManager::new_at(now_millis())
    }

    /// Records the counters `up` and `down` at time `now` (milliseconds since the Unix
    /// epoch): a new sample that becomes the latest and joins the history, the oldest
    /// dropped beyond 3600.
    pub fn update_at(&mut self, up: u64, down: u64, now: i64)
        requires
            old(self).wf(),
        ensures
            final(self).wf(),
            final(self).latest() == (TrafficStats { up, down, timestamp: now }),
            final(self).samples() == bounded_push(
                old(self).samples(),
                TrafficStats { up, down, timestamp: now },
                max_traffic_history(),
            ),
    {
        let stats = TrafficStats { up, down, timestamp: now };
        self.history.push_back(stats);
        if self.history.len() > 3600 {
            self.history.pop_front();
        }
        self.current = stats;
        assert(self.history@ =~= bounded_push(old(self).samples(), stats, max_traffic_history()));
    }

    /// Records the counters `up` and `down` at the current time: a new sample that
    /// becomes the latest and joins the history, the oldest dropped beyond 3600.
    pub fn update(&mut self, up: u64, down: u64)
        requires
            old(self).wf(),
        ensures
            final(self).wf(),
            final(self).latest() == (TrafficStats { up, down, timestamp: final(self).latest().timestamp }),
            final(self).samples() == bounded_push(
                old(self).samples(),
                final(self).latest(),
                max_traffic_history(),
            ),
    {
        self.update_at(up, down, now_millis());
    }

    /// The latest sample.
    pub fn get_current(&self) -> (r: TrafficStats)
        ensures
            r == self.latest(),
    {
        self.current
    }

    /// The newest `limit` samples, newest first.
    pub fn get_history(&self, limit: usize) -> (r: Vec<TrafficStats>)
        ensures
            r@ == newest_first(self.samples(), limit as nat),
    {
        let len = self.history.len();
        let n = if limit < len {
            limit
        } else {
            len
        };
        let mut out: Vec<TrafficStats> = Vec::new();
        let mut i: usize = 0;
        while i < n
            invariant
                n <= len,
                len == self.history@.len(),
                i <= n,
                out@ =~= newest_first(self.history@, limit as nat).take(i as int),
                n == newest_first(self.history@, limit as nat).len(),
            decreases n - i,
        {
            out.push(self.history[len - 1 - i]);
            i += 1;
        }
        out
    }
}


/// A well-formed traffic history holds at most 3600 samples, the newest of which is
/// the latest sample.
pub proof fn law_traffic_bounded(m: &TrafficManager)
    requires
        m.wf(),
    ensures
        m.samples().len() <= max_traffic_history(),
        m.samples().len() > 0 ==> m.samples().last() == m.latest(),
{
}

/// After an update, the newest sample listed is the current one.
pub proof fn law_current_listed_first(before: &TrafficManager, after: &TrafficManager)
    requires
        after.samples() == bounded_push(before.samples(), after.latest(), max_traffic_history()),
    ensures
        newest_first(after.samples(), 1) == seq![after.latest()],
{
    crate::history::law_newest_first_after_push(before.samples(), after.latest(), max_traffic_history());
}

} // verus!
