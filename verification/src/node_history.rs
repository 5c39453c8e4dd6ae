use vstd::prelude::*;

verus! {

/// One traffic record of a node.
#[derive(Debug)]
pub struct NodeHistory {
    pub node_id: String,
    pub timestamp: String,
    pub up: u64,
    pub down: u64,
    pub delay: Option<i64>,
}

/// Keeps the traffic history of the nodes in a database file, when enabled.
pub struct NodeHistoryManager {
    db_path: String,
    enabled: bool,
}

impl NodeHistoryManager {
    /// The path of the database file.
    pub closed spec fn path(&self) -> Seq<char> {
        self.db_path@
    }

    /// Whether records are kept.
    pub closed spec fn is_enabled(&self) -> bool {
        self.enabled
    }

    /// A history in the database file `db_path`, not recording until enabled.
    pub fn new(db_path: String) -> (r: NodeHistoryManager)
        ensures
            r.path() == db_path@,
            !r.is_enabled(),
    {
        NodeHistoryManager { db_path, enabled: false }
    }

    /// The path of the database file.
    pub fn db_path(&self) -> (r: &str)
        ensures
            r@ == self.path(),
    {
        self.db_path.as_str()
    }

    /// Turns recording on or off.
    pub fn set_enabled(&mut self, enabled: bool)
        ensures
            final(self).is_enabled() == enabled,
            final(self).path() == old(self).path(),
    {
        self.enabled = enabled;
    }

    /// Whether a record is to be written: only when recording is on.
    pub fn records(&self) -> (r: bool)
        ensures
            r == self.is_enabled(),
    {
        self.enabled
    }
}

/// The totals of a node's traffic: the sums, 0 where there are no records.
pub fn traffic_totals(up: Option<u64>, down: Option<u64>) -> (r: (u64, u64))
    ensures
        r.0 == (match up {
            Some(u) => u,
            None => 0,
        }),
        r.1 == (match down {
            Some(d) => d,
            None => 0,
        }),
{
    let u = match up {
        Some(u) => u,
        None => 0,
    };
    let d = match down {
        Some(d) => d,
        None => 0,
    };
    (u, d)
}

/// How many records a history request returns: 100 when it gives no limit.
pub fn history_limit(limit: Option<i64>) -> (r: i64)
    ensures
        r == (match limit {
            Some(l) => l,
            None => 100,
        }),
{
    match limit {
        Some(l) => l,
        None => 100,
    }
}

} // verus!
