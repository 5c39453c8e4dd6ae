use std::collections::VecDeque;
use vstd::prelude::*;

use crate::clock::now_millis;
use crate::history::{bounded_push, newest_first};
use crate::json::{json_document, json_member, json_member_of, JsonMember, JsonMemberView};
use crate::text::{copy_opt_string, opt_view, text_or};

verus! {

/// One connection seen in the proxy core's log.
#[derive(Debug)]
pub struct ConnectionLog {
    pub session_id: String,
    pub domain: String,
    pub direction: String,
    pub network_type: String,
    pub node_group: Option<String>,
    pub delay: Option<i64>,
    pub timestamp: i64,
    pub source_ip: Option<String>,
    pub destination_ip: Option<String>,
}

impl ConnectionLog {
    /// A copy of this entry.
    pub fn snapshot(&self) -> (r: ConnectionLog)
        ensures
            r == *self,
    {
        ConnectionLog {
            session_id: self.session_id.clone(),
            domain: self.domain.clone(),
            direction: self.direction.clone(),
            network_type: self.network_type.clone(),
            node_group: copy_opt_string(&self.node_group),
            delay: self.delay,
            timestamp: self.timestamp,
            source_ip: copy_opt_string(&self.source_ip),
            destination_ip: copy_opt_string(&self.destination_ip),
        }
    }
}

/// Statistics of the connections that share a group key.
#[derive(Debug)]
pub struct ConnectionGroup {
    pub domain: String,
    pub network_type: String,
    pub node_group: Option<String>,
    pub direction: String,
    pub count: usize,
    pub first_seen: i64,
    pub last_seen: i64,
    pub recent_logs: Vec<ConnectionLog>,
}

/// The abstract value of a `ConnectionGroup`.
pub struct GroupView {
    pub domain: String,
    pub network_type: String,
    pub node_group: Option<String>,
    pub direction: String,
    pub count: nat,
    pub first_seen: int,
    pub last_seen: int,
    pub recent_logs: Seq<ConnectionLog>,
}

impl View for ConnectionGroup {
    type V = GroupView;

    open spec fn view(&self) -> GroupView {
        GroupView {
            domain: self.domain,
            network_type: self.network_type,
            node_group: self.node_group,
            direction: self.direction,
            count: self.count as nat,
            first_seen: self.first_seen as int,
            last_seen: self.last_seen as int,
            recent_logs: self.recent_logs@,
        }
    }
}

impl ConnectionGroup {
    /// A copy of this group.
    pub fn snapshot(&self) -> (r: ConnectionGroup)
        ensures
            r@ == self@,
    {
        let mut logs: Vec<ConnectionLog> = Vec::new();
        let mut i: usize = 0;
        while i < self.recent_logs.len()
            invariant
                i <= self.recent_logs.len(),
                logs@ == self.recent_logs@.take(i as int),
            decreases self.recent_logs.len() - i,
        {
            logs.push(self.recent_logs[i].snapshot());
            i += 1;
            assert(logs@ =~= self.recent_logs@.take(i as int));
        }
        assert(self.recent_logs@.take(i as int) =~= self.recent_logs@);
        ConnectionGroup {
            domain: self.domain.clone(),
            network_type: self.network_type.clone(),
            node_group: copy_opt_string(&self.node_group),
            direction: self.direction.clone(),
            count: self.count,
            first_seen: self.first_seen,
            last_seen: self.last_seen,
            recent_logs: logs,
        }
    }
}

/// The node group as the group key spells it: the name, or `unknown`.
pub open spec fn node_group_label(node_group: Option<String>) -> Seq<char> {
    match node_group {
        Some(g) => g@,
        None => "unknown"@,
    }
}

/// The group key `domain:network:node_group:direction`.
pub open spec fn group_key_of(
    domain: Seq<char>,
    network_type: Seq<char>,
    node_group: Option<String>,
    direction: Seq<char>,
) -> Seq<char> {
    domain + ":"@ + network_type + ":"@ + node_group_label(node_group) + ":"@ + direction
}

/// The group key of a log entry.
pub open spec fn log_key(log: ConnectionLog) -> Seq<char> {
    group_key_of(log.domain@, log.network_type@, log.node_group, log.direction@)
}

/// The group after `log` joined it; a new group when there was none.
pub open spec fn grown(g: Option<GroupView>, log: ConnectionLog, cap: nat) -> GroupView {
    match g {
        None => GroupView {
            domain: log.domain,
            network_type: log.network_type,
            node_group: log.node_group,
            direction: log.direction,
            count: 1,
            first_seen: log.timestamp as int,
            last_seen: log.timestamp as int,
            recent_logs: seq![log],
        },
        Some(g) => GroupView {
            count: g.count + 1,
            last_seen: log.timestamp as int,
            recent_logs: bounded_push(g.recent_logs, log, cap),
            ..g
        },
    }
}

/// How many recent connections the logger keeps.
pub open spec fn max_recent() -> nat {
    500
}

/// How many connections each group keeps.
pub open spec fn max_per_group() -> nat {
    10
}

struct GroupEntry {
    key: String,
    group: ConnectionGroup,
}

/// Keeps the recent connections and per-key statistics of all connections.
pub struct ConnectionLoggerManager {
    recent_logs: VecDeque<ConnectionLog>,
    groups: Vec<GroupEntry>,
    max_recent_logs: usize,
    max_group_logs: usize,
}

impl ConnectionLoggerManager {
    /// The recent connections, oldest first.
    pub closed spec fn recent(&self) -> Seq<ConnectionLog> {
        self.recent_logs@
    }

    /// The limits kept to: how many recent connections, and how many per group.
    pub closed spec fn limits(&self) -> (nat, nat) {
        (self.max_recent_logs as nat, self.max_group_logs as nat)
    }

    /// The groups, in the order they were first seen.
    pub closed spec fn group_list(&self) -> Seq<GroupView> {
        self.groups@.map_values(|e: GroupEntry| e.group@)
    }

    /// The group of key `k`, if any.
    pub closed spec fn group(&self, k: Seq<char>) -> Option<GroupView> {
        if exists|i: int| 0 <= i < self.groups@.len() && #[trigger] self.groups@[i].key@ == k {
            let i = choose|i: int| 0 <= i < self.groups@.len() && #[trigger] self.groups@[i].key@ == k;
            Some(self.groups@[i].group@)
        } else {
            None
        }
    }

    /// The logger's invariant.
    pub closed spec fn wf(&self) -> bool {
        &&& self.max_recent_logs == max_recent()
        &&& self.max_group_logs == max_per_group()
        &&& self.recent_logs@.len() <= max_recent()
        &&& forall|i: int, j: int|
            0 <= i < j < self.groups@.len() ==> #[trigger] self.groups@[i].key@
                != #[trigger] self.groups@[j].key@
        &&& forall|i: int|
            0 <= i < self.groups@.len() ==> {
                let e = #[trigger] self.groups@[i];
                &&& e.key@ == group_key_of(
                    e.group.domain@,
                    e.group.network_type@,
                    e.group.node_group,
                    e.group.direction@,
                )
                &&& 0 < e.group.recent_logs@.len() <= max_per_group()
                &&& e.group.recent_logs@.len() <= e.group.count
                &&& e.group.last_seen == e.group.recent_logs@.last().timestamp
                &&& forall|j: int|
                    0 <= j < e.group.recent_logs@.len() ==> log_key(
                        #[trigger] e.group.recent_logs@[j],
                    ) == e.key@
            }
    }

    /// `log` may be added: its group, if any, can count one more connection.
    pub closed spec fn can_add(&self, log: ConnectionLog) -> bool {
        match self.group(log_key(log)) {
            Some(g) => g.count < usize::MAX,
            None => true,
        }
    }

    /// The entry index of key `k`.
    proof fn lemma_group_at(&self, i: int)
        requires
            self.wf(),
            0 <= i < self.groups@.len(),
        ensures
            self.group(self.groups@[i].key@) == Some(self.groups@[i].group@),
    {
        let k = self.groups@[i].key@;
        let j = choose|j: int| 0 <= j < self.groups@.len() && #[trigger] self.groups@[j].key@ == k;
        assert(self.groups@[j].key@ == k);
        if i != j {
            if i < j {
                assert(self.groups@[i].key@ != self.groups@[j].key@);
            } else {
                assert(self.groups@[j].key@ != self.groups@[i].key@);
            }
        }
    }

    /// An empty logger.
    pub fn new() -> (r: Self)
        ensures
            r.wf(),
            r.limits() == (max_recent(), max_per_group()),
            r.recent() == Seq::<ConnectionLog>::empty(),
            r.group_list() == Seq::<GroupView>::empty(),
            forall|k: Seq<char>| r.group(k).is_none(),
    {
        let r = ConnectionLoggerManager {
            recent_logs: VecDeque::new(),
            groups: Vec::new(),
            max_recent_logs: 500,
            max_group_logs: 10,
        };
        assert(r.group_list() =~= Seq::<GroupView>::empty());
        r
    }

    /// The group key `domain:network_type:node_group:direction`, the node group read
    /// as `unknown` when there is none.
    pub fn get_group_key(
        domain: &str,
        network_type: &str,
        node_group: &Option<String>,
        direction: &str,
    ) -> (r: String)
        ensures
            r@ == group_key_of(domain@, network_type@, *node_group, direction@),
    {
        let mut key = domain.to_owned();
        key.append(":");
        key.append(network_type);
        key.append(":");
        match node_group {
            Some(g) => key.append(g.as_str()),
            None => key.append("unknown"),
        }
        key.append(":");
        key.append(direction);
        key
    }

    /// Whether `log` may be added (its group can count one more connection).
    pub fn accepts(&self, log: &ConnectionLog) -> (r: bool)
        requires
            self.wf(),
        ensures
            r == self.can_add(*log),
    {
        let key = Self::get_group_key(&log.domain, &log.network_type, &log.node_group, &log.direction);
        match self.find_group(&key) {
            Some(i) => self.groups[i].group.count < usize::MAX,
            None => true,
        }
    }

    /// The index of the entry of key `key`.
    fn find_group(&self, key: &String) -> (r: Option<usize>)
        requires
            self.wf(),
        ensures
            match r {
                Some(i) => i < self.groups@.len() && self.groups@[i as int].key@ == key@
                    && self.group(key@) == Some(self.groups@[i as int].group@),
                None => self.group(key@).is_none(),
            },
    {
        let mut i: usize = 0;
        while i < self.groups.len()
            invariant
                self.wf(),
                i <= self.groups@.len(),
                forall|j: int| 0 <= j < i ==> #[trigger] self.groups@[j].key@ != key@,
            decreases self.groups.len() - i,
        {
            if self.groups[i].key == *key {
                proof {
                    self.lemma_group_at(i as int);
                }
                return Some(i);
            }
            i += 1;
        }
        None
    }

    /// Records `log`: it joins the recent connections (the oldest dropped beyond 500)
    /// and the group of its key, which counts it, takes its time as last seen, and
    /// keeps its last 10 connections; a key not seen before starts a group.
    pub fn add_log(&mut self, log: ConnectionLog)
        requires
            old(self).wf(),
            old(self).can_add(log),
        ensures
            final(self).wf(),
            final(self).recent() == bounded_push(old(self).recent(), log, max_recent()),
            final(self).recent() == crate::history::latest(old(self).recent().push(log), max_recent()),
            final(self).limits() == old(self).limits(),
            final(self).group(log_key(log)) == Some(
                grown(old(self).group(log_key(log)), log, max_per_group()),
            ),
            forall|k: Seq<char>| k != log_key(log) ==> final(self).group(k) == old(self).group(k),
    {
        proof {
            crate::history::law_bounded_push_keeps_latest(old(self).recent(), log, max_recent());
        }
        self.recent_logs.push_back(log.snapshot());
        if self.recent_logs.len() > self.max_recent_logs {
            self.recent_logs.pop_front();
        }
        assert(self.recent_logs@ =~= bounded_push(old(self).recent(), log, max_recent()));
        let key = Self::get_group_key(&log.domain, &log.network_type, &log.node_group, &log.direction);
        let ghost k = log_key(log);
        assert(key@ == k);
        match self.find_group(&key) {
            Some(i) => {
                let ghost old_groups = self.groups@;
                let entry = self.groups.remove(i);
                let mut group = entry.group;
                group.count = group.count + 1;
                group.last_seen = log.timestamp;
                group.recent_logs.push(log.snapshot());
                if group.recent_logs.len() > self.max_group_logs {
                    group.recent_logs.remove(0);
                }
                let ghost g_old = old_groups[i as int].group@;
                assert(group.recent_logs@ =~= bounded_push(g_old.recent_logs, log, max_per_group()));
                self.groups.insert(i, GroupEntry { key: entry.key, group });
                assert(self.groups@ =~= old_groups.update(i as int, self.groups@[i as int]));
                assert(self.wf()) by {
                    assert forall|a: int, b: int|
                        0 <= a < b < self.groups@.len() implies #[trigger] self.groups@[a].key@
                        != #[trigger] self.groups@[b].key@ by {
                        assert(old_groups[a].key@ != old_groups[b].key@);
                    }
                    assert forall|a: int| 0 <= a < self.groups@.len() implies {
                        let e = #[trigger] self.groups@[a];
                        &&& e.key@ == group_key_of(
                            e.group.domain@,
                            e.group.network_type@,
                            e.group.node_group,
                            e.group.direction@,
                        )
                        &&& 0 < e.group.recent_logs@.len() <= max_per_group()
                        &&& e.group.recent_logs@.len() <= e.group.count
                        &&& e.group.last_seen == e.group.recent_logs@.last().timestamp
                        &&& forall|j: int|
                            0 <= j < e.group.recent_logs@.len() ==> log_key(
                                #[trigger] e.group.recent_logs@[j],
                            ) == e.key@
                    } by {
                        if a == i {
                            let gl = g_old.recent_logs;
                            assert forall|j: int|
                                0 <= j < group.recent_logs@.len() implies log_key(
                                #[trigger] group.recent_logs@[j],
                            ) == k by {
                                if gl.len() + 1 > max_per_group() {
                                    assert(group.recent_logs@[j] == gl.push(log)[j + 1]);
                                } else {
                                    assert(group.recent_logs@[j] == gl.push(log)[j]);
                                }
                            }
                        }
                    }
                }
                proof {
                    self.lemma_group_at(i as int);
                    assert forall|k2: Seq<char>| k2 != k implies self.group(k2) == old(self).group(k2) by {
                        self.lemma_group_lookup_other(*old(self), i as int, k2);
                    }
                }
                assert(self.groups@[i as int].group@ == grown(Some(g_old), log, max_per_group()));
            },
            None => {
                let ghost old_groups = self.groups@;
                let group = ConnectionGroup {
                    domain: log.domain.clone(),
                    network_type: log.network_type.clone(),
                    node_group: copy_opt_string(&log.node_group),
                    direction: log.direction.clone(),
                    count: 1,
                    first_seen: log.timestamp,
                    last_seen: log.timestamp,
                    recent_logs: vec![log.snapshot()],
                };
                assert(group.recent_logs@ =~= seq![log]);
                self.groups.push(GroupEntry { key, group });
                assert(self.groups@ =~= old_groups.push(self.groups@.last()));
                let n = self.groups.len() - 1;
                assert(self.wf()) by {
                    assert forall|a: int, b: int|
                        0 <= a < b < self.groups@.len() implies #[trigger] self.groups@[a].key@
                        != #[trigger] self.groups@[b].key@ by {
                        if b == n {
                            assert(old_groups[a].key@ != k);
                        } else {
                            assert(old_groups[a].key@ != old_groups[b].key@);
                        }
                    }
                }
                proof {
                    self.lemma_group_at(n as int);
                    assert forall|k2: Seq<char>| k2 != k implies self.group(k2) == old(self).group(k2) by {
                        self.lemma_group_lookup_pushed(*old(self), k2);
                    }
                }
            },
        }
    }

    /// Lookups of other keys are unchanged when one entry is replaced by one of the same key.
    proof fn lemma_group_lookup_other(&self, prev: Self, i: int, k2: Seq<char>)
        requires
            self.wf(),
            prev.wf(),
            0 <= i < prev.groups@.len(),
            self.groups@.len() == prev.groups@.len(),
            forall|j: int| 0 <= j < self.groups@.len() && j != i ==> self.groups@[j] == prev.groups@[j],
            self.groups@[i].key@ == prev.groups@[i].key@,
            k2 != prev.groups@[i].key@,
        ensures
            self.group(k2) == prev.group(k2),
    {
        if exists|j: int| 0 <= j < prev.groups@.len() && #[trigger] prev.groups@[j].key@ == k2 {
            let j = choose|j: int| 0 <= j < prev.groups@.len() && #[trigger] prev.groups@[j].key@ == k2;
            prev.lemma_group_at(j);
            assert(self.groups@[j] == prev.groups@[j]);
            self.lemma_group_at(j);
        } else {
            if exists|j: int| 0 <= j < self.groups@.len() && #[trigger] self.groups@[j].key@ == k2 {
                let j = choose|j: int| 0 <= j < self.groups@.len() && #[trigger] self.groups@[j].key@ == k2;
                assert(prev.groups@[j].key@ == k2);
            }
        }
    }

    /// Lookups of other keys are unchanged when an entry of a new key is appended.
    proof fn lemma_group_lookup_pushed(&self, prev: Self, k2: Seq<char>)
        requires
            self.wf(),
            prev.wf(),
            self.groups@.len() == prev.groups@.len() + 1,
            forall|j: int| 0 <= j < prev.groups@.len() ==> self.groups@[j] == prev.groups@[j],
            k2 != self.groups@.last().key@,
        ensures
            self.group(k2) == prev.group(k2),
    {
        if exists|j: int| 0 <= j < prev.groups@.len() && #[trigger] prev.groups@[j].key@ == k2 {
            let j = choose|j: int| 0 <= j < prev.groups@.len() && #[trigger] prev.groups@[j].key@ == k2;
            prev.lemma_group_at(j);
            assert(self.groups@[j] == prev.groups@[j]);
            self.lemma_group_at(j);
        } else {
            if exists|j: int| 0 <= j < self.groups@.len() && #[trigger] self.groups@[j].key@ == k2 {
                let j = choose|j: int| 0 <= j < self.groups@.len() && #[trigger] self.groups@[j].key@ == k2;
                if j < prev.groups@.len() {
                    assert(prev.groups@[j].key@ == k2);
                }
            }
        }
    }

    /// The newest `limit` connections (100 when no limit is given), newest first.
    pub fn get_recent_logs(&self, limit: Option<usize>) -> (r: Vec<ConnectionLog>)
        ensures
            r@ == newest_first(
                self.recent(),
                match limit {
                    Some(l) => l as nat,
                    None => 100,
                },
            ),
    {
        let limit = match limit {
            Some(l) => l,
            None => 100,
        };
        let len = self.recent_logs.len();
        let n = if limit < len {
            limit
        } else {
            len
        };
        let mut out: Vec<ConnectionLog> = Vec::new();
        let mut i: usize = 0;
        while i < n
            invariant
                n <= len,
                len == self.recent_logs@.len(),
                i <= n,
                out@ =~= newest_first(self.recent_logs@, limit as nat).take(i as int),
                n == newest_first(self.recent_logs@, limit as nat).len(),
            decreases n - i,
        {
            out.push(self.recent_logs[len - 1 - i].snapshot());
            i += 1;
        }
        out
    }

    /// All groups, most recently seen first.
    pub fn get_groups(&self) -> (r: Vec<ConnectionGroup>)
        requires
            self.wf(),
        ensures
            r@.map_values(|g: ConnectionGroup| g@).to_multiset() == self.group_list().to_multiset(),
            forall|a: int, b: int| 0 <= a < b < r@.len() ==> r@[a].last_seen >= r@[b].last_seen,
    {
        broadcast use vstd::seq_lib::group_to_multiset_ensures;

        let mut out: Vec<ConnectionGroup> = Vec::new();
        let mut i: usize = 0;
        assert(self.group_list().take(0) =~= Seq::<GroupView>::empty());
        assert(out@.map_values(|g: ConnectionGroup| g@) =~= Seq::<GroupView>::empty());
        while i < self.groups.len()
            invariant
                i <= self.groups@.len(),
                out@.map_values(|g: ConnectionGroup| g@).to_multiset()
                    == self.group_list().take(i as int).to_multiset(),
                forall|a: int, b: int|
                    0 <= a < b < out@.len() ==> out@[a].last_seen >= out@[b].last_seen,
            decreases self.groups.len() - i,
        {
            let g = self.groups[i].group.snapshot();
            let mut p: usize = 0;
            while p < out.len() && out[p].last_seen >= g.last_seen
                invariant
                    p <= out@.len(),
                    forall|a: int| 0 <= a < p ==> out@[a].last_seen >= g.last_seen,
                decreases out.len() - p,
            {
                p += 1;
            }
            let ghost before = out@;
            out.insert(p, g);
            assert(out@.map_values(|x: ConnectionGroup| x@) =~= before.map_values(
                |x: ConnectionGroup| x@,
            ).insert(p as int, g@));
            assert(self.group_list().take(i + 1) =~= self.group_list().take(i as int).push(
                self.groups@[i as int].group@,
            ));
            let ghost bm = before.map_values(|x: ConnectionGroup| x@);
            proof {
                vstd::seq_lib::to_multiset_insert(bm, p as int, g@);
                vstd::seq_lib::to_multiset_build(self.group_list().take(i as int), g@);
            }
            assert(self.group_list().take(i as int).push(g@).to_multiset()
                == self.group_list().take(i as int).to_multiset().insert(g@));
            assert forall|a: int, b: int| 0 <= a < b < out@.len() implies out@[a].last_seen
                >= out@[b].last_seen by {
                if a < p && b == p {
                } else if a < p && b > p {
                    if b - 1 > a {
                        assert(before[a].last_seen >= before[b - 1].last_seen);
                    }
                    if p < before.len() {
                        assert(before[p as int].last_seen < g.last_seen);
                        if b - 1 > p {
                            assert(before[p as int].last_seen >= before[b - 1].last_seen);
                        }
                    }
                } else if a == p {
                    assert(before[p as int].last_seen < g.last_seen);
                    if b - 1 > p {
                        assert(before[p as int].last_seen >= before[b - 1].last_seen);
                    }
                } else if a > p {
                    assert(before[a - 1].last_seen >= before[b - 1].last_seen);
                } else {
                    assert(before[a].last_seen >= before[b].last_seen);
                }
            }
            i += 1;
        }
        assert(self.group_list().take(self.groups@.len() as int) =~= self.group_list());
        out
    }

    /// Forgets all connections and groups.
    pub fn clear_history(&mut self)
        requires
            old(self).wf(),
        ensures
            final(self).wf(),
            final(self).recent() == Seq::<ConnectionLog>::empty(),
            final(self).group_list() == Seq::<GroupView>::empty(),
            forall|k: Seq<char>| final(self).group(k).is_none(),
    {
        self.recent_logs.clear();
        self.groups.clear();
        assert(self.group_list() =~= Seq::<GroupView>::empty());
    }
}


/// The members of a JSON log line of the proxy core that a connection entry is made of.
pub struct LogLineFields {
    /// The string member `session`.
    pub session: Option<String>,
    /// The string member `domain`.
    pub domain: Option<String>,
    /// Whether there is a member `direction`.
    pub has_direction: bool,
    /// The string member `direction`.
    pub direction: Option<String>,
    /// Whether there is a member `network`.
    pub has_network: bool,
    /// The string member `network`.
    pub network: Option<String>,
    /// The string member `outbound`.
    pub outbound: Option<String>,
    /// The integer member `delay`.
    pub delay: Option<i64>,
    /// The string member `source`.
    pub source: Option<String>,
    /// The string member `destination`.
    pub destination: Option<String>,
}

/// Whether the members make a connection entry: `session` and `domain` are strings,
/// and `direction` and `network` are present.
pub open spec fn fields_make_log(f: LogLineFields) -> bool {
    f.session.is_some() && f.domain.is_some() && f.has_direction && f.has_network
}

/// The connection entry that the members make, at time `timestamp`: direction
/// `outbound` and network `tcp` when those members hold no string.
pub open spec fn log_of_fields(f: LogLineFields, log: ConnectionLog, timestamp: i64) -> bool {
    &&& log.session_id@ == f.session.unwrap()@
    &&& log.domain@ == f.domain.unwrap()@
    &&& log.direction@ == text_or(opt_view(f.direction), "outbound"@)
    &&& log.network_type@ == text_or(opt_view(f.network), "tcp"@)
    &&& log.node_group == f.outbound
    &&& log.delay == f.delay
    &&& log.timestamp == timestamp
    &&& log.source_ip == f.source
    &&& log.destination_ip == f.destination
}

/// Makes a connection entry of the members of a log line, at time `timestamp`.
pub fn connection_from_fields(f: LogLineFields, timestamp: i64) -> (r: Option<ConnectionLog>)
    ensures
        r.is_some() == fields_make_log(f),
        r matches Some(log) ==> log_of_fields(f, log, timestamp),
{
    let session_id = match f.session {
        Some(s) => s,
        None => return None,
    };
    let domain = match f.domain {
        Some(s) => s,
        None => return None,
    };
    if !f.has_direction || !f.has_network {
        return None;
    }
    let direction = match f.direction {
        Some(s) => s,
        None => "outbound".to_owned(),
    };
    let network_type = match f.network {
        Some(s) => s,
        None => "tcp".to_owned(),
    };
    Some(
        ConnectionLog {
            session_id,
            domain,
            direction,
            network_type,
            node_group: f.outbound,
            delay: f.delay,
            timestamp,
            source_ip: f.source,
            destination_ip: f.destination,
        },
    )
}

/// The string that a member holds.
pub open spec fn member_text(m: JsonMemberView) -> Option<Seq<char>> {
    match m {
        JsonMemberView::Text(s) => Some(s),
        _ => None,
    }
}

/// Whether the document has the member.
pub open spec fn member_present(m: JsonMemberView) -> bool {
    !(m is NotJson) && !(m is Absent)
}

/// The integer that a member holds.
pub open spec fn member_int(m: JsonMemberView) -> Option<i64> {
    match m {
        JsonMemberView::Integer(n) => Some(n),
        _ => None,
    }
}

/// The string that a member holds.
fn text_of(m: JsonMember) -> (r: Option<String>)
    ensures
        opt_view(r) == member_text(m@),
{
    match m {
        JsonMember::Text(s) => Some(s),
        _ => None,
    }
}

/// The string member `key` of the log line, and whether it is present.
fn member_of_line(line: &str, key: &str) -> (r: (bool, Option<String>))
    ensures
        r.0 == member_present(json_member_of(line@, key@)),
        opt_view(r.1) == member_text(json_member_of(line@, key@)),
{
    let m = json_member(line, key);
    let present = match m {
        JsonMember::NotJson => false,
        JsonMember::Absent => false,
        _ => true,
    };
    (present, text_of(m))
}

/// Reads a connection entry from a JSON log line of the proxy core: none when the
/// line is no JSON document, `session` or `domain` holds no string, or `direction`
/// or `network` is missing. The entry is stamped with the current time.
pub fn parse_connection_from_singbox_log(line: &str) -> (r: Option<ConnectionLog>)
    ensures
        r.is_some() == (json_document(line@) && member_text(json_member_of(line@, "session"@)).is_some()
            && member_text(json_member_of(line@, "domain"@)).is_some() && member_present(
            json_member_of(line@, "direction"@),
        ) && member_present(json_member_of(line@, "network"@))),
        r matches Some(log) ==> {
            &&& Some(log.session_id@) == member_text(json_member_of(line@, "session"@))
            &&& Some(log.domain@) == member_text(json_member_of(line@, "domain"@))
            &&& log.direction@ == text_or(member_text(json_member_of(line@, "direction"@)), "outbound"@)
            &&& log.network_type@ == text_or(member_text(json_member_of(line@, "network"@)), "tcp"@)
            &&& opt_view(log.node_group) == member_text(json_member_of(line@, "outbound"@))
            &&& log.delay == member_int(json_member_of(line@, "delay"@))
            &&& opt_view(log.source_ip) == member_text(json_member_of(line@, "source"@))
            &&& opt_view(log.destination_ip) == member_text(json_member_of(line@, "destination"@))
        },
{
    let session = json_member(line, "session");
    if let JsonMember::NotJson = session {
        return None;
    }
    let (_, domain) = member_of_line(line, "domain");
    let (has_direction, direction) = member_of_line(line, "direction");
    let (has_network, network) = member_of_line(line, "network");
    let (_, outbound) = member_of_line(line, "outbound");
    let delay = match json_member(line, "delay") {
        JsonMember::Integer(n) => Some(n),
        _ => None,
    };
    let (_, source) = member_of_line(line, "source");
    let (_, destination) = member_of_line(line, "destination");
    let f = LogLineFields {
        session: text_of(session),
        domain,
        has_direction,
        direction,
        has_network,
        network,
        outbound,
        delay,
        source,
        destination,
    };
    let ghost gf = f;
    let timestamp = now_millis();
    let r = connection_from_fields(f, timestamp);
    assert(r matches Some(log) ==> log_of_fields(gf, log, timestamp));
    r
}

/// The group that the connections `logs`, added in turn from a cleared logger, make.
pub open spec fn group_after(logs: Seq<ConnectionLog>) -> Option<GroupView>
    decreases logs.len(),
{
    if logs.len() == 0 {
        None
    } else {
        Some(grown(group_after(logs.drop_last()), logs.last(), max_per_group()))
    }
}

/// A group counts every connection of its key, takes its fields and its first time
/// from the first one and its last time from the last one, and keeps the last 10.
pub proof fn law_group_statistics(logs: Seq<ConnectionLog>)
    requires
        logs.len() > 0,
    ensures
        group_after(logs) matches Some(g) && {
            &&& g.count == logs.len()
            &&& g.first_seen == logs[0].timestamp
            &&& g.last_seen == logs.last().timestamp
            &&& g.recent_logs == crate::history::latest(logs, max_per_group())
            &&& g.domain == logs[0].domain
            &&& g.network_type == logs[0].network_type
            &&& g.node_group == logs[0].node_group
            &&& g.direction == logs[0].direction
        },
    decreases logs.len(),
{
    if logs.len() > 1 {
        let prev = logs.drop_last();
        law_group_statistics(prev);
        let g = group_after(prev).unwrap();
        assert(prev[0] == logs[0]);
        if prev.len() + 1 > max_per_group() {
            assert(crate::history::latest(prev, max_per_group()).push(logs.last()).drop_first()
                =~= crate::history::latest(logs, max_per_group()));
        } else {
            assert(crate::history::latest(prev, max_per_group()).push(logs.last()) =~= logs);
        }
        assert(group_after(logs) == Some(grown(Some(g), logs.last(), max_per_group())));
    } else {
        assert(logs.drop_last().len() == 0);
        assert(group_after(logs.drop_last()) == None::<GroupView>);
        assert(seq![logs.last()] =~= logs);
        assert(logs.last() == logs[0]);
    }
}

/// In a well-formed logger at most 500 recent connections are kept, and each group
/// keeps between 1 and 10 connections, no more than it counted, all of its key, the
/// newest of which it was last seen at.
pub proof fn law_logger_bounds(m: &ConnectionLoggerManager, k: Seq<char>)
    requires
        m.wf(),
    ensures
        m.limits() == (max_recent(), max_per_group()),
        m.recent().len() <= max_recent(),
        m.group(k) matches Some(g) ==> {
            &&& 0 < g.recent_logs.len() <= max_per_group()
            &&& g.recent_logs.len() <= g.count
            &&& g.last_seen == g.recent_logs.last().timestamp
            &&& forall|j: int| 0 <= j < g.recent_logs.len() ==> log_key(#[trigger] g.recent_logs[j]) == k
        },
{
    m.lemma_group_bounds(k);
}

impl ConnectionLoggerManager {
    proof fn lemma_group_bounds(&self, k: Seq<char>)
        requires
            self.wf(),
        ensures
            self.group(k) matches Some(g) ==> {
                &&& 0 < g.recent_logs.len() <= max_per_group()
                &&& g.recent_logs.len() <= g.count
                &&& g.last_seen == g.recent_logs.last().timestamp
                &&& forall|j: int|
                    0 <= j < g.recent_logs.len() ==> log_key(#[trigger] g.recent_logs[j]) == k
            },
    {
        if exists|i: int| 0 <= i < self.groups@.len() && #[trigger] self.groups@[i].key@ == k {
            let i = choose|i: int| 0 <= i < self.groups@.len() && #[trigger] self.groups@[i].key@ == k;
            let e = self.groups@[i];
            assert(e.key@ == k);
        }
    }
}

/// The connection just logged is the newest one listed.
pub proof fn law_logged_connection_listed_first(
    before: &ConnectionLoggerManager,
    after: &ConnectionLoggerManager,
    log: ConnectionLog,
)
    requires
        after.recent() == bounded_push(before.recent(), log, max_recent()),
    ensures
        newest_first(after.recent(), 1) == seq![log],
{
    crate::history::law_newest_first_after_push(before.recent(), log, max_recent());
}

/// Adding a connection to a well-formed logger keeps the latest 500 of the recent
/// connections followed by the new one: `min(500, n + 1)` of them, the new one last.
pub proof fn law_add_log_keeps_latest(
    before: &ConnectionLoggerManager,
    after: &ConnectionLoggerManager,
    log: ConnectionLog,
)
    requires
        before.wf(),
        after.recent() == bounded_push(before.recent(), log, max_recent()),
    ensures
        after.recent() == crate::history::latest(before.recent().push(log), max_recent()),
        after.recent().len() == (if before.recent().len() + 1 < max_recent() {
            before.recent().len() + 1
        } else {
            max_recent()
        }),
        after.recent().last() == log,
{
    crate::history::law_bounded_push_keeps_latest(before.recent(), log, max_recent());
}

/// The key of a group: that of its connections' fields.
pub open spec fn key_of_group(g: GroupView) -> Seq<char> {
    group_key_of(g.domain@, g.network_type@, g.node_group, g.direction@)
}

impl ConnectionLoggerManager {
    proof fn lemma_group_list_is_groups(&self)
        requires
            self.wf(),
        ensures
            self.group_list().len() == self.groups@.len(),
            forall|i: int|
                0 <= i < self.groups@.len() ==> #[trigger] self.group_list()[i] == self.groups@[i].group@
                    && key_of_group(self.group_list()[i]) == self.groups@[i].key@,
    {
    }
}

/// Every group the logger holds is listed, and once: each listed group is the group
/// of its key, no two listed groups share a key, and the group of every key held is
/// among them.
pub proof fn law_groups_listed_once(m: &ConnectionLoggerManager)
    requires
        m.wf(),
    ensures
        forall|k: Seq<char>| #[trigger] m.group(k) is Some ==> m.group_list().contains(m.group(k)->Some_0),
        forall|i: int|
            0 <= i < m.group_list().len() ==> m.group(key_of_group(#[trigger] m.group_list()[i]))
                == Some(m.group_list()[i]),
        forall|i: int, j: int|
            0 <= i < j < m.group_list().len() ==> key_of_group(#[trigger] m.group_list()[i])
                != key_of_group(#[trigger] m.group_list()[j]),
{
    m.lemma_group_list_is_groups();
    assert forall|k: Seq<char>| #[trigger] m.group(k) is Some implies m.group_list().contains(
        m.group(k)->Some_0,
    ) by {
        let i = choose|i: int| 0 <= i < m.groups@.len() && #[trigger] m.groups@[i].key@ == k;
        assert(m.group_list()[i] == m.group(k)->Some_0);
    }
    assert forall|i: int| 0 <= i < m.group_list().len() implies m.group(
        key_of_group(#[trigger] m.group_list()[i]),
    ) == Some(m.group_list()[i]) by {
        m.lemma_group_at(i);
    }
    assert forall|i: int, j: int| 0 <= i < j < m.group_list().len() implies key_of_group(
        #[trigger] m.group_list()[i],
    ) != key_of_group(#[trigger] m.group_list()[j]) by {
        assert(m.groups@[i].key@ != m.groups@[j].key@);
    }
}

/// Listing the groups (`get_groups`, whose result holds the same groups as the
/// logger's list) gives one group per key held: each listed group is the group of
/// its key, no two share a key, and the group of every key held is listed.
pub proof fn law_get_groups_lists_every_group(m: &ConnectionLoggerManager, listed: Seq<GroupView>)
    requires
        m.wf(),
        listed.to_multiset() == m.group_list().to_multiset(),
    ensures
        listed.len() == m.group_list().len(),
        forall|k: Seq<char>| #[trigger] m.group(k) is Some ==> listed.contains(m.group(k)->Some_0),
        forall|i: int|
            0 <= i < listed.len() ==> m.group(key_of_group(#[trigger] listed[i])) == Some(listed[i]),
        forall|i: int, j: int|
            0 <= i < j < listed.len() ==> key_of_group(#[trigger] listed[i]) != key_of_group(
                #[trigger] listed[j],
            ),
{
    broadcast use vstd::seq_lib::group_to_multiset_ensures;

    law_groups_listed_once(m);
    let gl = m.group_list();
    assert(listed.len() == gl.len()) by {
        assert(listed.to_multiset().len() == gl.to_multiset().len());
    }
    assert forall|k: Seq<char>| #[trigger] m.group(k) is Some implies listed.contains(m.group(k)->Some_0) by {
        assert(gl.contains(m.group(k)->Some_0));
        assert(gl.to_multiset().count(m.group(k)->Some_0) > 0);
    }
    assert forall|i: int| 0 <= i < listed.len() implies m.group(key_of_group(#[trigger] listed[i]))
        == Some(listed[i]) by {
        assert(listed.contains(listed[i]));
        assert(gl.to_multiset().count(listed[i]) > 0);
        assert(gl.contains(listed[i]));
        let j = choose|j: int| 0 <= j < gl.len() && gl[j] == listed[i];
        assert(m.group(key_of_group(gl[j])) == Some(gl[j]));
    }
    assert(gl.no_duplicates()) by {
        assert forall|a: int, b: int| 0 <= a < gl.len() && 0 <= b < gl.len() && a != b implies gl[a]
            != gl[b] by {
            if a < b {
                assert(key_of_group(gl[a]) != key_of_group(gl[b]));
            } else {
                assert(key_of_group(gl[b]) != key_of_group(gl[a]));
            }
        }
    }
    gl.lemma_multiset_has_no_duplicates();
    listed.lemma_multiset_has_no_duplicates_conv();
    assert forall|i: int, j: int| 0 <= i < j < listed.len() implies key_of_group(#[trigger] listed[i])
        != key_of_group(#[trigger] listed[j]) by {
        assert(listed.contains(listed[i]));
        assert(listed.contains(listed[j]));
        if key_of_group(listed[i]) == key_of_group(listed[j]) {
            assert(listed[i] != listed[j]);
        }
    }
}

} // verus!
