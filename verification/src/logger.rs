use std::collections::VecDeque;
use vstd::prelude::*;

use crate::clock::now_millis;
use crate::history::{bounded_push, newest_first};

verus! {

/// The level of a log message.
#[derive(Debug, Clone, Copy, PartialEq, Eq, Structural)]
pub enum LogLevel {
    Info,
    Warn,
    Error,
    Debug,
}

/// Where a log message comes from.
#[derive(Debug, Clone, Copy, PartialEq, Eq, Structural)]
pub enum LogType {
    System,
    Singbox,
    Network,
    Proxy,
    Config,
}

/// A log message.
#[derive(Debug)]
pub struct LogMessage {
    pub level: LogLevel,
    pub log_type: LogType,
    pub message: String,
    pub timestamp: i64,
    pub details: Option<serde_json::Value>,
}

impl LogMessage {
    /// A message of the given level, source and text, stamped with `timestamp`
    /// (milliseconds since the Unix epoch), without details.
    pub fn at(level: LogLevel, log_type: LogType, message: String, timestamp: i64) -> (r: LogMessage)
        ensures
            r == (LogMessage { level, log_type, message, timestamp, details: None }),
    {
        LogMessage { level, log_type, message, timestamp, details: None }
    }

    /// A message of the given level, source and text, stamped with the current time,
    /// without details.
    pub fn new(level: LogLevel, log_type: LogType, message: String) -> (r: LogMessage)
        ensures
            r == (LogMessage { level, log_type, message, timestamp: r.timestamp, details: None }),
    {
        LogMessage::at(level, log_type, message, now_millis())
    }

    /// This message with `details` attached.
    pub fn with_details(self, details: serde_json::Value) -> (r: LogMessage)
        ensures
            r == (LogMessage { details: Some(details), ..self }),
    {
        let mut m = self;
        m.details = Some(details);
        m
    }

    /// A copy of this message.
    pub fn snapshot(&self) -> (r: LogMessage)
        ensures
            r == *self,
    {
        let details = match &self.details {
            Some(d) => Some(d.clone()),
            None => None,
        };
        LogMessage {
            level: self.level,
            log_type: self.log_type,
            message: self.message.clone(),
            timestamp: self.timestamp,
            details,
        }
    }
}

/// How many messages the log keeps.
pub open spec fn max_log_history() -> nat {
    1000
}

/// The log: the latest 1000 messages.
pub struct LoggerManager {
    history: VecDeque<LogMessage>,
    max_history: usize,
}

impl LoggerManager {
    /// The messages kept, oldest first.
    pub closed spec fn messages(&self) -> Seq<LogMessage> {
        self.history@
    }

    /// How many messages the log keeps.
    pub closed spec fn capacity(&self) -> nat {
        self.max_history as nat
    }

    /// The log's invariant: at most 1000 messages.
    pub closed spec fn wf(&self) -> bool {
        &&& self.max_history == max_log_history()
        &&& self.history@.len() <= max_log_history()
    }

    /// An empty log.
    pub fn new() -> (r: LoggerManager)
        ensures
            r.wf(),
            r.capacity() == max_log_history(),
            r.messages() == Seq::<LogMessage>::empty(),
    {
        LoggerManager { history: VecDeque::new(), max_history: 1000 }
    }

    /// Keeps `message`, dropping the oldest one beyond 1000.
    pub fn log(&mut self, message: LogMessage)
        requires
            old(self).wf(),
        ensures
            final(self).wf(),
            final(self).messages() == bounded_push(old(self).messages(), message, max_log_history()),
    {
        let ghost m = message;
        self.history.push_back(message);
        if self.history.len() > self.max_history {
            self.history.pop_front();
        }
        assert(self.history@ =~= bounded_push(old(self).messages(), m, max_log_history()));
    }

    /// The newest `limit` messages (100 when no limit is given), newest first.
    pub fn get_history(&self, limit: Option<usize>) -> (r: Vec<LogMessage>)
        ensures
            r@ == newest_first(
                self.messages(),
                match limit {
                    Some(l) => l as nat,
                    None => 100,
                },
            ),
    {
        let limit = match limit {
            Some(l) => l,
            None => 100,
        };
        let len = self.history.len();
        let n = if limit < len {
            limit
        } else {
            len
        };
        let mut out: Vec<LogMessage> = Vec::new();
        let mut i: usize = 0;
        while i < n
            invariant
                n <= len,
                len == self.history@.len(),
                i <= n,
                out@ =~= newest_first(self.history@, limit as nat).take(i as int),
                n == newest_first(self.history@, limit as nat).len(),
            decreases n - i,
        {
            out.push(self.history[len - 1 - i].snapshot());
            i += 1;
        }
        out
    }

    /// Forgets all messages.
    pub fn clear_history(&mut self)
        requires
            old(self).wf(),
        ensures
            final(self).wf(),
            final(self).messages() == Seq::<LogMessage>::empty(),
    {
        self.history.clear();
    }
}


/// A well-formed log keeps at most 1000 messages.
pub proof fn law_log_bounded(m: &LoggerManager)
    requires
        m.wf(),
    ensures
        m.capacity() == max_log_history(),
        m.messages().len() <= max_log_history(),
{
}

/// The message just logged is the newest one listed.
pub proof fn law_logged_message_listed_first(before: &LoggerManager, after: &LoggerManager, message: LogMessage)
    requires
        after.messages() == bounded_push(before.messages(), message, max_log_history()),
    ensures
        newest_first(after.messages(), 1) == seq![message],
{
    crate::history::law_newest_first_after_push(before.messages(), message, max_log_history());
}

} // verus!
