use vstd::prelude::*;

use crate::text::copy_opt_string;

verus! {

/// The state of the proxy core that the front end watches.
#[derive(Debug)]
pub struct GlobalState {
    pub is_running: bool,
    pub is_initialized: bool,
    pub last_error: Option<String>,
    pub start_time: Option<i64>,
    pub config_path: Option<String>,
    pub connection_monitor_enabled: bool,
    /// Further named values.
    pub additional: Vec<(String, String)>,
}

/// The abstract value of a `GlobalState`.
pub struct GlobalStateView {
    pub is_running: bool,
    pub is_initialized: bool,
    pub last_error: Option<String>,
    pub start_time: Option<i64>,
    pub config_path: Option<String>,
    pub connection_monitor_enabled: bool,
    pub additional: Seq<(String, String)>,
}

impl View for GlobalState {
    type V = GlobalStateView;

    open spec fn view(&self) -> GlobalStateView {
        GlobalStateView {
            is_running: self.is_running,
            is_initialized: self.is_initialized,
            last_error: self.last_error,
            start_time: self.start_time,
            config_path: self.config_path,
            connection_monitor_enabled: self.connection_monitor_enabled,
            additional: self.additional@,
        }
    }
}

/// Whether no name occurs twice among the further named values.
pub open spec fn distinct_names(a: Seq<(String, String)>) -> bool {
    forall|i: int, j: int| 0 <= i < j < a.len() ==> #[trigger] a[i].0@ != #[trigger] a[j].0@
}

impl GlobalStateView {
    /// A state's invariant: each further value has a name of its own.
    pub open spec fn wf(self) -> bool {
        distinct_names(self.additional)
    }
}

/// The state before anything happened: not running, not initialized, nothing recorded.
pub open spec fn initial_state() -> GlobalStateView {
    GlobalStateView {
        is_running: false,
        is_initialized: false,
        last_error: None,
        start_time: None,
        config_path: None,
        connection_monitor_enabled: false,
        additional: seq![],
    }
}

impl Default for GlobalState {
    fn default() -> (r: GlobalState)
        ensures
            r@ == initial_state(),
    {
        let r = GlobalState {
            is_running: false,
            is_initialized: false,
            last_error: None,
            start_time: None,
            config_path: None,
            connection_monitor_enabled: false,
            additional: Vec::new(),
        };
        assert(r@.additional =~= Seq::<(String, String)>::empty());
        r
    }
}

impl GlobalState {
    /// A copy of this state.
    pub fn snapshot(&self) -> (r: GlobalState)
        ensures
            r@ == self@,
    {
        let mut additional: Vec<(String, String)> = Vec::new();
        let mut i: usize = 0;
        while i < self.additional.len()
            invariant
                i <= self.additional@.len(),
                additional@ == self.additional@.take(i as int),
            decreases self.additional.len() - i,
        {
            let (k, v) = &self.additional[i];
            additional.push((k.clone(), v.clone()));
            i += 1;
            assert(additional@ =~= self.additional@.take(i as int));
        }
        assert(self.additional@.take(i as int) =~= self.additional@);
        GlobalState {
            is_running: self.is_running,
            is_initialized: self.is_initialized,
            last_error: copy_opt_string(&self.last_error),
            start_time: self.start_time,
            config_path: copy_opt_string(&self.config_path),
            connection_monitor_enabled: self.connection_monitor_enabled,
            additional,
        }
    }
}

/// A change of the core's state.
#[derive(Debug)]
pub enum StateChange {
    /// A start with the given configuration file was asked for.
    StartRequested(String),
    /// The core started at the given time (milliseconds since the Unix epoch).
    Started(i64),
    /// The core failed to start, with the given error.
    StartFailed(String),
    /// The core stopped.
    Stopped,
}

/// The state after `change`.
pub open spec fn applied(s: GlobalStateView, change: StateChange) -> GlobalStateView {
    match change {
        StateChange::StartRequested(path) => GlobalStateView {
            is_initialized: true,
            last_error: None,
            config_path: Some(path),
            ..s
        },
        StateChange::Started(t) => GlobalStateView { is_running: true, start_time: Some(t), ..s },
        StateChange::StartFailed(e) => GlobalStateView { is_running: false, last_error: Some(e), ..s },
        StateChange::Stopped => GlobalStateView { is_running: false, ..s },
    }
}

/// Holds the core's state.
pub struct StateManager {
    state: GlobalState,
}

impl StateManager {
    #[verifier::type_invariant]
    spec fn state_wf(self) -> bool {
        self.state@.wf()
    }

    /// The state held.
    pub closed spec fn current(&self) -> GlobalStateView {
        self.state@
    }

    /// The initial state.
    pub fn new() -> (r: StateManager)
        ensures
            r.current() == initial_state(),
            r.current().wf(),
    {
        StateManager { state: GlobalState::default() }
    }

    /// Applies `change` to the state.
    pub fn update(&mut self, change: StateChange)
        ensures
            final(self).current() == applied(old(self).current(), change),
            final(self).current().wf(),
    {
        proof {
            use_type_invariant(&*self);
        }
        match change {
            StateChange::StartRequested(path) => {
                self.state.is_initialized = true;
                self.state.last_error = None;
                self.state.config_path = Some(path);
            },
            StateChange::Started(t) => {
                self.state.is_running = true;
                self.state.start_time = Some(t);
            },
            StateChange::StartFailed(e) => {
                self.state.is_running = false;
                self.state.last_error = Some(e);
            },
            StateChange::Stopped => {
                self.state.is_running = false;
            },
        }
        proof {
            use_type_invariant(&*self);
        }
    }

    /// A copy of the state.
    pub fn get_state(&self) -> (r: GlobalState)
        ensures
            r@ == self.current(),
            r@.wf(),
    {
        proof {
            use_type_invariant(self);
        }
        self.state.snapshot()
    }
}


/// A start asked for and then made leaves the core running with that configuration,
/// its start time, and no error; a stop after it leaves the core not running.
pub proof fn law_start_then_stop(s: GlobalStateView, path: String, t: i64)
    ensures
        ({
            let started = applied(applied(s, StateChange::StartRequested(path)), StateChange::Started(t));
            &&& started.is_running
            &&& started.is_initialized
            &&& started.config_path == Some(path)
            &&& started.start_time == Some(t)
            &&& started.last_error.is_none()
            &&& !applied(started, StateChange::Stopped).is_running
            &&& applied(started, StateChange::Stopped).config_path == Some(path)
        }),
{
}

/// A failed start leaves the core not running, with the failure recorded; a new
/// request clears it.
pub proof fn law_failed_start_recorded(s: GlobalStateView, e: String, path: String)
    ensures
        !applied(s, StateChange::StartFailed(e)).is_running,
        applied(s, StateChange::StartFailed(e)).last_error == Some(e),
        applied(applied(s, StateChange::StartFailed(e)), StateChange::StartRequested(path)).last_error.is_none(),
{
}


/// Every change keeps each further value's name its own.
pub proof fn law_changes_keep_names_distinct(s: GlobalStateView, change: StateChange)
    requires
        s.wf(),
    ensures
        applied(s, change).wf(),
{
}

/// Asking for a start does not mark the core running: only a start that was made does.
pub proof fn law_request_does_not_run(s: GlobalStateView, path: String)
    ensures
        applied(s, StateChange::StartRequested(path)).is_running == s.is_running,
        applied(s, StateChange::StartRequested(path)).start_time == s.start_time,
{
}

} // verus!
