//! The engine's lifecycle: Idle, Starting, Running, Terminating, and back.
use vstd::prelude::*;

verus! {

#[derive(Clone, Copy, Debug, PartialEq, Eq, Structural)]
pub enum EngineState {
    Idle,
    Starting,
    Running,
    Terminating,
}

/// State after a start request: only an idle engine starts.
pub open spec fn after_start_request(s: EngineState) -> EngineState {
    if s == EngineState::Idle {
        EngineState::Starting
    } else {
        s
    }
}

/// State once startup has finished, well or not.
pub open spec fn after_startup(s: EngineState, ok: bool) -> EngineState {
    if s == EngineState::Starting {
        if ok {
            EngineState::Running
        } else {
            EngineState::Idle
        }
    } else {
        s
    }
}

/// State after a stop request: a starting or running engine terminates.
pub open spec fn after_stop_request(s: EngineState) -> EngineState {
    if s == EngineState::Starting || s == EngineState::Running {
        EngineState::Terminating
    } else {
        s
    }
}

/// State once the worker has exited.
pub open spec fn after_worker_exit(s: EngineState) -> EngineState {
    if s == EngineState::Terminating {
        EngineState::Idle
    } else {
        s
    }
}

/// Tracks which state the engine is in, for the controller that starts
/// and stops it.
pub struct Controller {
    state: EngineState,
}

impl Controller {
    pub closed spec fn spec_state(&self) -> EngineState {
        self.state
    }

    pub fn new() -> (r: Controller)
        ensures
            r.spec_state() == EngineState::Idle,
    {
        Controller { state: EngineState::Idle }
    }

    pub fn state(&self) -> (r: EngineState)
        ensures
            r == self.spec_state(),
    {
        self.state
    }

    /// A start was asked for. Returns whether a worker must be launched:
    /// false when an engine is already starting, running or stopping, which
    /// the caller reports as success.
    pub fn request_start(&mut self) -> (launch: bool)
        ensures
            final(self).spec_state() == after_start_request(old(self).spec_state()),
            launch == (old(self).spec_state() == EngineState::Idle),
    {
        if self.state == EngineState::Idle {
            self.state = EngineState::Starting;
            true
        } else {
            false
        }
    }

    /// Startup finished, successfully or not.
    pub fn startup_finished(&mut self, ok: bool)
        ensures
            final(self).spec_state() == after_startup(old(self).spec_state(), ok),
    {
        if self.state == EngineState::Starting {
            self.state = if ok {
                EngineState::Running
            } else {
                EngineState::Idle
            };
        }
    }

    /// A stop was asked for. Returns whether there is a worker to signal;
    /// a second stop is a no-op.
    pub fn request_stop(&mut self) -> (signal: bool)
        ensures
            final(self).spec_state() == after_stop_request(old(self).spec_state()),
            signal == (old(self).spec_state() == EngineState::Starting || old(self).spec_state()
                == EngineState::Running),
    {
        if self.state == EngineState::Starting || self.state == EngineState::Running {
            self.state = EngineState::Terminating;
            true
        } else {
            false
        }
    }

    /// The worker has exited.
    pub fn worker_exited(&mut self)
        ensures
            final(self).spec_state() == after_worker_exit(old(self).spec_state()),
    {
        if self.state == EngineState::Terminating {
            self.state = EngineState::Idle;
        }
    }
}

/// Stopping a running engine and starting it again, with a startup that
/// succeeds, brings it back to Running.
pub proof fn lemma_restart(s: EngineState)
    requires
        s == EngineState::Running,
    ensures
        after_startup(
            after_start_request(after_worker_exit(after_stop_request(s))),
            true,
        ) == EngineState::Running,
{
}

/// A second stop changes nothing.
pub proof fn lemma_stop_idempotent(s: EngineState)
    ensures
        after_stop_request(after_stop_request(s)) == after_stop_request(s),
        after_worker_exit(after_worker_exit(s)) == after_worker_exit(s),
{
}

} // verus!
