//! The reconnect wrapper's state machine: a send endpoint that is rebuilt
//! on the readiness poll after its session dies. A failed request is never
//! retried; its error surfaces at once.

use vstd::prelude::*;

verus! {

/// Where the wrapper stands with its session.
#[derive(Clone, Copy, Debug, PartialEq, Eq, Structural)]
pub enum ConnectionState {
    /// No session and none being built; the next readiness poll starts one.
    Idle,
    /// A session is being built.
    Connecting,
    /// A live session is at hand.
    Ready,
}

/// What the caller of a readiness poll has to do.
#[derive(Clone, Copy, Debug, PartialEq, Eq, Structural)]
pub enum ReadinessAction {
    /// Ask the connection factory for a new session, then report back.
    StartConnect,
    /// A build is in flight; wait for it and report back.
    AwaitConnect,
    /// The session is live; the next call may go out on it.
    UseSession,
}

/// The reconnect wrapper, reduced to what it decides.
#[derive(Clone, Copy, Debug, PartialEq, Eq, Structural)]
pub struct Reconnect {
    pub state: ConnectionState,
}

impl Reconnect {
    /// A lazy wrapper waits for the first poll; an eager one starts
    /// building at once.
    pub fn new(is_lazy: bool) -> (r: Self)
        ensures
            r.state == (if is_lazy {
                ConnectionState::Idle
            } else {
                ConnectionState::Connecting
            }),
    {
        Reconnect {
            state: if is_lazy {
                ConnectionState::Idle
            } else {
                ConnectionState::Connecting
            },
        }
    }

    /// One readiness poll: idle starts a build, a build in flight is
    /// awaited, a live session is used.
    pub fn poll_ready(&mut self) -> (a: ReadinessAction)
        ensures
            match old(self).state {
                ConnectionState::Idle => a == ReadinessAction::StartConnect && final(self).state
                    == ConnectionState::Connecting,
                ConnectionState::Connecting => a == ReadinessAction::AwaitConnect
                    && final(self).state == ConnectionState::Connecting,
                ConnectionState::Ready => a == ReadinessAction::UseSession && final(self).state
                    == ConnectionState::Ready,
            },
    {
        match self.state {
            ConnectionState::Idle => {
                self.state = ConnectionState::Connecting;
                ReadinessAction::StartConnect
            },
            ConnectionState::Connecting => ReadinessAction::AwaitConnect,
            ConnectionState::Ready => ReadinessAction::UseSession,
        }
    }

    /// The build came back. Success makes the session live; failure goes
    /// back to idle, so the next poll retries the build — the error itself
    /// still surfaces to the caller.
    pub fn on_connect_outcome(&mut self, success: bool)
        requires
            old(self).state == ConnectionState::Connecting,
        ensures
            final(self).state == (if success {
                ConnectionState::Ready
            } else {
                ConnectionState::Idle
            }),
    {
        self.state = if success {
            ConnectionState::Ready
        } else {
            ConnectionState::Idle
        };
    }

    /// A call on the session failed in a way that marks it dead: drop it.
    /// The failed call is not retried; the next poll reconnects.
    pub fn on_call_failure(&mut self)
        ensures
            final(self).state == ConnectionState::Idle,
    {
        self.state = ConnectionState::Idle;
    }
}

} // verus!
