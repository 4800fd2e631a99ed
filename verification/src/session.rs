use vstd::prelude::*;

verus! {

/// Phase of one host-side listener session: `Attaching` while the registry
/// attach is in flight, `Active` while the connection is served, `Detached`
/// once the connection has ended, however it ended.
#[derive(Debug, PartialEq, Eq, Structural, Clone, Copy)]
pub enum SessionPhase {
    Attaching,
    Active,
    Detached,
}

/// What moves a session along: the attach completing, the client closing
/// its side, the host shutting down, or a keepalive going unanswered within
/// its timeout (a silently dead peer, not an error to retry).
#[derive(Debug, PartialEq, Eq, Structural, Clone, Copy)]
pub enum SessionEvent {
    AttachComplete,
    ClientClosed,
    HostShutdown,
    KeepaliveTimeout,
}

/// The phase one event leads to: any ending event reaches `Detached`, and
/// `Detached` is terminal.
pub open spec fn spec_session_step(phase: SessionPhase, ev: SessionEvent) -> SessionPhase {
    match phase {
        SessionPhase::Detached => SessionPhase::Detached,
        _ => match ev {
            SessionEvent::AttachComplete => SessionPhase::Active,
            SessionEvent::ClientClosed => SessionPhase::Detached,
            SessionEvent::HostShutdown => SessionPhase::Detached,
            SessionEvent::KeepaliveTimeout => SessionPhase::Detached,
        },
    }
}

/// Tracks one session's lifecycle and tells the serving task when to
/// unregister from its room: exactly once, whichever path ended the session.
#[derive(Debug)]
pub struct SessionLifecycle {
    pub phase: SessionPhase,
}

impl SessionLifecycle {
    /// A session that has just begun attaching.
    pub fn new() -> (s: SessionLifecycle)
        ensures
            s.phase == SessionPhase::Attaching,
    {
        SessionLifecycle { phase: SessionPhase::Attaching }
    }

    /// Advance on one event. The returned flag asks the caller to detach
    /// the session from its room now; it comes back `true` exactly on the
    /// transition into `Detached`, so the room detach runs exactly once.
    pub fn step(&mut self, ev: SessionEvent) -> (detach_now: bool)
        ensures
            final(self).phase == spec_session_step(old(self).phase, ev),
            detach_now <==> (old(self).phase != SessionPhase::Detached && final(self).phase
                == SessionPhase::Detached),
    {
        let was_detached = matches!(self.phase, SessionPhase::Detached);
        if was_detached {
            return false;
        }
        match ev {
            SessionEvent::AttachComplete => {
                self.phase = SessionPhase::Active;
                false
            },
            _ => {
                self.phase = SessionPhase::Detached;
                true
            },
        }
    }
}

} // verus!
