//! The connection acceptor: what follows from binding the listening
//! endpoint and from each attempt to accept a connection.

use vstd::prelude::*;

verus! {

/// Where the acceptor stands.
#[derive(Clone, Copy, Debug, PartialEq, Eq, Structural)]
pub enum AcceptorPhase {
    /// The endpoint is not bound yet.
    Starting,
    /// The endpoint is bound and connections are accepted.
    Accepting,
    /// The endpoint could not be bound. Nothing else starts.
    Failed,
}

/// What to do once the attempt to bind is over.
#[derive(Clone, Copy, Debug, PartialEq, Eq, Structural)]
pub enum StartAction {
    /// Start the loop and accept connections.
    Serve,
    /// Give up before anything else starts.
    Abort,
}

/// How an attempt to take in one connection ended.
#[derive(Clone, Copy, Debug, PartialEq, Eq, Structural)]
pub enum Incoming {
    /// The connection was accepted and the protocol handshake completed.
    Established,
    /// The connection could not be accepted.
    AcceptFailed,
    /// The connection was accepted but the handshake failed.
    HandshakeFailed,
}

/// What to do about one incoming connection.
#[derive(Clone, Copy, Debug, PartialEq, Eq, Structural)]
pub enum AcceptAction {
    /// Spawn the connection's ingress and egress tasks: the first on a
    /// sender of the ingress queue, the second on a fresh subscription to
    /// the snapshot stream.
    SpawnPair,
    /// Log the failure and go on accepting.
    Skip,
    /// The acceptor does not serve. Stop accepting.
    Refuse,
}

/// The phase after the attempt to bind. Only an acceptor that is starting
/// is moved by it.
pub open spec fn phase_after_bind(phase: AcceptorPhase, bound: bool) -> AcceptorPhase {
    match phase {
        AcceptorPhase::Starting => if bound {
            AcceptorPhase::Accepting
        } else {
            AcceptorPhase::Failed
        },
        _ => phase,
    }
}

/// What to do in a given phase once the attempt to bind is over.
pub open spec fn start_action(phase: AcceptorPhase) -> StartAction {
    if phase == AcceptorPhase::Accepting {
        StartAction::Serve
    } else {
        StartAction::Abort
    }
}

/// What to do about an incoming connection in a given phase.
pub open spec fn accept_action(phase: AcceptorPhase, incoming: Incoming) -> AcceptAction {
    if phase != AcceptorPhase::Accepting {
        AcceptAction::Refuse
    } else if incoming == Incoming::Established {
        AcceptAction::SpawnPair
    } else {
        AcceptAction::Skip
    }
}

/// The acceptor's state.
#[derive(Clone, Copy, Debug, PartialEq, Eq, Structural)]
pub struct Acceptor {
    phase: AcceptorPhase,
}

impl View for Acceptor {
    type V = AcceptorPhase;

    closed spec fn view(&self) -> AcceptorPhase {
        self.phase
    }
}

impl Acceptor {
    /// An acceptor that has not bound its endpoint yet.
    pub fn new() -> (acceptor: Acceptor)
        ensures
            acceptor@ == AcceptorPhase::Starting,
    {
        Acceptor { phase: AcceptorPhase::Starting }
    }

    /// Where the acceptor stands.
    pub fn phase(&self) -> (phase: AcceptorPhase)
        ensures
            phase == self@,
    {
        self.phase
    }

    /// Takes note of how binding the endpoint ended. A failure is fatal:
    /// the acceptor never serves afterwards.
    pub fn on_bind(&mut self, bound: bool) -> (action: StartAction)
        ensures
            final(self)@ == phase_after_bind(old(self)@, bound),
            action == start_action(final(self)@),
    {
        match self.phase {
            AcceptorPhase::Starting => {
                if bound {
                    self.phase = AcceptorPhase::Accepting;
                } else {
                    self.phase = AcceptorPhase::Failed;
                }
            },
            _ => {},
        }
        match self.phase {
            AcceptorPhase::Accepting => StartAction::Serve,
            _ => StartAction::Abort,
        }
    }

    /// Decides what to do about one incoming connection. The acceptor
    /// itself never changes by it, so a connection that fails costs the
    /// next one nothing.
    pub fn on_incoming(&self, incoming: Incoming) -> (action: AcceptAction)
        ensures
            action == accept_action(self@, incoming),
    {
        match self.phase {
            AcceptorPhase::Accepting => match incoming {
                Incoming::Established => AcceptAction::SpawnPair,
                _ => AcceptAction::Skip,
            },
            _ => AcceptAction::Refuse,
        }
    }
}

} // verus!
