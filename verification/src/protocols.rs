//! Per-connection protocol workers. Each worker is a state machine: handshake,
//! then registration with the parent service, then the steady state in which
//! data is pumped while the heartbeat guards liveness. The embedding
//! application performs the waiting (socket reads and writes, channel sends,
//! timers) and feeds the outcome of each wait back in as an event; every
//! decision, and the worker's verdict, is made and proved here.

use vstd::prelude::*;

use crate::handshake::{HandshakeError, HandshakeFrame, PROTOCOL_VERSION};
use crate::io::{
    data_frame, models_of, wire_of, ReceiveError, SendError, send_data, sendable,
};
use crate::manager::NetworkData;
use crate::ValidatorId;

verus! {

/// Defines the protocol for communication.
#[derive(Clone, Copy, PartialEq, Eq, Structural, Debug)]
pub enum Protocol {
    /// The current version of the protocol.
    V0,
}

/// Protocol error: why a worker finished.
#[derive(Clone, Copy, PartialEq, Eq, Structural, Debug)]
pub enum ProtocolError {
    /// Error during performing a handshake.
    HandshakeError(HandshakeError),
    /// Sending failed.
    SendError(SendError),
    /// Receiving failed.
    ReceiveError(ReceiveError),
    /// Heartbeat stopped.
    CardiacArrest,
    /// Channel to the parent service closed.
    NoParentConnection,
    /// Data channel closed.
    NoUserConnection,
}

impl From<HandshakeError> for ProtocolError {
    fn from(e: HandshakeError) -> (r: Self) {
        ProtocolError::HandshakeError(e)
    }
}

impl vstd::std_specs::convert::FromSpecImpl<HandshakeError> for ProtocolError {
    open spec fn obeys_from_spec() -> bool {
        true
    }

    open spec fn from_spec(e: HandshakeError) -> ProtocolError {
        ProtocolError::HandshakeError(e)
    }
}

impl From<SendError> for ProtocolError {
    fn from(e: SendError) -> (r: Self) {
        ProtocolError::SendError(e)
    }
}

impl vstd::std_specs::convert::FromSpecImpl<SendError> for ProtocolError {
    open spec fn obeys_from_spec() -> bool {
        true
    }

    open spec fn from_spec(e: SendError) -> ProtocolError {
        ProtocolError::SendError(e)
    }
}

impl From<ReceiveError> for ProtocolError {
    fn from(e: ReceiveError) -> (r: Self) {
        ProtocolError::ReceiveError(e)
    }
}

impl vstd::std_specs::convert::FromSpecImpl<ReceiveError> for ProtocolError {
    open spec fn obeys_from_spec() -> bool {
        true
    }

    open spec fn from_spec(e: ReceiveError) -> ProtocolError {
        ProtocolError::ReceiveError(e)
    }
}

/// The exact text that accounts for each error.
pub open spec fn description_of(e: ProtocolError) -> Seq<char> {
    match e {
        ProtocolError::HandshakeError(h) => match h {
            HandshakeError::Io => "handshake error: broken connection"@,
            HandshakeError::BadSignature => "handshake error: signature not valid"@,
            HandshakeError::IdentityMismatch => "handshake error: peer identity not as expected"@,
            HandshakeError::UnsupportedVersion => "handshake error: protocol version not supported"@,
            HandshakeError::Timeout => "handshake error: timed out"@,
            HandshakeError::SelfConnection => "handshake error: connection to own identity"@,
        },
        ProtocolError::SendError(se) => match se {
            SendError::Io => "send error: broken connection"@,
            SendError::Encode => "send error: could not encode"@,
        },
        ProtocolError::ReceiveError(re) => match re {
            ReceiveError::Io => "receive error: broken connection"@,
            ReceiveError::Decode => "receive error: could not decode"@,
            ReceiveError::FrameTooLarge => "receive error: frame too large"@,
            ReceiveError::UnexpectedEof => "receive error: stream ended inside a frame"@,
        },
        ProtocolError::CardiacArrest => "heartbeat stopped"@,
        ProtocolError::NoParentConnection => "cannot send result to service"@,
        ProtocolError::NoUserConnection => "cannot send data to user"@,
    }
}

impl ProtocolError {
    /// A human-readable account of the error: exactly the stated text.
    pub fn describe(&self) -> (r: &'static str)
        ensures
            r@ == description_of(*self),
    {
        match self {
            ProtocolError::HandshakeError(e) => match e {
                HandshakeError::Io => "handshake error: broken connection",
                HandshakeError::BadSignature => "handshake error: signature not valid",
                HandshakeError::IdentityMismatch => "handshake error: peer identity not as expected",
                HandshakeError::UnsupportedVersion => "handshake error: protocol version not supported",
                HandshakeError::Timeout => "handshake error: timed out",
                HandshakeError::SelfConnection => "handshake error: connection to own identity",
            },
            ProtocolError::SendError(e) => match e {
                SendError::Io => "send error: broken connection",
                SendError::Encode => "send error: could not encode",
            },
            ProtocolError::ReceiveError(e) => match e {
                ReceiveError::Io => "receive error: broken connection",
                ReceiveError::Decode => "receive error: could not decode",
                ReceiveError::FrameTooLarge => "receive error: frame too large",
                ReceiveError::UnexpectedEof => "receive error: stream ended inside a frame",
            },
            ProtocolError::CardiacArrest => "heartbeat stopped",
            ProtocolError::NoParentConnection => "cannot send result to service",
            ProtocolError::NoUserConnection => "cannot send data to user",
        }
    }
}

/// Where a worker stands in its life.
#[derive(Clone, Copy, PartialEq, Eq, Structural, Debug)]
pub enum WorkerPhase {
    /// Waiting for the peer's handshake frame.
    Handshaking,
    /// Handshake accepted; handing the connection over to the parent service.
    Registering,
    /// Steady state: pumping data, heartbeat live.
    Connected,
    /// Finished; the outcome holds the verdict.
    Done,
}

// ---------------------------------------------------------------------------
// Outgoing worker: dials a known peer, then sends data handed in by the
// parent while its heartbeat receiver guards the read half.
// ---------------------------------------------------------------------------
/// State of one outgoing protocol worker.
pub struct OutgoingWorker {
    /// The identity this worker set out to reach.
    pub peer: ValidatorId,
    pub phase: WorkerPhase,
    /// The verdict, exactly when the phase is done.
    pub outcome: Option<Result<(), ProtocolError>>,
}

/// What the application must do after a step.
pub enum OutgoingAction {
    /// Keep waiting for the next event.
    Wait,
    /// Hand the per-connection data channel to the parent service.
    RegisterWithParent,
    /// Frame and write this message to the stream.
    SendFrame(NetworkData),
    /// The worker is finished: drop the stream and every channel end.
    Halt,
}

/// What the application observed while running an outgoing worker.
pub enum OutgoingEvent {
    /// The peer's handshake frame arrived; the embedder's cryptographic check
    /// of its signature over the signed part came back as given.
    HandshakeFrameReceived { frame: HandshakeFrame, sig_ok: bool },
    /// The handshake could not complete: the stream broke or the deadline
    /// passed.
    HandshakeFailed(HandshakeError),
    /// The parent service accepted the data channel.
    Registered,
    /// The parent service was gone when the data channel was handed over.
    ParentGone,
    /// The parent service handed in one message to send.
    DataFromParent(NetworkData),
    /// Writing to the stream failed.
    SendFailed(SendError),
    /// The parent service closed the data channel: a requested, clean end.
    ParentClosedChannel,
    /// The heartbeat receiver saw the peer fall silent past the deadline.
    HeartbeatStopped,
}

/// A finished outgoing worker.
pub open spec fn outgoing_done(peer: ValidatorId, res: Result<(), ProtocolError>) -> OutgoingWorker {
    OutgoingWorker { peer, phase: WorkerPhase::Done, outcome: Some(res) }
}

/// The outgoing worker's transition relation. A finished worker never moves
/// again; an event that does not belong to the current phase changes nothing.
pub open spec fn v0_outgoing_spec(w: OutgoingWorker, e: OutgoingEvent) -> (OutgoingWorker,
    OutgoingAction) {
    if w.phase == WorkerPhase::Done {
        (w, OutgoingAction::Halt)
    } else {
        match e {
            OutgoingEvent::HandshakeFrameReceived { frame, sig_ok } => {
                if w.phase != WorkerPhase::Handshaking {
                    (w, OutgoingAction::Wait)
                } else if frame.version != PROTOCOL_VERSION {
                    (
                        outgoing_done(
                            w.peer,
                            Err(ProtocolError::HandshakeError(HandshakeError::UnsupportedVersion)),
                        ),
                        OutgoingAction::Halt,
                    )
                } else if !sig_ok {
                    (
                        outgoing_done(
                            w.peer,
                            Err(ProtocolError::HandshakeError(HandshakeError::BadSignature)),
                        ),
                        OutgoingAction::Halt,
                    )
                } else if frame@.claimed != w.peer@ {
                    (
                        outgoing_done(
                            w.peer,
                            Err(ProtocolError::HandshakeError(HandshakeError::IdentityMismatch)),
                        ),
                        OutgoingAction::Halt,
                    )
                } else {
                    (
                        (OutgoingWorker {
                            peer: w.peer,
                            phase: WorkerPhase::Registering,
                            outcome: None,
                        }),
                        OutgoingAction::RegisterWithParent,
                    )
                }
            },
            OutgoingEvent::HandshakeFailed(he) => {
                if w.phase == WorkerPhase::Handshaking {
                    (
                        outgoing_done(w.peer, Err(ProtocolError::HandshakeError(he))),
                        OutgoingAction::Halt,
                    )
                } else {
                    (w, OutgoingAction::Wait)
                }
            },
            OutgoingEvent::Registered => {
                if w.phase == WorkerPhase::Registering {
                    (
                        (OutgoingWorker {
                            peer: w.peer,
                            phase: WorkerPhase::Connected,
                            outcome: None,
                        }),
                        OutgoingAction::Wait,
                    )
                } else {
                    (w, OutgoingAction::Wait)
                }
            },
            OutgoingEvent::ParentGone => {
                if w.phase == WorkerPhase::Registering {
                    (
                        outgoing_done(w.peer, Err(ProtocolError::NoParentConnection)),
                        OutgoingAction::Halt,
                    )
                } else {
                    (w, OutgoingAction::Wait)
                }
            },
            OutgoingEvent::DataFromParent(d) => {
                if w.phase == WorkerPhase::Connected {
                    (w, OutgoingAction::SendFrame(d))
                } else {
                    (w, OutgoingAction::Wait)
                }
            },
            OutgoingEvent::SendFailed(se) => {
                if w.phase == WorkerPhase::Connected {
                    (
                        outgoing_done(w.peer, Err(ProtocolError::SendError(se))),
                        OutgoingAction::Halt,
                    )
                } else {
                    (w, OutgoingAction::Wait)
                }
            },
            OutgoingEvent::ParentClosedChannel => {
                if w.phase == WorkerPhase::Connected {
                    (outgoing_done(w.peer, Ok(())), OutgoingAction::Halt)
                } else {
                    (w, OutgoingAction::Wait)
                }
            },
            OutgoingEvent::HeartbeatStopped => {
                if w.phase == WorkerPhase::Connected || w.phase == WorkerPhase::Registering {
                    (outgoing_done(w.peer, Err(ProtocolError::CardiacArrest)), OutgoingAction::Halt)
                } else {
                    (w, OutgoingAction::Wait)
                }
            },
        }
    }
}

impl OutgoingWorker {
    /// A fresh outgoing worker extending its hand to one expected peer.
    pub fn new(peer: ValidatorId) -> (r: OutgoingWorker)
        ensures
            r == (OutgoingWorker { peer, phase: WorkerPhase::Handshaking, outcome: None }),
    {
        OutgoingWorker { peer, phase: WorkerPhase::Handshaking, outcome: None }
    }
}

/// Well-formedness of an outgoing worker: a verdict exists exactly once the
/// worker is done.
pub open spec fn outgoing_wf(w: OutgoingWorker) -> bool {
    (w.phase == WorkerPhase::Done) == (w.outcome is Some)
}

/// Well-formedness is preserved by every step of the outgoing worker.
pub proof fn lemma_outgoing_wf_preserved(w: OutgoingWorker, e: OutgoingEvent)
    requires
        outgoing_wf(w),
    ensures
        outgoing_wf(v0_outgoing_spec(w, e).0),
{
}

/// One step of the outgoing worker, exactly the transition relation.
pub fn v0_outgoing(w: OutgoingWorker, e: OutgoingEvent) -> (r: (OutgoingWorker, OutgoingAction))
    ensures
        r == v0_outgoing_spec(w, e),
{
    if matches!(w.phase, WorkerPhase::Done) {
        return (w, OutgoingAction::Halt);
    }
    match e {
        OutgoingEvent::HandshakeFrameReceived { frame, sig_ok } => {
            if !matches!(w.phase, WorkerPhase::Handshaking) {
                (w, OutgoingAction::Wait)
            } else if frame.version != PROTOCOL_VERSION {
                (
                    OutgoingWorker {
                        peer: w.peer,
                        phase: WorkerPhase::Done,
                        outcome: Some(
                            Err(ProtocolError::HandshakeError(HandshakeError::UnsupportedVersion)),
                        ),
                    },
                    OutgoingAction::Halt,
                )
            } else if !sig_ok {
                (
                    OutgoingWorker {
                        peer: w.peer,
                        phase: WorkerPhase::Done,
                        outcome: Some(
                            Err(ProtocolError::HandshakeError(HandshakeError::BadSignature)),
                        ),
                    },
                    OutgoingAction::Halt,
                )
            } else if !frame.claimed.equals(&w.peer) {
                (
                    OutgoingWorker {
                        peer: w.peer,
                        phase: WorkerPhase::Done,
                        outcome: Some(
                            Err(ProtocolError::HandshakeError(HandshakeError::IdentityMismatch)),
                        ),
                    },
                    OutgoingAction::Halt,
                )
            } else {
                (
                    OutgoingWorker { peer: w.peer, phase: WorkerPhase::Registering, outcome: None },
                    OutgoingAction::RegisterWithParent,
                )
            }
        },
        OutgoingEvent::HandshakeFailed(he) => {
            if matches!(w.phase, WorkerPhase::Handshaking) {
                (
                    OutgoingWorker {
                        peer: w.peer,
                        phase: WorkerPhase::Done,
                        outcome: Some(Err(ProtocolError::HandshakeError(he))),
                    },
                    OutgoingAction::Halt,
                )
            } else {
                (w, OutgoingAction::Wait)
            }
        },
        OutgoingEvent::Registered => {
            if matches!(w.phase, WorkerPhase::Registering) {
                (
                    OutgoingWorker { peer: w.peer, phase: WorkerPhase::Connected, outcome: None },
                    OutgoingAction::Wait,
                )
            } else {
                (w, OutgoingAction::Wait)
            }
        },
        OutgoingEvent::ParentGone => {
            if matches!(w.phase, WorkerPhase::Registering) {
                (
                    OutgoingWorker {
                        peer: w.peer,
                        phase: WorkerPhase::Done,
                        outcome: Some(Err(ProtocolError::NoParentConnection)),
                    },
                    OutgoingAction::Halt,
                )
            } else {
                (w, OutgoingAction::Wait)
            }
        },
        OutgoingEvent::DataFromParent(d) => {
            if matches!(w.phase, WorkerPhase::Connected) {
                (w, OutgoingAction::SendFrame(d))
            } else {
                (w, OutgoingAction::Wait)
            }
        },
        OutgoingEvent::SendFailed(se) => {
            if matches!(w.phase, WorkerPhase::Connected) {
                (
                    OutgoingWorker {
                        peer: w.peer,
                        phase: WorkerPhase::Done,
                        outcome: Some(Err(ProtocolError::SendError(se))),
                    },
                    OutgoingAction::Halt,
                )
            } else {
                (w, OutgoingAction::Wait)
            }
        },
        OutgoingEvent::ParentClosedChannel => {
            if matches!(w.phase, WorkerPhase::Connected) {
                (
                    OutgoingWorker {
                        peer: w.peer,
                        phase: WorkerPhase::Done,
                        outcome: Some(Ok(())),
                    },
                    OutgoingAction::Halt,
                )
            } else {
                (w, OutgoingAction::Wait)
            }
        },
        OutgoingEvent::HeartbeatStopped => {
            if matches!(w.phase, WorkerPhase::Connected) || matches!(
                w.phase,
                WorkerPhase::Registering,
            ) {
                (
                    OutgoingWorker {
                        peer: w.peer,
                        phase: WorkerPhase::Done,
                        outcome: Some(Err(ProtocolError::CardiacArrest)),
                    },
                    OutgoingAction::Halt,
                )
            } else {
                (w, OutgoingAction::Wait)
            }
        },
    }
}

} // verus!

use crate::io::{dec_frame_stream, frame_body_meaning, receive_data, MAX_FRAME_SIZE};
use crate::codec::dec_u32;

verus! {

// ---------------------------------------------------------------------------
// Incoming worker: learns the peer's identity from the handshake, then pumps
// received data to the session user while its heartbeat sender keeps the
// write half alive.
// ---------------------------------------------------------------------------
/// State of one incoming protocol worker.
pub struct IncomingWorker {
    /// The local validator's identity, to refuse loopback handshakes.
    pub local: ValidatorId,
    /// The peer learned from the handshake, once there is one.
    pub peer: Option<ValidatorId>,
    pub phase: WorkerPhase,
    /// The verdict, exactly when the phase is done.
    pub outcome: Option<Result<(), ProtocolError>>,
}

/// What the application must do after a step of an incoming worker.
pub enum IncomingAction {
    /// Keep waiting for the next event.
    Wait,
    /// Hand the peer identity and the exit one-shot to the parent service.
    RegisterWithParent,
    /// Surface this message to the session user.
    DeliverToUser(NetworkData),
    /// The worker is finished: drop the stream and every channel end.
    Halt,
}

/// What the application observed while running an incoming worker.
pub enum IncomingEvent {
    /// The peer's handshake frame arrived; the embedder's cryptographic check
    /// of its signature over the signed part came back as given.
    HandshakeFrameReceived { frame: HandshakeFrame, sig_ok: bool },
    /// The handshake could not complete: the stream broke or the deadline
    /// passed.
    HandshakeFailed(HandshakeError),
    /// The parent service accepted the peer identity and the exit one-shot.
    Registered,
    /// The parent service was gone when the registration was handed over.
    ParentGone,
    /// One data frame arrived and decoded.
    FrameReceived(NetworkData),
    /// Reading from the stream failed.
    ReceiveFailed(ReceiveError),
    /// The session user's channel is gone.
    UserGone,
    /// The exit one-shot resolved: the parent requested this worker close.
    ExitRequested,
    /// The heartbeat sender could no longer write to the peer.
    HeartbeatStopped,
}

/// A finished incoming worker.
pub open spec fn incoming_done(
    local: ValidatorId,
    peer: Option<ValidatorId>,
    res: Result<(), ProtocolError>,
) -> IncomingWorker {
    IncomingWorker { local, peer, phase: WorkerPhase::Done, outcome: Some(res) }
}

/// The incoming worker's transition relation. A finished worker never moves
/// again; an event that does not belong to the current phase changes nothing.
pub open spec fn v0_incoming_spec(w: IncomingWorker, e: IncomingEvent) -> (IncomingWorker,
    IncomingAction) {
    if w.phase == WorkerPhase::Done {
        (w, IncomingAction::Halt)
    } else {
        match e {
            IncomingEvent::HandshakeFrameReceived { frame, sig_ok } => {
                if w.phase != WorkerPhase::Handshaking {
                    (w, IncomingAction::Wait)
                } else if frame.version != PROTOCOL_VERSION {
                    (
                        incoming_done(
                            w.local,
                            w.peer,
                            Err(ProtocolError::HandshakeError(HandshakeError::UnsupportedVersion)),
                        ),
                        IncomingAction::Halt,
                    )
                } else if !sig_ok {
                    (
                        incoming_done(
                            w.local,
                            w.peer,
                            Err(ProtocolError::HandshakeError(HandshakeError::BadSignature)),
                        ),
                        IncomingAction::Halt,
                    )
                } else if frame@.claimed == w.local@ {
                    (
                        incoming_done(
                            w.local,
                            w.peer,
                            Err(ProtocolError::HandshakeError(HandshakeError::SelfConnection)),
                        ),
                        IncomingAction::Halt,
                    )
                } else {
                    (
                        (IncomingWorker {
                            local: w.local,
                            peer: Some(frame.claimed),
                            phase: WorkerPhase::Registering,
                            outcome: None,
                        }),
                        IncomingAction::RegisterWithParent,
                    )
                }
            },
            IncomingEvent::HandshakeFailed(he) => {
                if w.phase == WorkerPhase::Handshaking {
                    (
                        incoming_done(w.local, w.peer, Err(ProtocolError::HandshakeError(he))),
                        IncomingAction::Halt,
                    )
                } else {
                    (w, IncomingAction::Wait)
                }
            },
            IncomingEvent::Registered => {
                if w.phase == WorkerPhase::Registering {
                    (
                        (IncomingWorker {
                            local: w.local,
                            peer: w.peer,
                            phase: WorkerPhase::Connected,
                            outcome: None,
                        }),
                        IncomingAction::Wait,
                    )
                } else {
                    (w, IncomingAction::Wait)
                }
            },
            IncomingEvent::ParentGone => {
                if w.phase == WorkerPhase::Registering {
                    (
                        incoming_done(w.local, w.peer, Err(ProtocolError::NoParentConnection)),
                        IncomingAction::Halt,
                    )
                } else {
                    (w, IncomingAction::Wait)
                }
            },
            IncomingEvent::FrameReceived(d) => {
                if w.phase == WorkerPhase::Connected {
                    (w, IncomingAction::DeliverToUser(d))
                } else {
                    (w, IncomingAction::Wait)
                }
            },
            IncomingEvent::ReceiveFailed(re) => {
                if w.phase == WorkerPhase::Connected {
                    (
                        incoming_done(w.local, w.peer, Err(ProtocolError::ReceiveError(re))),
                        IncomingAction::Halt,
                    )
                } else {
                    (w, IncomingAction::Wait)
                }
            },
            IncomingEvent::UserGone => {
                if w.phase == WorkerPhase::Connected {
                    (
                        incoming_done(w.local, w.peer, Err(ProtocolError::NoUserConnection)),
                        IncomingAction::Halt,
                    )
                } else {
                    (w, IncomingAction::Wait)
                }
            },
            IncomingEvent::ExitRequested => {
                if w.phase == WorkerPhase::Connected {
                    (incoming_done(w.local, w.peer, Ok(())), IncomingAction::Halt)
                } else {
                    (w, IncomingAction::Wait)
                }
            },
            IncomingEvent::HeartbeatStopped => {
                if w.phase == WorkerPhase::Connected || w.phase == WorkerPhase::Registering {
                    (
                        incoming_done(w.local, w.peer, Err(ProtocolError::CardiacArrest)),
                        IncomingAction::Halt,
                    )
                } else {
                    (w, IncomingAction::Wait)
                }
            },
        }
    }
}

/// Well-formedness of an incoming worker: past the handshake it knows its
/// peer, that peer is never the local identity, and a verdict exists exactly
/// once the worker is done.
pub open spec fn incoming_wf(w: IncomingWorker) -> bool {
    &&& (w.phase == WorkerPhase::Registering || w.phase == WorkerPhase::Connected) ==> (match w
        .peer {
        Some(p) => p@ != w.local@,
        None => false,
    })
    &&& w.phase == WorkerPhase::Handshaking ==> w.peer is None
    &&& (w.phase == WorkerPhase::Done) == (w.outcome is Some)
}

impl IncomingWorker {
    /// A fresh incoming worker waiting for an extended hand.
    pub fn new(local: ValidatorId) -> (r: IncomingWorker)
        ensures
            r == (IncomingWorker {
                local,
                peer: None,
                phase: WorkerPhase::Handshaking,
                outcome: None,
            }),
    {
        IncomingWorker { local, peer: None, phase: WorkerPhase::Handshaking, outcome: None }
    }
}

/// One step of the incoming worker, exactly the transition relation.
pub fn v0_incoming(w: IncomingWorker, e: IncomingEvent) -> (r: (IncomingWorker, IncomingAction))
    ensures
        r == v0_incoming_spec(w, e),
{
    if matches!(w.phase, WorkerPhase::Done) {
        return (w, IncomingAction::Halt);
    }
    match e {
        IncomingEvent::HandshakeFrameReceived { frame, sig_ok } => {
            if !matches!(w.phase, WorkerPhase::Handshaking) {
                (w, IncomingAction::Wait)
            } else if frame.version != PROTOCOL_VERSION {
                (
                    IncomingWorker {
                        local: w.local,
                        peer: w.peer,
                        phase: WorkerPhase::Done,
                        outcome: Some(
                            Err(ProtocolError::HandshakeError(HandshakeError::UnsupportedVersion)),
                        ),
                    },
                    IncomingAction::Halt,
                )
            } else if !sig_ok {
                (
                    IncomingWorker {
                        local: w.local,
                        peer: w.peer,
                        phase: WorkerPhase::Done,
                        outcome: Some(
                            Err(ProtocolError::HandshakeError(HandshakeError::BadSignature)),
                        ),
                    },
                    IncomingAction::Halt,
                )
            } else if frame.claimed.equals(&w.local) {
                (
                    IncomingWorker {
                        local: w.local,
                        peer: w.peer,
                        phase: WorkerPhase::Done,
                        outcome: Some(
                            Err(ProtocolError::HandshakeError(HandshakeError::SelfConnection)),
                        ),
                    },
                    IncomingAction::Halt,
                )
            } else {
                (
                    IncomingWorker {
                        local: w.local,
                        peer: Some(frame.claimed),
                        phase: WorkerPhase::Registering,
                        outcome: None,
                    },
                    IncomingAction::RegisterWithParent,
                )
            }
        },
        IncomingEvent::HandshakeFailed(he) => {
            if matches!(w.phase, WorkerPhase::Handshaking) {
                (
                    IncomingWorker {
                        local: w.local,
                        peer: w.peer,
                        phase: WorkerPhase::Done,
                        outcome: Some(Err(ProtocolError::HandshakeError(he))),
                    },
                    IncomingAction::Halt,
                )
            } else {
                (w, IncomingAction::Wait)
            }
        },
        IncomingEvent::Registered => {
            if matches!(w.phase, WorkerPhase::Registering) {
                (
                    IncomingWorker {
                        local: w.local,
                        peer: w.peer,
                        phase: WorkerPhase::Connected,
                        outcome: None,
                    },
                    IncomingAction::Wait,
                )
            } else {
                (w, IncomingAction::Wait)
            }
        },
        IncomingEvent::ParentGone => {
            if matches!(w.phase, WorkerPhase::Registering) {
                (
                    IncomingWorker {
                        local: w.local,
                        peer: w.peer,
                        phase: WorkerPhase::Done,
                        outcome: Some(Err(ProtocolError::NoParentConnection)),
                    },
                    IncomingAction::Halt,
                )
            } else {
                (w, IncomingAction::Wait)
            }
        },
        IncomingEvent::FrameReceived(d) => {
            if matches!(w.phase, WorkerPhase::Connected) {
                (w, IncomingAction::DeliverToUser(d))
            } else {
                (w, IncomingAction::Wait)
            }
        },
        IncomingEvent::ReceiveFailed(re) => {
            if matches!(w.phase, WorkerPhase::Connected) {
                (
                    IncomingWorker {
                        local: w.local,
                        peer: w.peer,
                        phase: WorkerPhase::Done,
                        outcome: Some(Err(ProtocolError::ReceiveError(re))),
                    },
                    IncomingAction::Halt,
                )
            } else {
                (w, IncomingAction::Wait)
            }
        },
        IncomingEvent::UserGone => {
            if matches!(w.phase, WorkerPhase::Connected) {
                (
                    IncomingWorker {
                        local: w.local,
                        peer: w.peer,
                        phase: WorkerPhase::Done,
                        outcome: Some(Err(ProtocolError::NoUserConnection)),
                    },
                    IncomingAction::Halt,
                )
            } else {
                (w, IncomingAction::Wait)
            }
        },
        IncomingEvent::ExitRequested => {
            if matches!(w.phase, WorkerPhase::Connected) {
                (
                    IncomingWorker {
                        local: w.local,
                        peer: w.peer,
                        phase: WorkerPhase::Done,
                        outcome: Some(Ok(())),
                    },
                    IncomingAction::Halt,
                )
            } else {
                (w, IncomingAction::Wait)
            }
        },
        IncomingEvent::HeartbeatStopped => {
            if matches!(w.phase, WorkerPhase::Connected) || matches!(
                w.phase,
                WorkerPhase::Registering,
            ) {
                (
                    IncomingWorker {
                        local: w.local,
                        peer: w.peer,
                        phase: WorkerPhase::Done,
                        outcome: Some(Err(ProtocolError::CardiacArrest)),
                    },
                    IncomingAction::Halt,
                )
            } else {
                (w, IncomingAction::Wait)
            }
        },
    }
}

/// Identity authenticity: the only step that carries an incoming worker out
/// of its handshake phase is the arrival of a handshake frame whose signature
/// the embedder's cryptographic check vouched for; the worker's peer is then
/// exactly the identity that proved possession of its key, and never the
/// local one.
pub proof fn lemma_identity_authenticity(w: IncomingWorker, e: IncomingEvent)
    requires
        w.phase == WorkerPhase::Handshaking,
        v0_incoming_spec(w, e).0.phase == WorkerPhase::Registering,
    ensures
        match e {
            IncomingEvent::HandshakeFrameReceived { frame, sig_ok } => {
                &&& sig_ok
                &&& frame.version == PROTOCOL_VERSION
                &&& v0_incoming_spec(w, e).0.peer == Some(frame.claimed)
                &&& frame@.claimed != w.local@
            },
            _ => false,
        },
{
}

/// Well-formedness is preserved by every step of the incoming worker.
pub proof fn lemma_incoming_wf_preserved(w: IncomingWorker, e: IncomingEvent)
    requires
        incoming_wf(w),
    ensures
        incoming_wf(v0_incoming_spec(w, e).0),
{
}

impl Protocol {
    /// Launches the proper variant of the protocol (receiver half): one step
    /// of the incoming worker.
    pub fn manage_incoming(&self, w: IncomingWorker, e: IncomingEvent) -> (r: (
        IncomingWorker,
        IncomingAction,
    ))
        ensures
            r == (match self {
                Protocol::V0 => v0_incoming_spec(w, e),
            }),
    {
        match self {
            Protocol::V0 => v0_incoming(w, e),
        }
    }

    /// Launches the proper variant of the protocol (sender half): one step of
    /// the outgoing worker.
    pub fn manage_outgoing(&self, w: OutgoingWorker, e: OutgoingEvent) -> (r: (
        OutgoingWorker,
        OutgoingAction,
    ))
        ensures
            r == (match self {
                Protocol::V0 => v0_outgoing_spec(w, e),
            }),
    {
        match self {
            Protocol::V0 => v0_outgoing(w, e),
        }
    }
}

} // verus!

use crate::codec::append_bytes;

verus! {

proof fn lemma_wire_of_snoc(ps: Seq<crate::manager::NetworkDataModel>, m: crate::manager::NetworkDataModel)
    ensures
        wire_of(ps.push(m)) == wire_of(ps) + data_frame(m),
    decreases ps.len(),
{
    if ps.len() == 0 {
        assert(ps.push(m)[0] == m);
        assert(ps.push(m).skip(1) =~= Seq::<crate::manager::NetworkDataModel>::empty());
        assert(ps =~= Seq::<crate::manager::NetworkDataModel>::empty());
        assert(wire_of(Seq::<crate::manager::NetworkDataModel>::empty()) == Seq::<u8>::empty());
        assert(wire_of(ps.push(m)) =~= wire_of(ps) + data_frame(m));
    } else {
        assert(ps.push(m).skip(1) =~= ps.skip(1).push(m));
        lemma_wire_of_snoc(ps.skip(1), m);
        assert(ps.push(m)[0] == ps[0]);
        assert(wire_of(ps.push(m)) == data_frame(ps[0]) + wire_of(ps.skip(1).push(m)));
        assert(wire_of(ps.push(m)) =~= wire_of(ps) + data_frame(m));
    }
}

/// Receives data from the parent service and sends it over the network: the
/// pump of the outgoing worker. Drains the messages the parent handed over,
/// in order, into the exact wire bytes: one data frame per message, first in,
/// first out. Fails with the encode error exactly when some message does not
/// fit the wire format.
pub fn sending(items: &Vec<NetworkData>) -> (r: Result<Vec<u8>, SendError>)
    ensures
        match r {
            Ok(w) => (forall|k: int|
                0 <= k < items@.len() ==> sendable(#[trigger] models_of(items@)[k])) && w@
                == wire_of(models_of(items@)),
            Err(e) => e == SendError::Encode && (exists|k: int|
                0 <= k < items@.len() && !sendable(#[trigger] models_of(items@)[k])),
        },
{
    let ghost ms = models_of(items@);
    let mut out: Vec<u8> = Vec::new();
    let mut i: usize = 0;
    while i < items.len()
        invariant
            i <= items@.len(),
            ms == models_of(items@),
            out@ == wire_of(ms.subrange(0, i as int)),
            forall|k: int| 0 <= k < i ==> sendable(#[trigger] ms[k]),
        decreases items@.len() - i,
    {
        match send_data(&items[i]) {
            Ok(frame) => {
                proof {
                    assert(ms[i as int] == items@[i as int]@);
                    lemma_wire_of_snoc(ms.subrange(0, i as int), ms[i as int]);
                    assert(ms.subrange(0, i as int).push(ms[i as int]) =~= ms.subrange(0, i + 1));
                }
                append_bytes(&mut out, &frame);
                i += 1;
            },
            Err(e) => {
                proof {
                    assert(!sendable(ms[i as int]));
                }
                return Err(e);
            },
        }
    }
    proof {
        assert(ms.subrange(0, ms.len() as int) =~= ms);
    }
    Ok(out)
}

proof fn lemma_dec_frame_stream_unfold(s: Seq<u8>, i: int)
    requires
        0 <= i < s.len(),
    ensures
        dec_frame_stream(s, i) == (match dec_u32(s, i) {
            Some(n) => {
                if 1 <= n.0 && n.0 <= MAX_FRAME_SIZE && n.1 + n.0 <= s.len() {
                    match frame_body_meaning(s.subrange(n.1, n.1 + n.0 as int)) {
                        Ok(v) => match dec_frame_stream(s, n.1 + n.0 as int) {
                            Some(tail) => Some(
                                match v {
                                    Some(m) => seq![m] + tail,
                                    None => tail,
                                },
                            ),
                            None => None,
                        },
                        Err(_) => None,
                    }
                } else {
                    None
                }
            },
            None => None,
        }),
{
}

/// Receives data from the network and surfaces it to the parent service: the
/// pump of the incoming worker. Parses a stream of frames from the wire
/// bytes; heartbeats are swallowed here and never reach the user; the carried
/// messages come out in wire order. Yields nothing exactly when the stream is
/// not a well-formed sequence of frames within the size limit.
pub fn receiving(wire: &Vec<u8>) -> (r: Option<Vec<NetworkData>>)
    ensures
        match r {
            Some(v) => dec_frame_stream(wire@, 0) == Some(models_of(v@)),
            None => dec_frame_stream(wire@, 0) is None,
        },
{
    let mut out: Vec<NetworkData> = Vec::new();
    let mut cur: usize = 0;
    let total: usize = wire.len();
    proof {
        assert(wire@.len() == total as int);
        let d0 = dec_frame_stream(wire@, 0);
        if d0 is Some {
            assert(models_of(out@) + d0->Some_0 =~= d0->Some_0);
        }
    }
    while cur < wire.len()
        invariant
            cur <= wire@.len(),
            wire@.len() <= usize::MAX,
            dec_frame_stream(wire@, 0) == (match dec_frame_stream(wire@, cur as int) {
                Some(tail) => Some(models_of(out@) + tail),
                None => None::<Seq<crate::manager::NetworkDataModel>>,
            }),
        decreases wire@.len() - cur,
    {
        proof {
            lemma_dec_frame_stream_unfold(wire@, cur as int);
        }
        match crate::codec::read_u32(wire, cur) {
            Some((n, j)) => {
                if n < 1 || n > MAX_FRAME_SIZE || (n as usize) > wire.len() - j {
                    return None;
                }
                let need = n as usize;
                let mut body: Vec<u8> = Vec::new();
                let mut k: usize = 0;
                while k < need
                    invariant
                        k <= need,
                        j + need <= wire@.len(),
                        wire@.len() <= usize::MAX,
                        body@ == wire@.subrange(j as int, j as int + k as int),
                    decreases need - k,
                {
                    body.push(wire[j + k]);
                    proof {
                        assert(body@ =~= wire@.subrange(j as int, j as int + k as int + 1));
                    }
                    k += 1;
                }
                let next = j + need;
                match receive_data(&body) {
                    Ok(delivered) => {
                        proof {
                            let inner = dec_frame_stream(wire@, next as int);
                            if inner is Some {
                                let tail = inner->Some_0;
                                match &delivered {
                                    Some(d) => {
                                        assert(models_of(out@.push(*d)) =~= models_of(out@) + seq![
                                            d@,
                                        ]);
                                        assert(models_of(out@) + (seq![d@] + tail) =~= models_of(
                                            out@.push(*d),
                                        ) + tail);
                                    },
                                    None => {},
                                }
                            }
                        }
                        match delivered {
                            Some(d) => {
                                out.push(d);
                            },
                            None => {},
                        }
                        cur = next;
                    },
                    Err(_) => {
                        return None;
                    },
                }
            },
            None => {
                return None;
            },
        }
    }
    proof {
        assert(dec_frame_stream(wire@, cur as int) == Some(
            Seq::<crate::manager::NetworkDataModel>::empty(),
        ));
        assert(models_of(out@) + Seq::<crate::manager::NetworkDataModel>::empty() =~= models_of(
            out@,
        ));
    }
    Some(out)
}

} // verus!
