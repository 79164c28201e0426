//! Data model of the session network and the connection manager that drives
//! one outgoing dialer and one incoming acceptor slot per peer.

use vstd::prelude::*;

use crate::addresses_view;
use crate::discovery::{DiscoveryMessage, DiscoveryMessageModel};
use crate::AddressModel;
use crate::Multiaddress;
use crate::NodeIndex;
use crate::SessionId;

verus! {

/// A signature by a validator's private key over a canonical encoding.
/// The bytes are opaque here; checking them is the embedder's cryptography.
#[derive(Clone, PartialEq, Eq, Debug, Hash)]
pub struct Signature {
    pub bytes: Vec<u8>,
}

impl View for Signature {
    type V = Seq<u8>;

    open spec fn view(&self) -> Seq<u8> {
        self.bytes@
    }
}

/// Data validators use to authenticate themselves for a single session
/// and disseminate their addresses.
#[derive(Clone, PartialEq, Eq, Debug, Hash)]
pub struct AuthData {
    pub addresses: Vec<Multiaddress>,
    pub node_id: NodeIndex,
    pub session_id: SessionId,
}

/// Mathematical value of an [`AuthData`].
pub ghost struct AuthDataModel {
    pub addresses: Seq<AddressModel>,
    pub node_id: NodeIndex,
    pub session_id: SessionId,
}

impl View for AuthData {
    type V = AuthDataModel;

    open spec fn view(&self) -> AuthDataModel {
        AuthDataModel {
            addresses: addresses_view(self.addresses@),
            node_id: self.node_id,
            session_id: self.session_id,
        }
    }
}

impl AuthData {
    pub fn new(addresses: Vec<Multiaddress>, node_id: NodeIndex, session_id: SessionId) -> (r:
        AuthData)
        ensures
            r@ == (AuthDataModel { addresses: addresses_view(addresses@), node_id, session_id }),
    {
        AuthData { addresses, node_id, session_id }
    }

    /// The session this authentication speaks for.
    pub fn session(&self) -> (r: SessionId)
        ensures
            r == self@.session_id,
    {
        self.session_id
    }

    /// The author's position within the session's member list.
    pub fn creator(&self) -> (r: NodeIndex)
        ensures
            r == self@.node_id,
    {
        self.node_id
    }

    /// The contact points the author advertises, in their original order.
    pub fn addresses(&self) -> (r: Vec<Multiaddress>)
        ensures
            addresses_view(r@) == self@.addresses,
    {
        let mut out: Vec<Multiaddress> = Vec::new();
        let mut i: usize = 0;
        while i < self.addresses.len()
            invariant
                i <= self.addresses@.len(),
                out@.len() == i,
                forall|k: int| 0 <= k < i ==> out@[k]@ == self.addresses@[k]@,
            decreases self.addresses@.len() - i,
        {
            out.push(self.addresses[i].duplicate());
            i += 1;
        }
        proof {
            assert(addresses_view(out@) =~= addresses_view(self.addresses@));
        }
        out
    }
}

/// A full authentication: signed [`AuthData`].
pub type Authentication = (AuthData, Signature);

/// Mathematical value of an [`Authentication`].
pub ghost struct AuthenticationModel {
    pub data: AuthDataModel,
    pub signature: Seq<u8>,
}

/// The value an authentication pair denotes.
pub open spec fn authentication_view(a: Authentication) -> AuthenticationModel {
    AuthenticationModel { data: a.0@, signature: a.1@ }
}

/// Application data tagged with the session it belongs to.
pub type DataInSession = (Vec<u8>, SessionId);

/// The data that should be sent to the network service: either a discovery
/// message or application data bound to one session.
#[derive(Clone, PartialEq, Eq, Debug, Hash)]
pub enum NetworkData {
    Meta(DiscoveryMessage),
    Data(Vec<u8>, SessionId),
}

/// Mathematical value of a [`NetworkData`].
pub ghost enum NetworkDataModel {
    Meta(DiscoveryMessageModel),
    Data(Seq<u8>, SessionId),
}

impl View for NetworkData {
    type V = NetworkDataModel;

    open spec fn view(&self) -> NetworkDataModel {
        match self {
            NetworkData::Meta(d) => NetworkDataModel::Meta(d@),
            NetworkData::Data(p, sid) => NetworkDataModel::Data(p@, *sid),
        }
    }
}

impl From<DataInSession> for NetworkData {
    fn from(data: DataInSession) -> (r: Self) {
        NetworkData::Data(data.0, data.1)
    }
}

impl vstd::std_specs::convert::FromSpecImpl<DataInSession> for NetworkData {
    open spec fn obeys_from_spec() -> bool {
        true
    }

    open spec fn from_spec(data: DataInSession) -> NetworkData {
        NetworkData::Data(data.0, data.1)
    }
}

} // verus!

verus! {

/// Base of the dial backoff, in milliseconds.
pub const DIAL_BACKOFF_BASE_MS: u64 = 1000;

/// Cap of the dial backoff, in milliseconds.
pub const DIAL_BACKOFF_CAP_MS: u64 = 60000;

/// The outgoing direction of one peer: a dialer running without a handshake
/// yet, a connected worker the manager may push data through, or a dead slot
/// waiting out its backoff before the next dial. The backoff travels with the
/// slot.
#[derive(Clone, Copy, PartialEq, Eq, Structural, Debug)]
pub enum OutgoingSlot {
    Dialing { backoff_ms: u64 },
    Connected { backoff_ms: u64 },
    Dead { backoff_ms: u64 },
}

/// Whether an outgoing slot holds a live worker.
pub open spec fn outgoing_live(s: OutgoingSlot) -> bool {
    s is Dialing || s is Connected
}

/// What the manager does with a completed incoming handshake.
#[derive(Clone, Copy, PartialEq, Eq, Structural, Debug)]
pub enum IncomingDecision {
    /// The handshake resolved to the local identity: refused, no slot taken.
    RejectSelf,
    /// A live incoming worker existed for this peer: fire its exit one-shot;
    /// the newer worker takes the slot.
    CloseOlderAndAccept,
    /// The slot was free; the worker takes it.
    Accept,
}

/// The connection manager of one session: per peer (by position), one
/// outgoing slot and one incoming acceptor slot. Connections are keyed by
/// identity, never by address.
pub struct ConnectionManager {
    pub own_index: usize,
    pub outgoing: Vec<OutgoingSlot>,
    pub incoming_live: Vec<bool>,
}

impl ConnectionManager {
    /// Well-formedness: one slot per member in each direction, the local
    /// position lies in the session, and no slot of the local position is
    /// ever live — the manager never dials or accepts its own identity.
    pub open spec fn wf(&self) -> bool {
        &&& self.outgoing@.len() == self.incoming_live@.len()
        &&& self.own_index < self.outgoing@.len()
        &&& !outgoing_live(self.outgoing@[self.own_index as int])
        &&& !self.incoming_live@[self.own_index as int]
    }

    /// Sets up the manager for a session of `n` members: a dialer is started
    /// for every peer, none for the local position, and no incoming worker is
    /// live yet.
    pub fn new(own_index: usize, n: usize) -> (r: ConnectionManager)
        requires
            own_index < n,
        ensures
            r.wf(),
            r.own_index == own_index,
            r.outgoing@.len() == n,
            r.incoming_live@.len() == n,
            forall|k: int|
                0 <= k < n && k != own_index ==> r.outgoing@[k] == (OutgoingSlot::Dialing {
                    backoff_ms: DIAL_BACKOFF_BASE_MS,
                }),
            r.outgoing@[own_index as int] == (OutgoingSlot::Dead {
                backoff_ms: DIAL_BACKOFF_BASE_MS,
            }),
            forall|k: int| 0 <= k < n ==> !r.incoming_live@[k],
    {
        let mut outgoing: Vec<OutgoingSlot> = Vec::new();
        let mut incoming_live: Vec<bool> = Vec::new();
        let mut i: usize = 0;
        while i < n
            invariant
                i <= n,
                outgoing@.len() == i,
                incoming_live@.len() == i,
                forall|k: int|
                    0 <= k < i && k != own_index ==> outgoing@[k] == (OutgoingSlot::Dialing {
                        backoff_ms: DIAL_BACKOFF_BASE_MS,
                    }),
                i > own_index ==> outgoing@[own_index as int] == (OutgoingSlot::Dead {
                    backoff_ms: DIAL_BACKOFF_BASE_MS,
                }),
                forall|k: int| 0 <= k < i ==> !incoming_live@[k],
            decreases n - i,
        {
            if i == own_index {
                outgoing.push(OutgoingSlot::Dead { backoff_ms: DIAL_BACKOFF_BASE_MS });
            } else {
                outgoing.push(OutgoingSlot::Dialing { backoff_ms: DIAL_BACKOFF_BASE_MS });
            }
            incoming_live.push(false);
            i += 1;
        }
        ConnectionManager { own_index, outgoing, incoming_live }
    }

    /// An outgoing dialer completed its handshake: the slot becomes
    /// connected, its backoff kept for the next death.
    pub fn on_outgoing_connected(&mut self, peer: usize)
        requires
            old(self).wf(),
            peer < old(self).outgoing@.len(),
            peer != old(self).own_index,
            old(self).outgoing@[peer as int] is Dialing,
        ensures
            final(self).wf(),
            final(self).own_index == old(self).own_index,
            final(self).incoming_live@ == old(self).incoming_live@,
            final(self).outgoing@ == old(self).outgoing@.update(
                peer as int,
                (OutgoingSlot::Connected {
                    backoff_ms: old(self).outgoing@[peer as int]->Dialing_backoff_ms,
                }),
            ),
    {
        let b: u64 = match self.outgoing[peer] {
            OutgoingSlot::Dialing { backoff_ms } => backoff_ms,
            OutgoingSlot::Connected { backoff_ms } => backoff_ms,
            OutgoingSlot::Dead { backoff_ms } => backoff_ms,
        };
        self.outgoing.set(peer, OutgoingSlot::Connected { backoff_ms: b });
    }

    /// An outgoing worker exited: the slot is dead, the backoff reset after a
    /// clean exit and doubled (up to the cap) after a dirty one. The dialer
    /// respawns it after that backoff.
    pub fn on_outgoing_exit(&mut self, peer: usize, clean: bool)
        requires
            old(self).wf(),
            peer < old(self).outgoing@.len(),
            peer != old(self).own_index,
        ensures
            final(self).wf(),
            final(self).own_index == old(self).own_index,
            final(self).incoming_live@ == old(self).incoming_live@,
            final(self).outgoing@ == old(self).outgoing@.update(
                peer as int,
                (OutgoingSlot::Dead {
                    backoff_ms: if clean {
                        DIAL_BACKOFF_BASE_MS
                    } else {
                        next_backoff_spec(slot_backoff(old(self).outgoing@[peer as int]))
                    },
                }),
            ),
    {
        let b: u64 = match self.outgoing[peer] {
            OutgoingSlot::Dialing { backoff_ms } => backoff_ms,
            OutgoingSlot::Connected { backoff_ms } => backoff_ms,
            OutgoingSlot::Dead { backoff_ms } => backoff_ms,
        };
        let nb: u64 = if clean {
            DIAL_BACKOFF_BASE_MS
        } else {
            next_backoff(b)
        };
        self.outgoing.set(peer, OutgoingSlot::Dead { backoff_ms: nb });
    }

    /// A dead slot's backoff elapsed: the dialer runs again.
    pub fn on_dial_retry(&mut self, peer: usize)
        requires
            old(self).wf(),
            peer < old(self).outgoing@.len(),
            peer != old(self).own_index,
            old(self).outgoing@[peer as int] is Dead,
        ensures
            final(self).wf(),
            final(self).own_index == old(self).own_index,
            final(self).incoming_live@ == old(self).incoming_live@,
            final(self).outgoing@ == old(self).outgoing@.update(
                peer as int,
                (OutgoingSlot::Dialing {
                    backoff_ms: slot_backoff(old(self).outgoing@[peer as int]),
                }),
            ),
    {
        let b: u64 = match self.outgoing[peer] {
            OutgoingSlot::Dialing { backoff_ms } => backoff_ms,
            OutgoingSlot::Connected { backoff_ms } => backoff_ms,
            OutgoingSlot::Dead { backoff_ms } => backoff_ms,
        };
        self.outgoing.set(peer, OutgoingSlot::Dialing { backoff_ms: b });
    }

    /// An incoming handshake completed for a peer. The local identity is
    /// refused; otherwise the newer worker always takes the slot, and if an
    /// older one was live its exit one-shot is to be fired — newer wins,
    /// unconditionally, so at most one incoming worker per peer is ever live.
    pub fn on_incoming_handshake(&mut self, peer: usize) -> (r: IncomingDecision)
        requires
            old(self).wf(),
            peer < old(self).incoming_live@.len(),
        ensures
            final(self).wf(),
            final(self).own_index == old(self).own_index,
            final(self).outgoing@ == old(self).outgoing@,
            peer == old(self).own_index ==> r == IncomingDecision::RejectSelf,
            peer == old(self).own_index ==> final(self).incoming_live@ == old(
                self,
            ).incoming_live@,
            peer != old(self).own_index ==> final(self).incoming_live@ == old(
                self,
            ).incoming_live@.update(peer as int, true),
            peer != old(self).own_index ==> r == (if old(self).incoming_live@[peer as int] {
                IncomingDecision::CloseOlderAndAccept
            } else {
                IncomingDecision::Accept
            }),
    {
        if peer == self.own_index {
            return IncomingDecision::RejectSelf;
        }
        let was_live: bool = self.incoming_live[peer];
        self.incoming_live.set(peer, true);
        if was_live {
            IncomingDecision::CloseOlderAndAccept
        } else {
            IncomingDecision::Accept
        }
    }

    /// An incoming worker exited: its slot is free again.
    pub fn on_incoming_exit(&mut self, peer: usize)
        requires
            old(self).wf(),
            peer < old(self).incoming_live@.len(),
        ensures
            final(self).wf(),
            final(self).own_index == old(self).own_index,
            final(self).outgoing@ == old(self).outgoing@,
            final(self).incoming_live@ == old(self).incoming_live@.update(peer as int, false),
    {
        self.incoming_live.set(peer, false);
    }

    /// Outbound routing: a payload for a peer is forwarded exactly when that
    /// peer's outgoing worker is connected; otherwise it is dropped and
    /// consensus retransmits.
    pub fn route_outbound(&self, peer: usize) -> (r: bool)
        requires
            peer < self.outgoing@.len(),
        ensures
            r == (self.outgoing@[peer as int] is Connected),
    {
        matches!(self.outgoing[peer], OutgoingSlot::Connected { .. })
    }
}

/// The backoff a slot carries.
pub open spec fn slot_backoff(s: OutgoingSlot) -> u64 {
    match s {
        OutgoingSlot::Dialing { backoff_ms } => backoff_ms,
        OutgoingSlot::Connected { backoff_ms } => backoff_ms,
        OutgoingSlot::Dead { backoff_ms } => backoff_ms,
    }
}

/// The doubled backoff, capped.
pub open spec fn next_backoff_spec(cur: u64) -> u64 {
    if cur >= 30000 {
        DIAL_BACKOFF_CAP_MS
    } else {
        (cur * 2) as u64
    }
}

/// Doubles a dial backoff up to the cap.
pub fn next_backoff(cur: u64) -> (r: u64)
    ensures
        r == next_backoff_spec(cur),
{
    if cur >= 30000 {
        DIAL_BACKOFF_CAP_MS
    } else {
        cur * 2
    }
}

/// Applies the dial jitter: a randomly drawn factor of 80% to 120%, in parts
/// per thousand, handed in by the embedder.
pub fn apply_jitter(backoff_ms: u64, jitter_permille: u64) -> (r: u64)
    requires
        backoff_ms <= DIAL_BACKOFF_CAP_MS,
        800 <= jitter_permille <= 1200,
    ensures
        r == backoff_ms * jitter_permille / 1000,
{
    proof {
        assert(backoff_ms * jitter_permille <= 60000 * 1200) by (nonlinear_arith)
            requires
                backoff_ms <= 60000,
                jitter_permille <= 1200,
        ;
    }
    backoff_ms * jitter_permille / 1000
}

/// No self-loop: a well-formed manager holds no live worker, in either
/// direction, whose peer is the local identity.
pub proof fn lemma_no_self_loop(m: ConnectionManager)
    requires
        m.wf(),
    ensures
        !outgoing_live(m.outgoing@[m.own_index as int]),
        !m.incoming_live@[m.own_index as int],
{
}

/// How many connected outgoing workers the manager holds for one peer.
pub open spec fn connected_outgoing_count(m: ConnectionManager, peer: int) -> int {
    if m.outgoing@[peer] is Connected {
        1
    } else {
        0
    }
}

/// Single dialer: the manager drives the outgoing direction of each peer as
/// one slot, so at most one outgoing worker per peer is ever connected.
pub proof fn lemma_single_dialer(m: ConnectionManager, peer: int)
    requires
        m.wf(),
        0 <= peer < m.outgoing@.len(),
    ensures
        connected_outgoing_count(m, peer) <= 1,
{
}

/// How many incoming workers the manager holds for one peer.
pub open spec fn live_incoming_count(m: ConnectionManager, peer: int) -> int {
    if m.incoming_live@[peer] {
        1
    } else {
        0
    }
}

/// Newer wins: at most one incoming worker per peer is live, and when a
/// second handshake completes for an occupied slot the manager's decision
/// closes the older worker in the same step that seats the newer one.
pub proof fn lemma_newer_wins(m: ConnectionManager, peer: usize)
    requires
        m.wf(),
        (peer as int) < m.incoming_live@.len(),
    ensures
        live_incoming_count(m, peer as int) <= 1,
{
}

// ---------------------------------------------------------------------------
// Session registry: the set of live sessions and the inbound demultiplexer.
// ---------------------------------------------------------------------------
/// The live sessions, each with its consensus-facing channel pair held by the
/// embedder under the same index.
pub struct SessionRegistry {
    pub sessions: Vec<SessionId>,
}

impl SessionRegistry {
    /// Well-formedness: one entry per live session.
    pub open spec fn wf(&self) -> bool {
        forall|i: int, j: int|
            0 <= i < j < self.sessions@.len() ==> self.sessions@[i] != self.sessions@[j]
    }

    /// An empty registry.
    pub fn new() -> (r: SessionRegistry)
        ensures
            r.wf(),
            r.sessions@.len() == 0,
    {
        SessionRegistry { sessions: Vec::new() }
    }

    /// The index of a session, if it is live.
    pub fn find(&self, session_id: SessionId) -> (r: Option<usize>)
        ensures
            match r {
                Some(i) => (i as int) < self.sessions@.len() && self.sessions@[i as int]
                    == session_id,
                None => forall|k: int|
                    0 <= k < self.sessions@.len() ==> self.sessions@[k] != session_id,
            },
    {
        let mut i: usize = 0;
        while i < self.sessions.len()
            invariant
                i <= self.sessions@.len(),
                forall|k: int| 0 <= k < i ==> self.sessions@[k] != session_id,
            decreases self.sessions@.len() - i,
        {
            if self.sessions[i].0 == session_id.0 {
                return Some(i);
            }
            i += 1;
        }
        None
    }

    /// Starts a session: registered unless already live; says whether it was
    /// new.
    pub fn start_session(&mut self, session_id: SessionId) -> (r: bool)
        requires
            old(self).wf(),
        ensures
            final(self).wf(),
            r == (forall|k: int|
                0 <= k < old(self).sessions@.len() ==> old(self).sessions@[k] != session_id),
            r ==> final(self).sessions@ == old(self).sessions@.push(session_id),
            !r ==> final(self).sessions@ == old(self).sessions@,
    {
        match self.find(session_id) {
            Some(_) => false,
            None => {
                self.sessions.push(session_id);
                true
            },
        }
    }

    /// Stops a session: its entry leaves the registry (the embedder closes
    /// the channels and exit one-shots held under the same index); says
    /// whether it was live.
    pub fn stop_session(&mut self, session_id: SessionId) -> (r: bool)
        requires
            old(self).wf(),
        ensures
            final(self).wf(),
            r == !(forall|k: int|
                0 <= k < old(self).sessions@.len() ==> old(self).sessions@[k] != session_id),
            forall|k: int|
                0 <= k < final(self).sessions@.len() ==> final(self).sessions@[k] != session_id,
            r ==> (exists|i: int|
                0 <= i < old(self).sessions@.len() && old(self).sessions@[i] == session_id
                    && final(self).sessions@ == old(self).sessions@.remove(i)),
            !r ==> final(self).sessions@ == old(self).sessions@,
    {
        match self.find(session_id) {
            Some(i) => {
                self.sessions.remove(i);
                proof {
                    assert(old(self).sessions@[i as int] == session_id && self.sessions@ == old(
                        self,
                    ).sessions@.remove(i as int));
                    assert forall|k: int|
                        0 <= k < self.sessions@.len() implies self.sessions@[k] != session_id by {
                        if k < i {
                            assert(self.sessions@[k] == old(self).sessions@[k]);
                        } else {
                            assert(self.sessions@[k] == old(self).sessions@[k + 1]);
                        }
                    }
                }
                true
            },
            None => false,
        }
    }

    /// Inbound routing: a payload tagged with a session is surfaced exactly
    /// to that session's entry; a payload for an unknown session is dropped
    /// silently.
    pub fn route_inbound(&self, session_id: SessionId) -> (r: Option<usize>)
        requires
            self.wf(),
        ensures
            match r {
                Some(i) => (i as int) < self.sessions@.len() && self.sessions@[i as int]
                    == session_id,
                None => forall|k: int|
                    0 <= k < self.sessions@.len() ==> self.sessions@[k] != session_id,
            },
    {
        self.find(session_id)
    }
}

/// Session isolation: the entry a payload tagged with session `s` is routed
/// to belongs to `s`, and so never to the consumer of any other session.
pub proof fn lemma_session_isolation(
    reg: SessionRegistry,
    s: SessionId,
    other: SessionId,
    i: int,
)
    requires
        reg.wf(),
        0 <= i < reg.sessions@.len(),
        reg.sessions@[i] == s,
        other != s,
    ensures
        reg.sessions@[i] != other,
{
}

} // verus!
