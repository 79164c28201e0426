//! Discovery: validators sign and disseminate their contact addresses for a
//! session, and validate and rebroadcast what they hear from others.

use vstd::prelude::*;

use crate::manager::{Authentication, AuthenticationModel, AuthData, Signature};

verus! {

/// A message of the discovery exchange, carrying one signed authentication.
#[derive(Clone, PartialEq, Eq, Debug, Hash)]
pub struct DiscoveryMessage {
    pub auth_data: AuthData,
    pub signature: Signature,
}

/// Mathematical value of a [`DiscoveryMessage`].
pub ghost struct DiscoveryMessageModel {
    pub authentication: AuthenticationModel,
}

impl View for DiscoveryMessage {
    type V = DiscoveryMessageModel;

    open spec fn view(&self) -> DiscoveryMessageModel {
        DiscoveryMessageModel {
            authentication: AuthenticationModel {
                data: self.auth_data@,
                signature: self.signature@,
            },
        }
    }
}

impl DiscoveryMessage {
    /// Wraps one signed authentication for dissemination.
    pub fn new(authentication: Authentication) -> (r: DiscoveryMessage)
        ensures
            r@.authentication.data == authentication.0@,
            r@.authentication.signature == authentication.1@,
    {
        DiscoveryMessage { auth_data: authentication.0, signature: authentication.1 }
    }
}

} // verus!

use crate::session::Handler;

verus! {

/// Whether discovery accepts an authentication: the handler's judgement
/// passed (session, membership, signature) and the advertised address set
/// differs from the last accepted one for that position — freshness is
/// monotone per position, and stale or duplicate authentications are
/// discarded.
pub open spec fn discovery_accepts(
    last: Seq<Option<AuthData>>,
    session_id: crate::SessionId,
    auth: AuthData,
    sig_ok: bool,
) -> bool {
    &&& sig_ok
    &&& auth@.session_id == session_id
    &&& auth@.node_id.0 < last.len()
    &&& (match last[auth@.node_id.0 as int] {
        Some(prev) => prev@.addresses != auth@.addresses,
        None => true,
    })
}

/// Discovery state of one session: per position, the last accepted
/// authentication.
pub struct Discovery {
    pub session_id: crate::SessionId,
    pub last_accepted: Vec<Option<AuthData>>,
}

impl Discovery {
    /// Fresh discovery state for a session of `n` members: nothing accepted
    /// yet.
    pub fn new(session_id: crate::SessionId, n: usize) -> (r: Discovery)
        ensures
            r.session_id == session_id,
            r.last_accepted@.len() == n,
            forall|k: int| 0 <= k < n ==> r.last_accepted@[k] is None,
    {
        let mut last: Vec<Option<AuthData>> = Vec::new();
        let mut i: usize = 0;
        while i < n
            invariant
                i <= n,
                last@.len() == i,
                forall|k: int| 0 <= k < i ==> last@[k] is None,
            decreases n - i,
        {
            last.push(None);
            i += 1;
        }
        Discovery { session_id, last_accepted: last }
    }

    /// Handles one inbound authentication: judged by the handler and by
    /// freshness; an accepted one is stored and is to be forwarded to the
    /// manager and rebroadcast, a rejected one changes nothing and goes
    /// nowhere.
    pub fn handle_authentication(&mut self, handler: &Handler, auth: AuthData, sig_ok: bool) -> (r:
        bool)
        requires
            old(self).last_accepted@.len() == handler.validators@.len(),
            old(self).session_id == handler.session_id,
        ensures
            r == discovery_accepts(old(self).last_accepted@, old(self).session_id, auth, sig_ok),
            final(self).session_id == old(self).session_id,
            r ==> final(self).last_accepted@ == old(self).last_accepted@.update(
                auth@.node_id.0 as int,
                Some(auth),
            ),
            !r ==> *final(self) == *old(self),
    {
        if !(sig_ok && auth.session_id.0 == self.session_id.0 && auth.node_id.0
            < self.last_accepted.len()) {
            return false;
        }
        let node: usize = auth.node_id.0;
        let fresh: bool = match &self.last_accepted[node] {
            Some(prev) => !same_addresses(prev, &auth),
            None => true,
        };
        if fresh {
            self.last_accepted.set(node, Some(auth));
            true
        } else {
            false
        }
    }

    /// The addresses most recently accepted for a position, as the dialer
    /// resolves them before its next attempt; nothing if none was accepted
    /// yet.
    pub fn addresses_of(&self, node: usize) -> (r: Option<Vec<crate::Multiaddress>>)
        requires
            node < self.last_accepted@.len(),
        ensures
            match r {
                Some(v) => match self.last_accepted@[node as int] {
                    Some(auth) => crate::addresses_view(v@) == auth@.addresses,
                    None => false,
                },
                None => self.last_accepted@[node as int] is None,
            },
    {
        match &self.last_accepted[node] {
            Some(auth) => Some(auth.addresses()),
            None => None,
        }
    }
}

/// Whether two authentications advertise the same address set.
fn same_addresses(a: &AuthData, b: &AuthData) -> (r: bool)
    ensures
        r == (a@.addresses == b@.addresses),
{
    if a.addresses.len() != b.addresses.len() {
        assert(a@.addresses.len() != b@.addresses.len());
        return false;
    }
    let n: usize = a.addresses.len();
    let mut i: usize = 0;
    while i < n
        invariant
            i <= n,
            n == a@.addresses.len(),
            n == b@.addresses.len(),
            forall|k: int| 0 <= k < i ==> a@.addresses[k] == b@.addresses[k],
        decreases n - i,
    {
        if !same_address(&a.addresses[i], &b.addresses[i]) {
            assert(a@.addresses[i as int] != b@.addresses[i as int]);
            return false;
        }
        i += 1;
    }
    proof {
        assert(a@.addresses =~= b@.addresses);
    }
    true
}

/// Whether two addresses denote the same contact point.
fn same_address(a: &crate::Multiaddress, b: &crate::Multiaddress) -> (r: bool)
    ensures
        r == (a@ == b@),
{
    if a.port != b.port || a.transport != b.transport {
        return false;
    }
    if a.host.len() != b.host.len() {
        assert(a@.host.len() != b@.host.len());
        return false;
    }
    let n: usize = a.host.len();
    let mut i: usize = 0;
    while i < n
        invariant
            i <= n,
            n == a@.host.len(),
            n == b@.host.len(),
            a.port == b.port,
            a.transport == b.transport,
            forall|k: int| 0 <= k < i ==> a@.host[k] == b@.host[k],
        decreases n - i,
    {
        if a.host[i] != b.host[i] {
            assert(a@.host != b@.host);
            return false;
        }
        i += 1;
    }
    proof {
        assert(a@.host =~= b@.host);
    }
    true
}

/// Discovery idempotence: once an authentication is accepted and stored,
/// feeding the very same authentication again is rejected — so a duplicate
/// leads to at most one forward per neighbor.
pub proof fn lemma_discovery_idempotent(
    last: Seq<Option<AuthData>>,
    session_id: crate::SessionId,
    auth: AuthData,
    sig_ok: bool,
)
    requires
        discovery_accepts(last, session_id, auth, sig_ok),
    ensures
        !discovery_accepts(
            last.update(auth@.node_id.0 as int, Some(auth)),
            session_id,
            auth,
            sig_ok,
        ),
{
}

/// The bounded fan-out: an accepted authentication is rebroadcast to three
/// neighbors, or to everyone else when the session is smaller.
pub open spec fn fan_out(n_members: usize) -> int {
    if n_members - 1 < 3 {
        n_members - 1
    } else {
        3int
    }
}

/// Whether a candidate may be rebroadcast to: a member other than ourselves
/// and other than the sender.
pub open spec fn valid_target(n_members: usize, own_index: usize, sender: usize, c: usize) -> bool {
    c < n_members && c != own_index && c != sender
}

/// The targets a draw yields: the first `limit` candidates, in draw order,
/// that are valid targets.
pub open spec fn chosen_targets(
    n_members: usize,
    own_index: usize,
    sender: usize,
    picks: Seq<usize>,
    limit: int,
) -> Seq<usize>
    decreases picks.len(),
{
    if limit <= 0 || picks.len() == 0 {
        Seq::<usize>::empty()
    } else if valid_target(n_members, own_index, sender, picks[0]) {
        seq![picks[0]] + chosen_targets(n_members, own_index, sender, picks.skip(1), limit - 1)
    } else {
        chosen_targets(n_members, own_index, sender, picks.skip(1), limit)
    }
}

/// How many neighbors an accepted authentication is rebroadcast to: the
/// bounded fan-out.
pub fn rebroadcast_count(n_members: usize) -> (r: usize)
    requires
        n_members >= 1,
    ensures
        r as int == fan_out(n_members),
{
    if n_members - 1 < 3 {
        n_members - 1
    } else {
        3
    }
}

/// Picks the rebroadcast targets from randomly drawn candidates (the draw is
/// the embedder's): exactly the first fan-out many, in draw order, that are
/// members other than ourselves and other than the sender.
pub fn choose_rebroadcast_targets(
    n_members: usize,
    own_index: usize,
    sender: usize,
    picks: &Vec<usize>,
) -> (r: Vec<usize>)
    requires
        n_members >= 1,
    ensures
        r@ == chosen_targets(n_members, own_index, sender, picks@, fan_out(n_members)),
        r@.len() <= fan_out(n_members),
        forall|k: int|
            0 <= k < r@.len() ==> valid_target(n_members, own_index, sender, #[trigger] r@[k]),
{
    let limit = rebroadcast_count(n_members);
    let mut out: Vec<usize> = Vec::new();
    let mut i: usize = 0;
    proof {
        assert(picks@.skip(0) =~= picks@);
        assert(Seq::<usize>::empty() + chosen_targets(
            n_members,
            own_index,
            sender,
            picks@,
            fan_out(n_members),
        ) =~= chosen_targets(n_members, own_index, sender, picks@, fan_out(n_members)));
    }
    while i < picks.len()
        invariant
            i <= picks@.len(),
            out@.len() <= fan_out(n_members),
            limit as int == fan_out(n_members),
            n_members >= 1,
            forall|k: int|
                0 <= k < out@.len() ==> valid_target(
                    n_members,
                    own_index,
                    sender,
                    #[trigger] out@[k],
                ),
            chosen_targets(n_members, own_index, sender, picks@, fan_out(n_members)) == out@
                + chosen_targets(
                n_members,
                own_index,
                sender,
                picks@.skip(i as int),
                fan_out(n_members) - out@.len(),
            ),
        decreases picks@.len() - i,
    {
        if out.len() >= limit {
            proof {
                assert(chosen_targets(
                    n_members,
                    own_index,
                    sender,
                    picks@.skip(i as int),
                    fan_out(n_members) - out@.len(),
                ) == Seq::<usize>::empty());
                assert(out@ + Seq::<usize>::empty() =~= out@);
            }
            return out;
        }
        let c = picks[i];
        proof {
            assert(picks@.skip(i as int).len() == picks@.len() - i);
            assert(picks@.skip(i as int)[0] == picks@[i as int]);
            assert(picks@.skip(i as int).skip(1) =~= picks@.skip(i as int + 1));
            let rem = fan_out(n_members) - out@.len();
            if valid_target(n_members, own_index, sender, picks@[i as int]) {
                let rest = chosen_targets(
                    n_members,
                    own_index,
                    sender,
                    picks@.skip(i as int + 1),
                    rem - 1,
                );
                assert(chosen_targets(n_members, own_index, sender, picks@.skip(i as int), rem)
                    == seq![picks@[i as int]] + rest);
                assert(out@ + (seq![picks@[i as int]] + rest) =~= out@.push(picks@[i as int])
                    + rest);
            } else {
                assert(chosen_targets(n_members, own_index, sender, picks@.skip(i as int), rem)
                    == chosen_targets(
                    n_members,
                    own_index,
                    sender,
                    picks@.skip(i as int + 1),
                    rem,
                ));
            }
        }
        if c < n_members && c != own_index && c != sender {
            out.push(c);
        }
        i += 1;
    }
    proof {
        assert(picks@.skip(picks@.len() as int).len() == 0);
        assert(chosen_targets(
            n_members,
            own_index,
            sender,
            picks@.skip(picks@.len() as int),
            fan_out(n_members) - out@.len(),
        ) == Seq::<usize>::empty());
        assert(out@ + Seq::<usize>::empty() =~= out@);
    }
    out
}

} // verus!
