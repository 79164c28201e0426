//! Session handler: binds cryptographic identities to network identities for
//! one session. It owns the mapping from a validator's position in the
//! session to its public identity and judges incoming authentications.

use vstd::prelude::*;

use crate::copy_bytes;
use crate::manager::AuthData;
use crate::Multiaddress;
use crate::NodeIndex;
use crate::SessionId;
use crate::ValidatorId;

verus! {

/// The handler of one session: the member list in node-index order, the local
/// validator's position, and the session's identifier.
pub struct Handler {
    pub session_id: SessionId,
    pub validators: Vec<ValidatorId>,
    pub own_index: usize,
}

impl Handler {
    /// A handler is well formed when the local position lies in the member
    /// list.
    pub open spec fn wf(&self) -> bool {
        self.own_index < self.validators@.len()
    }

    /// Sets up the handler of a session with a fixed member list.
    pub fn new(session_id: SessionId, validators: Vec<ValidatorId>, own_index: usize) -> (r:
        Handler)
        requires
            own_index < validators@.len(),
        ensures
            r.wf(),
            r == (Handler { session_id, validators, own_index }),
    {
        Handler { session_id, validators, own_index }
    }

    /// How many validators the session has.
    pub fn node_count(&self) -> (r: usize)
        ensures
            r == self.validators@.len(),
    {
        self.validators.len()
    }

    /// Whether an authentication names this session and a member of it, so
    /// that its signature is worth checking at all.
    pub fn authentication_claim_valid(&self, auth: &AuthData) -> (r: bool)
        ensures
            r == (auth@.session_id == self.session_id && auth@.node_id.0 < self.validators@.len()),
    {
        auth.session_id.0 == self.session_id.0 && auth.node_id.0 < self.validators.len()
    }

    /// Judges an incoming authentication: accepted exactly when it names this
    /// session, its creator's position lies in the member list, and the
    /// embedder's cryptographic check of the signature over the canonical
    /// encoding of the authenticated data, under the key this handler maps
    /// that position to, passed. The accepted identity is the one the
    /// position maps to.
    pub fn verify_authentication(&self, auth: &AuthData, sig_ok: bool) -> (r: Option<ValidatorId>)
        ensures
            match r {
                Some(v) => {
                    &&& auth@.session_id == self.session_id
                    &&& auth@.node_id.0 < self.validators@.len()
                    &&& sig_ok
                    &&& v@ == self.validators@[auth@.node_id.0 as int]@
                },
                None => !(auth@.session_id == self.session_id && auth@.node_id.0
                    < self.validators@.len() && sig_ok),
            },
    {
        if self.authentication_claim_valid(auth) && sig_ok {
            Some(ValidatorId { key: copy_bytes(&self.validators[auth.node_id.0].key) })
        } else {
            None
        }
    }

    /// Produces the authenticated data of the local validator for its current
    /// addresses: what the local signing key must sign. Each address update
    /// produces a fresh one that supersedes the previous for rebroadcast.
    pub fn own_auth_data(&self, addresses: Vec<Multiaddress>) -> (r: AuthData)
        ensures
            r@.addresses == crate::addresses_view(addresses@),
            r@.node_id == NodeIndex(self.own_index),
            r@.session_id == self.session_id,
    {
        AuthData::new(addresses, NodeIndex(self.own_index), self.session_id)
    }
}

} // verus!
