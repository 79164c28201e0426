//! Core of a validator-to-validator session network: canonical encoding of the
//! wire data, framed I/O bookkeeping, handshake validation, heartbeat liveness,
//! the per-connection protocol state machines, peer discovery, and the
//! connection-manager and session bookkeeping that drive them.
//!
//! All asynchronous plumbing (sockets, channels, timers, signatures) lives in
//! the embedding application; every decision the network core makes is a plain
//! function here, stated and proved.

use vstd::prelude::*;

verus! {

/// Monotone identifier of a consensus session. Sessions are disjoint logical
/// namespaces: the same validators may run several concurrent sessions.
#[derive(Clone, Copy, PartialEq, Eq, Structural, Debug, Hash)]
pub struct SessionId(pub u32);

/// Position of a validator within one session's member list (0..n-1),
/// distinct from its cryptographic identity.
#[derive(Clone, Copy, PartialEq, Eq, Structural, Debug, Hash)]
pub struct NodeIndex(pub usize);

/// Opaque cryptographic public-key identity of a validator. Equality is
/// bitwise over the key bytes.
#[derive(Clone, PartialEq, Eq, Debug, Hash)]
pub struct ValidatorId {
    pub key: Vec<u8>,
}

impl View for ValidatorId {
    type V = Seq<u8>;

    open spec fn view(&self) -> Seq<u8> {
        self.key@
    }
}

impl ValidatorId {
    /// Bitwise equality of two identities, usable from verified code.
    pub fn equals(&self, other: &ValidatorId) -> (r: bool)
        ensures
            r == (self@ == other@),
    {
        if self.key.len() != other.key.len() {
            assert(self@.len() != other@.len());
            return false;
        }
        let n: usize = self.key.len();
        let mut i: usize = 0;
        while i < n
            invariant
                i <= n,
                n == self@.len(),
                n == other@.len(),
                forall|j: int| 0 <= j < i ==> self@[j] == other@[j],
            decreases n - i,
        {
            if self.key[i] != other.key[i] {
                assert(self@ != other@);
                return false;
            }
            i += 1;
        }
        proof {
            assert(self@ =~= other@);
        }
        true
    }
}

/// Copies a byte vector; the copy has the same contents.
pub fn copy_bytes(v: &Vec<u8>) -> (r: Vec<u8>)
    ensures
        r@ == v@,
{
    let mut out: Vec<u8> = Vec::new();
    let mut i: usize = 0;
    while i < v.len()
        invariant
            i <= v@.len(),
            out@ == v@.subrange(0, i as int),
        decreases v@.len() - i,
    {
        out.push(v[i]);
        proof {
            assert(out@ =~= v@.subrange(0, i + 1));
        }
        i += 1;
    }
    proof {
        assert(v@.subrange(0, v@.len() as int) =~= v@);
    }
    out
}

/// A transport-level contact point of a validator: host bytes, port and a
/// transport tag. A validator advertises zero or more of these per session.
#[derive(Clone, PartialEq, Eq, Debug, Hash)]
pub struct Multiaddress {
    pub host: Vec<u8>,
    pub port: u16,
    pub transport: u8,
}

/// Mathematical value of a [`Multiaddress`].
pub ghost struct AddressModel {
    pub host: Seq<u8>,
    pub port: u16,
    pub transport: u8,
}

impl View for Multiaddress {
    type V = AddressModel;

    open spec fn view(&self) -> AddressModel {
        AddressModel { host: self.host@, port: self.port, transport: self.transport }
    }
}

impl Multiaddress {
    /// Copies an address; the copy denotes the same contact point.
    pub fn duplicate(&self) -> (r: Multiaddress)
        ensures
            r@ == self@,
    {
        Multiaddress { host: copy_bytes(&self.host), port: self.port, transport: self.transport }
    }
}

/// The contact points a sequence of addresses denotes.
pub open spec fn addresses_view(v: Seq<Multiaddress>) -> Seq<AddressModel> {
    v.map_values(|m: Multiaddress| m@)
}

} // verus!

pub mod codec;
pub mod discovery;
pub mod handshake;
pub mod heartbeat;
pub mod io;
pub mod manager;
pub mod protocols;
pub mod session;
