//! Canonical binary encoding of the wire data: variant tag byte first, then
//! fields in declaration order, variable-length parts prefixed with a
//! big-endian `u32` length. The encoding is deterministic, and decoding a
//! canonical encoding returns exactly the encoded value.

use vstd::prelude::*;

use crate::addresses_view;
use crate::manager::{AuthDataModel, AuthenticationModel, NetworkData, NetworkDataModel};
use crate::manager::{AuthData, Signature};
use crate::discovery::{DiscoveryMessage, DiscoveryMessageModel};
use crate::AddressModel;
use crate::Multiaddress;
use crate::NodeIndex;
use crate::SessionId;

verus! {

// ---------------------------------------------------------------------------
// Specification-level encoders
// ---------------------------------------------------------------------------
pub open spec fn enc_u8(x: u8) -> Seq<u8> {
    seq![x]
}

pub open spec fn enc_u16(x: u16) -> Seq<u8> {
    seq![(x >> 8u16) as u8, x as u8]
}

pub open spec fn enc_u32(x: u32) -> Seq<u8> {
    seq![(x >> 24u32) as u8, (x >> 16u32) as u8, (x >> 8u32) as u8, x as u8]
}

/// A byte string, prefixed with its length.
pub open spec fn enc_bytes(b: Seq<u8>) -> Seq<u8> {
    enc_u32(b.len() as u32) + b
}

pub open spec fn enc_address(m: AddressModel) -> Seq<u8> {
    enc_bytes(m.host) + enc_u16(m.port) + enc_u8(m.transport)
}

pub open spec fn enc_address_seq(a: Seq<AddressModel>) -> Seq<u8>
    decreases a.len(),
{
    if a.len() == 0 {
        Seq::<u8>::empty()
    } else {
        enc_address(a[0]) + enc_address_seq(a.skip(1))
    }
}

/// An address list: element count, then the elements in order.
pub open spec fn enc_address_list(a: Seq<AddressModel>) -> Seq<u8> {
    enc_u32(a.len() as u32) + enc_address_seq(a)
}

pub open spec fn enc_auth_data(d: AuthDataModel) -> Seq<u8> {
    enc_address_list(d.addresses) + enc_u32(d.node_id.0 as u32) + enc_u32(d.session_id.0)
}

pub open spec fn enc_authentication(a: AuthenticationModel) -> Seq<u8> {
    enc_auth_data(a.data) + enc_bytes(a.signature)
}

pub open spec fn enc_discovery(d: DiscoveryMessageModel) -> Seq<u8> {
    enc_authentication(d.authentication)
}

pub open spec fn enc_network_data(m: NetworkDataModel) -> Seq<u8> {
    match m {
        NetworkDataModel::Meta(d) => enc_u8(0) + enc_discovery(d),
        NetworkDataModel::Data(p, sid) => enc_u8(1) + enc_bytes(p) + enc_u32(sid.0),
    }
}

// ---------------------------------------------------------------------------
// Well-formedness: every variable-length part must fit its u32 length prefix.
// ---------------------------------------------------------------------------
pub open spec fn wf_address(m: AddressModel) -> bool {
    m.host.len() < 0x1_0000_0000
}

pub open spec fn wf_address_seq(a: Seq<AddressModel>) -> bool {
    &&& a.len() < 0x1_0000_0000
    &&& forall|k: int| 0 <= k < a.len() ==> wf_address(#[trigger] a[k])
}

pub open spec fn wf_auth_data(d: AuthDataModel) -> bool {
    &&& wf_address_seq(d.addresses)
    &&& d.node_id.0 < 0x1_0000_0000
}

pub open spec fn wf_authentication(a: AuthenticationModel) -> bool {
    &&& wf_auth_data(a.data)
    &&& a.signature.len() < 0x1_0000_0000
}

pub open spec fn wf_network_data(m: NetworkDataModel) -> bool {
    match m {
        NetworkDataModel::Meta(d) => wf_authentication(d.authentication),
        NetworkDataModel::Data(p, _) => p.len() < 0x1_0000_0000,
    }
}

// ---------------------------------------------------------------------------
// Specification-level decoders. Each takes the whole byte string and a cursor
// and returns the decoded value with the cursor after it, or nothing.
// ---------------------------------------------------------------------------
pub open spec fn dec_u8(s: Seq<u8>, i: int) -> Option<(u8, int)> {
    if 0 <= i && i + 1 <= s.len() {
        Some((s[i], i + 1))
    } else {
        None
    }
}

pub open spec fn dec_u16(s: Seq<u8>, i: int) -> Option<(u16, int)> {
    if 0 <= i && i + 2 <= s.len() {
        Some((((s[i] as u16) << 8u16) | (s[i + 1] as u16), i + 2))
    } else {
        None
    }
}

pub open spec fn dec_u32(s: Seq<u8>, i: int) -> Option<(u32, int)> {
    if 0 <= i && i + 4 <= s.len() {
        Some(
            (
                ((s[i] as u32) << 24u32) | ((s[i + 1] as u32) << 16u32) | ((s[i + 2] as u32)
                    << 8u32) | (s[i + 3] as u32),
                i + 4,
            ),
        )
    } else {
        None
    }
}

pub open spec fn dec_bytes(s: Seq<u8>, i: int) -> Option<(Seq<u8>, int)> {
    match dec_u32(s, i) {
        Some(n) => {
            if n.1 + n.0 <= s.len() {
                Some((s.subrange(n.1, n.1 + n.0 as int), n.1 + n.0 as int))
            } else {
                None
            }
        },
        None => None,
    }
}

pub open spec fn dec_address(s: Seq<u8>, i: int) -> Option<(AddressModel, int)> {
    match dec_bytes(s, i) {
        Some(host) => match dec_u16(s, host.1) {
            Some(port) => match dec_u8(s, port.1) {
                Some(tag) => Some(
                    (AddressModel { host: host.0, port: port.0, transport: tag.0 }, tag.1),
                ),
                None => None,
            },
            None => None,
        },
        None => None,
    }
}

pub open spec fn dec_address_seq(s: Seq<u8>, i: int, count: nat) -> Option<
    (Seq<AddressModel>, int),
>
    decreases count,
{
    if count == 0 {
        Some((Seq::<AddressModel>::empty(), i))
    } else {
        match dec_address(s, i) {
            Some(head) => match dec_address_seq(s, head.1, (count - 1) as nat) {
                Some(rest) => Some((seq![head.0] + rest.0, rest.1)),
                None => None,
            },
            None => None,
        }
    }
}

pub open spec fn dec_address_list(s: Seq<u8>, i: int) -> Option<(Seq<AddressModel>, int)> {
    match dec_u32(s, i) {
        Some(n) => dec_address_seq(s, n.1, n.0 as nat),
        None => None,
    }
}

pub open spec fn dec_auth_data(s: Seq<u8>, i: int) -> Option<(AuthDataModel, int)> {
    match dec_address_list(s, i) {
        Some(addrs) => match dec_u32(s, addrs.1) {
            Some(node) => match dec_u32(s, node.1) {
                Some(sid) => Some(
                    (
                        AuthDataModel {
                            addresses: addrs.0,
                            node_id: NodeIndex(node.0 as usize),
                            session_id: SessionId(sid.0),
                        },
                        sid.1,
                    ),
                ),
                None => None,
            },
            None => None,
        },
        None => None,
    }
}

pub open spec fn dec_authentication(s: Seq<u8>, i: int) -> Option<(AuthenticationModel, int)> {
    match dec_auth_data(s, i) {
        Some(data) => match dec_bytes(s, data.1) {
            Some(sig) => Some(
                (AuthenticationModel { data: data.0, signature: sig.0 }, sig.1),
            ),
            None => None,
        },
        None => None,
    }
}

pub open spec fn dec_network_data(s: Seq<u8>, i: int) -> Option<(NetworkDataModel, int)> {
    match dec_u8(s, i) {
        Some(tag) => {
            if tag.0 == 0 {
                match dec_authentication(s, tag.1) {
                    Some(auth) => Some(
                        (
                            NetworkDataModel::Meta(
                                DiscoveryMessageModel { authentication: auth.0 },
                            ),
                            auth.1,
                        ),
                    ),
                    None => None,
                }
            } else if tag.0 == 1 {
                match dec_bytes(s, tag.1) {
                    Some(p) => match dec_u32(s, p.1) {
                        Some(sid) => Some(
                            (NetworkDataModel::Data(p.0, SessionId(sid.0)), sid.1),
                        ),
                        None => None,
                    },
                    None => None,
                }
            } else {
                None
            }
        },
        None => None,
    }
}

// ---------------------------------------------------------------------------
// Round trip: decoding at the start of a canonical encoding yields the encoded
// value and stops exactly after it, whatever bytes surround the encoding.
// ---------------------------------------------------------------------------
pub(crate) proof fn lemma_rt_u8(pre: Seq<u8>, x: u8, post: Seq<u8>)
    ensures
        dec_u8(pre + enc_u8(x) + post, pre.len() as int) == Some((x, pre.len() as int + 1)),
{
    let s = pre + enc_u8(x) + post;
    assert(s[pre.len() as int] == x);
}

proof fn lemma_rt_u16(pre: Seq<u8>, x: u16, post: Seq<u8>)
    ensures
        dec_u16(pre + enc_u16(x) + post, pre.len() as int) == Some((x, pre.len() as int + 2)),
{
    let s = pre + enc_u16(x) + post;
    assert(s[pre.len() as int] == (x >> 8u16) as u8);
    assert(s[pre.len() as int + 1] == x as u8);
    assert(((((x >> 8u16) as u8) as u16) << 8u16) | ((x as u8) as u16) == x) by (bit_vector);
}

pub(crate) proof fn lemma_rt_u32(pre: Seq<u8>, x: u32, post: Seq<u8>)
    ensures
        dec_u32(pre + enc_u32(x) + post, pre.len() as int) == Some((x, pre.len() as int + 4)),
{
    let s = pre + enc_u32(x) + post;
    assert(s[pre.len() as int] == (x >> 24u32) as u8);
    assert(s[pre.len() as int + 1] == (x >> 16u32) as u8);
    assert(s[pre.len() as int + 2] == (x >> 8u32) as u8);
    assert(s[pre.len() as int + 3] == x as u8);
    assert(((((x >> 24u32) as u8) as u32) << 24u32) | ((((x >> 16u32) as u8) as u32) << 16u32) | ((((
    x >> 8u32) as u8) as u32) << 8u32) | ((x as u8) as u32) == x) by (bit_vector);
}

pub(crate) proof fn lemma_rt_bytes(pre: Seq<u8>, b: Seq<u8>, post: Seq<u8>)
    requires
        b.len() < 0x1_0000_0000,
    ensures
        dec_bytes(pre + enc_bytes(b) + post, pre.len() as int) == Some(
            (b, pre.len() as int + 4 + b.len() as int),
        ),
{
    let n = b.len() as u32;
    let s = pre + enc_bytes(b) + post;
    assert(s =~= pre + enc_u32(n) + (b + post));
    lemma_rt_u32(pre, n, b + post);
    let j = pre.len() as int + 4;
    assert(s.subrange(j, j + n as int) =~= b);
}

#[verifier::rlimit(100)]
#[verifier::spinoff_prover]
proof fn lemma_rt_address(pre: Seq<u8>, m: AddressModel, post: Seq<u8>)
    requires
        wf_address(m),
    ensures
        dec_address(pre + enc_address(m) + post, pre.len() as int) == Some(
            (m, pre.len() as int + enc_address(m).len() as int),
        ),
{
    let s = pre + enc_address(m) + post;
    assert(s =~= pre + enc_bytes(m.host) + (enc_u16(m.port) + enc_u8(m.transport) + post));
    lemma_rt_bytes(pre, m.host, enc_u16(m.port) + enc_u8(m.transport) + post);
    let p1 = pre + enc_bytes(m.host);
    assert(s =~= p1 + enc_u16(m.port) + (enc_u8(m.transport) + post));
    lemma_rt_u16(p1, m.port, enc_u8(m.transport) + post);
    let p2 = p1 + enc_u16(m.port);
    assert(s =~= p2 + enc_u8(m.transport) + post);
    lemma_rt_u8(p2, m.transport, post);
}

#[verifier::rlimit(100)]
#[verifier::spinoff_prover]
proof fn lemma_rt_address_seq(pre: Seq<u8>, a: Seq<AddressModel>, post: Seq<u8>)
    requires
        forall|k: int| 0 <= k < a.len() ==> wf_address(#[trigger] a[k]),
    ensures
        dec_address_seq(pre + enc_address_seq(a) + post, pre.len() as int, a.len()) == Some(
            (a, pre.len() as int + enc_address_seq(a).len() as int),
        ),
    decreases a.len(),
{
    let s = pre + enc_address_seq(a) + post;
    if a.len() == 0 {
        assert(a =~= Seq::<AddressModel>::empty());
        assert(dec_address_seq(s, pre.len() as int, 0) == Some(
            (Seq::<AddressModel>::empty(), pre.len() as int),
        ));
    } else {
        let rest = a.skip(1);
        assert(s =~= pre + enc_address(a[0]) + (enc_address_seq(rest) + post));
        lemma_rt_address(pre, a[0], enc_address_seq(rest) + post);
        let p1 = pre + enc_address(a[0]);
        assert(s =~= p1 + enc_address_seq(rest) + post);
        lemma_rt_address_seq(p1, rest, post);
        assert(seq![a[0]] + rest =~= a);
    }
}

#[verifier::rlimit(100)]
#[verifier::spinoff_prover]
proof fn lemma_rt_address_list(pre: Seq<u8>, a: Seq<AddressModel>, post: Seq<u8>)
    requires
        wf_address_seq(a),
    ensures
        dec_address_list(pre + enc_address_list(a) + post, pre.len() as int) == Some(
            (a, pre.len() as int + enc_address_list(a).len() as int),
        ),
{
    let n = a.len() as u32;
    let s = pre + enc_address_list(a) + post;
    assert(s =~= pre + enc_u32(n) + (enc_address_seq(a) + post));
    lemma_rt_u32(pre, n, enc_address_seq(a) + post);
    let p1 = pre + enc_u32(n);
    assert(s =~= p1 + enc_address_seq(a) + post);
    lemma_rt_address_seq(p1, a, post);
}

#[verifier::rlimit(100)]
#[verifier::spinoff_prover]
proof fn lemma_rt_auth_data(pre: Seq<u8>, d: AuthDataModel, post: Seq<u8>)
    requires
        wf_auth_data(d),
    ensures
        dec_auth_data(pre + enc_auth_data(d) + post, pre.len() as int) == Some(
            (d, pre.len() as int + enc_auth_data(d).len() as int),
        ),
{
    let s = pre + enc_auth_data(d) + post;
    assert(s =~= pre + enc_address_list(d.addresses) + (enc_u32(d.node_id.0 as u32) + enc_u32(
        d.session_id.0,
    ) + post));
    lemma_rt_address_list(
        pre,
        d.addresses,
        enc_u32(d.node_id.0 as u32) + enc_u32(d.session_id.0) + post,
    );
    let p1 = pre + enc_address_list(d.addresses);
    assert(s =~= p1 + enc_u32(d.node_id.0 as u32) + (enc_u32(d.session_id.0) + post));
    lemma_rt_u32(p1, d.node_id.0 as u32, enc_u32(d.session_id.0) + post);
    let p2 = p1 + enc_u32(d.node_id.0 as u32);
    assert(s =~= p2 + enc_u32(d.session_id.0) + post);
    lemma_rt_u32(p2, d.session_id.0, post);
    assert((d.node_id.0 as u32) as usize == d.node_id.0);
}

#[verifier::rlimit(100)]
#[verifier::spinoff_prover]
proof fn lemma_rt_authentication(pre: Seq<u8>, a: AuthenticationModel, post: Seq<u8>)
    requires
        wf_authentication(a),
    ensures
        dec_authentication(pre + enc_authentication(a) + post, pre.len() as int) == Some(
            (a, pre.len() as int + enc_authentication(a).len() as int),
        ),
{
    let s = pre + enc_authentication(a) + post;
    assert(s =~= pre + enc_auth_data(a.data) + (enc_bytes(a.signature) + post));
    lemma_rt_auth_data(pre, a.data, enc_bytes(a.signature) + post);
    let p1 = pre + enc_auth_data(a.data);
    assert(s =~= p1 + enc_bytes(a.signature) + post);
    lemma_rt_bytes(p1, a.signature, post);
}

#[verifier::rlimit(100)]
#[verifier::spinoff_prover]
pub(crate) proof fn lemma_rt_network_data(pre: Seq<u8>, m: NetworkDataModel, post: Seq<u8>)
    requires
        wf_network_data(m),
    ensures
        dec_network_data(pre + enc_network_data(m) + post, pre.len() as int) == Some(
            (m, pre.len() as int + enc_network_data(m).len() as int),
        ),
{
    let s = pre + enc_network_data(m) + post;
    match m {
        NetworkDataModel::Meta(d) => {
            assert(s =~= pre + enc_u8(0) + (enc_authentication(d.authentication) + post));
            lemma_rt_u8(pre, 0, enc_authentication(d.authentication) + post);
            assert(dec_u8(s, pre.len() as int) == Some((0u8, pre.len() as int + 1)));
            let p1 = pre + enc_u8(0);
            assert(s =~= p1 + enc_authentication(d.authentication) + post);
            lemma_rt_authentication(p1, d.authentication, post);
            assert(dec_authentication(s, pre.len() as int + 1) == Some(
                (
                    d.authentication,
                    pre.len() as int + 1 + enc_authentication(d.authentication).len() as int,
                ),
            ));
        },
        NetworkDataModel::Data(p, sid) => {
            assert(s =~= pre + enc_u8(1) + (enc_bytes(p) + enc_u32(sid.0) + post));
            lemma_rt_u8(pre, 1, enc_bytes(p) + enc_u32(sid.0) + post);
            let p1 = pre + enc_u8(1);
            assert(s =~= p1 + enc_bytes(p) + (enc_u32(sid.0) + post));
            lemma_rt_bytes(p1, p, enc_u32(sid.0) + post);
            let p2 = p1 + enc_bytes(p);
            assert(s =~= p2 + enc_u32(sid.0) + post);
            lemma_rt_u32(p2, sid.0, post);
        },
    }
}

/// Round trip: decoding the canonical encoding of any well-formed value
/// yields exactly that value and consumes the whole encoding.
pub proof fn lemma_network_data_round_trip(m: NetworkDataModel)
    requires
        wf_network_data(m),
    ensures
        dec_network_data(enc_network_data(m), 0) == Some(
            (m, enc_network_data(m).len() as int),
        ),
{
    lemma_rt_network_data(Seq::<u8>::empty(), m, Seq::<u8>::empty());
    assert(Seq::<u8>::empty() + enc_network_data(m) + Seq::<u8>::empty() =~= enc_network_data(m));
}

} // verus!

use vstd::prelude::*;

verus! {

// ---------------------------------------------------------------------------
// Executable encoders
// ---------------------------------------------------------------------------
pub(crate) fn push_u8(out: &mut Vec<u8>, x: u8)
    ensures
        final(out)@ == old(out)@ + enc_u8(x),
{
    out.push(x);
    proof {
        assert(out@ =~= old(out)@ + enc_u8(x));
    }
}

pub(crate) fn push_u16(out: &mut Vec<u8>, x: u16)
    ensures
        final(out)@ == old(out)@ + enc_u16(x),
{
    out.push((x >> 8u16) as u8);
    out.push(x as u8);
    proof {
        assert(out@ =~= old(out)@ + enc_u16(x));
    }
}

pub(crate) fn push_u32(out: &mut Vec<u8>, x: u32)
    ensures
        final(out)@ == old(out)@ + enc_u32(x),
{
    out.push((x >> 24u32) as u8);
    out.push((x >> 16u32) as u8);
    out.push((x >> 8u32) as u8);
    out.push(x as u8);
    proof {
        assert(out@ =~= old(out)@ + enc_u32(x));
    }
}

pub(crate) fn push_byte_string(out: &mut Vec<u8>, b: &Vec<u8>)
    requires
        b@.len() < 0x1_0000_0000,
    ensures
        final(out)@ == old(out)@ + enc_bytes(b@),
{
    push_u32(out, b.len() as u32);
    let mut i: usize = 0;
    while i < b.len()
        invariant
            i <= b@.len(),
            b@.len() < 0x1_0000_0000,
            out@ == old(out)@ + enc_u32(b@.len() as u32) + b@.subrange(0, i as int),
        decreases b@.len() - i,
    {
        out.push(b[i]);
        proof {
            assert(out@ =~= old(out)@ + enc_u32(b@.len() as u32) + b@.subrange(0, i + 1));
        }
        i += 1;
    }
    proof {
        assert(b@.subrange(0, b@.len() as int) =~= b@);
        assert(out@ =~= old(out)@ + enc_bytes(b@));
    }
}

fn push_address(out: &mut Vec<u8>, m: &Multiaddress)
    requires
        wf_address(m@),
    ensures
        final(out)@ == old(out)@ + enc_address(m@),
{
    push_byte_string(out, &m.host);
    push_u16(out, m.port);
    push_u8(out, m.transport);
    proof {
        assert(out@ =~= old(out)@ + enc_address(m@));
    }
}

proof fn lemma_enc_address_seq_snoc(a: Seq<AddressModel>, x: AddressModel)
    ensures
        enc_address_seq(a.push(x)) == enc_address_seq(a) + enc_address(x),
    decreases a.len(),
{
    if a.len() == 0 {
        assert(a.push(x)[0] == x);
        assert(a.push(x).skip(1) =~= Seq::<AddressModel>::empty());
        assert(a =~= Seq::<AddressModel>::empty());
        assert(enc_address_seq(Seq::<AddressModel>::empty()) == Seq::<u8>::empty());
        assert(enc_address_seq(a.push(x)) =~= enc_address_seq(a) + enc_address(x));
    } else {
        assert(a.push(x).skip(1) =~= a.skip(1).push(x));
        lemma_enc_address_seq_snoc(a.skip(1), x);
        assert(a.push(x)[0] == a[0]);
        assert(enc_address_seq(a.push(x)) == enc_address(a[0]) + enc_address_seq(
            a.skip(1).push(x),
        ));
        assert(enc_address_seq(a.push(x)) =~= enc_address_seq(a) + enc_address(x));
    }
}

fn push_address_list(out: &mut Vec<u8>, v: &Vec<Multiaddress>)
    requires
        wf_address_seq(addresses_view(v@)),
    ensures
        final(out)@ == old(out)@ + enc_address_list(addresses_view(v@)),
{
    let ghost a = addresses_view(v@);
    push_u32(out, v.len() as u32);
    let mut i: usize = 0;
    while i < v.len()
        invariant
            i <= v@.len(),
            a == addresses_view(v@),
            wf_address_seq(a),
            out@ == old(out)@ + enc_u32(a.len() as u32) + enc_address_seq(a.subrange(0, i as int)),
        decreases v@.len() - i,
    {
        proof {
            assert(wf_address(a[i as int]));
            lemma_enc_address_seq_snoc(a.subrange(0, i as int), a[i as int]);
            assert(a.subrange(0, i as int).push(a[i as int]) =~= a.subrange(0, i + 1));
        }
        push_address(out, &v[i]);
        i += 1;
    }
    proof {
        assert(a.subrange(0, a.len() as int) =~= a);
        assert(out@ =~= old(out)@ + enc_address_list(a));
    }
}

fn push_auth_data(out: &mut Vec<u8>, d: &AuthData)
    requires
        wf_auth_data(d@),
    ensures
        final(out)@ == old(out)@ + enc_auth_data(d@),
{
    push_address_list(out, &d.addresses);
    push_u32(out, d.node_id.0 as u32);
    push_u32(out, d.session_id.0);
    proof {
        assert(out@ =~= old(out)@ + enc_auth_data(d@));
    }
}

// ---------------------------------------------------------------------------
// Executable well-formedness checks
// ---------------------------------------------------------------------------
/// Whether an address fits the wire format's length prefixes.
pub fn address_fits(m: &Multiaddress) -> (r: bool)
    ensures
        r == wf_address(m@),
{
    (m.host.len() as u64) < 0x1_0000_0000u64
}

/// Whether an address list fits the wire format's length prefixes.
pub fn address_list_fits(v: &Vec<Multiaddress>) -> (r: bool)
    ensures
        r == wf_address_seq(addresses_view(v@)),
{
    if !((v.len() as u64) < 0x1_0000_0000u64) {
        return false;
    }
    let mut i: usize = 0;
    while i < v.len()
        invariant
            i <= v@.len(),
            v@.len() < 0x1_0000_0000,
            forall|k: int| 0 <= k < i ==> wf_address(#[trigger] addresses_view(v@)[k]),
        decreases v@.len() - i,
    {
        if !address_fits(&v[i]) {
            assert(!wf_address(addresses_view(v@)[i as int]));
            return false;
        }
        i += 1;
    }
    true
}

/// Whether an authentication's parts fit the wire format's length prefixes.
pub fn auth_data_fits(d: &AuthData) -> (r: bool)
    ensures
        r == wf_auth_data(d@),
{
    address_list_fits(&d.addresses) && (d.node_id.0 as u64) < 0x1_0000_0000u64
}

/// Whether a message fits the wire format's length prefixes.
pub fn network_data_fits(d: &NetworkData) -> (r: bool)
    ensures
        r == wf_network_data(d@),
{
    match d {
        NetworkData::Meta(msg) => auth_data_fits(&msg.auth_data) && (msg.signature.bytes.len()
            as u64) < 0x1_0000_0000u64,
        NetworkData::Data(p, _) => (p.len() as u64) < 0x1_0000_0000u64,
    }
}

/// Canonically encodes the signed part of an authentication: the bytes a
/// validator's signature must cover. Fails exactly when a length prefix
/// would overflow.
pub fn encode_auth_data(d: &AuthData) -> (r: Option<Vec<u8>>)
    ensures
        match r {
            Some(v) => wf_auth_data(d@) && v@ == enc_auth_data(d@),
            None => !wf_auth_data(d@),
        },
{
    if !auth_data_fits(d) {
        return None;
    }
    let mut out: Vec<u8> = Vec::new();
    push_auth_data(&mut out, d);
    proof {
        assert(out@ =~= enc_auth_data(d@));
    }
    Some(out)
}

/// Canonically encodes a message for the wire. Fails exactly when a length
/// prefix would overflow.
pub fn encode_network_data(d: &NetworkData) -> (r: Option<Vec<u8>>)
    ensures
        match r {
            Some(v) => wf_network_data(d@) && v@ == enc_network_data(d@),
            None => !wf_network_data(d@),
        },
{
    if !network_data_fits(d) {
        return None;
    }
    let mut out: Vec<u8> = Vec::new();
    match d {
        NetworkData::Meta(msg) => {
            push_u8(&mut out, 0);
            push_auth_data(&mut out, &msg.auth_data);
            push_byte_string(&mut out, &msg.signature.bytes);
        },
        NetworkData::Data(p, sid) => {
            push_u8(&mut out, 1);
            push_byte_string(&mut out, p);
            push_u32(&mut out, sid.0);
        },
    }
    proof {
        assert(out@ =~= enc_network_data(d@));
    }
    Some(out)
}

} // verus!

verus! {

// ---------------------------------------------------------------------------
// Executable decoders, each proved to agree with its specification decoder.
// ---------------------------------------------------------------------------
pub(crate) fn read_u8(s: &Vec<u8>, i: usize) -> (r: Option<(u8, usize)>)
    requires
        i <= s@.len(),
    ensures
        match r {
            Some(p) => dec_u8(s@, i as int) == Some((p.0, p.1 as int)) && p.1 <= s@.len(),
            None => dec_u8(s@, i as int) is None,
        },
{
    if s.len() - i >= 1 {
        Some((s[i], i + 1))
    } else {
        None
    }
}

fn read_u16(s: &Vec<u8>, i: usize) -> (r: Option<(u16, usize)>)
    requires
        i <= s@.len(),
    ensures
        match r {
            Some(p) => dec_u16(s@, i as int) == Some((p.0, p.1 as int)) && p.1 <= s@.len(),
            None => dec_u16(s@, i as int) is None,
        },
{
    if s.len() - i >= 2 {
        let x: u16 = ((s[i] as u16) << 8u16) | (s[i + 1] as u16);
        Some((x, i + 2))
    } else {
        None
    }
}

pub(crate) fn read_u32(s: &Vec<u8>, i: usize) -> (r: Option<(u32, usize)>)
    requires
        i <= s@.len(),
    ensures
        match r {
            Some(p) => dec_u32(s@, i as int) == Some((p.0, p.1 as int)) && p.1 <= s@.len(),
            None => dec_u32(s@, i as int) is None,
        },
{
    if s.len() - i >= 4 {
        let x: u32 = ((s[i] as u32) << 24u32) | ((s[i + 1] as u32) << 16u32) | ((s[i + 2] as u32)
            << 8u32) | (s[i + 3] as u32);
        Some((x, i + 4))
    } else {
        None
    }
}

pub(crate) fn read_byte_string(s: &Vec<u8>, i: usize) -> (r: Option<(Vec<u8>, usize)>)
    requires
        i <= s@.len(),
    ensures
        match r {
            Some(p) => dec_bytes(s@, i as int) == Some((p.0@, p.1 as int)) && p.1 <= s@.len(),
            None => dec_bytes(s@, i as int) is None,
        },
{
    match read_u32(s, i) {
        Some((n, j)) => {
            let need = n as usize;
            if s.len() - j >= need {
                let mut out: Vec<u8> = Vec::new();
                let mut k: usize = 0;
                while k < need
                    invariant
                        k <= need,
                        j + need <= s@.len(),
                        s@.len() <= usize::MAX,
                        out@ == s@.subrange(j as int, j as int + k as int),
                    decreases need - k,
                {
                    out.push(s[j + k]);
                    proof {
                        assert(out@ =~= s@.subrange(j as int, j as int + k as int + 1));
                    }
                    k += 1;
                }
                Some((out, j + need))
            } else {
                None
            }
        },
        None => None,
    }
}

fn read_address(s: &Vec<u8>, i: usize) -> (r: Option<(Multiaddress, usize)>)
    requires
        i <= s@.len(),
    ensures
        match r {
            Some(p) => dec_address(s@, i as int) == Some((p.0@, p.1 as int)) && p.1 <= s@.len(),
            None => dec_address(s@, i as int) is None,
        },
{
    match read_byte_string(s, i) {
        Some((host, j)) => match read_u16(s, j) {
            Some((port, k)) => match read_u8(s, k) {
                Some((tag, e)) => Some((Multiaddress { host, port, transport: tag }, e)),
                None => None,
            },
            None => None,
        },
        None => None,
    }
}

proof fn lemma_dec_address_seq_unfold(s: Seq<u8>, i: int, c: nat)
    requires
        c > 0,
    ensures
        dec_address_seq(s, i, c) == (match dec_address(s, i) {
            Some(head) => match dec_address_seq(s, head.1, (c - 1) as nat) {
                Some(rest) => Some::<(Seq<AddressModel>, int)>((seq![head.0] + rest.0, rest.1)),
                None => None::<(Seq<AddressModel>, int)>,
            },
            None => None::<(Seq<AddressModel>, int)>,
        }),
{
}

fn read_address_list(s: &Vec<u8>, i: usize) -> (r: Option<(Vec<Multiaddress>, usize)>)
    requires
        i <= s@.len(),
    ensures
        match r {
            Some(p) => dec_address_list(s@, i as int) == Some(
                (addresses_view(p.0@), p.1 as int),
            ) && p.1 <= s@.len(),
            None => dec_address_list(s@, i as int) is None,
        },
{
    match read_u32(s, i) {
        Some((n, j0)) => {
            let mut out: Vec<Multiaddress> = Vec::new();
            let mut cur: usize = j0;
            let mut k: u32 = 0;
            proof {
                let d0 = dec_address_seq(s@, j0 as int, n as nat);
                if d0 is Some {
                    assert(addresses_view(out@) + d0->Some_0.0 =~= d0->Some_0.0);
                }
            }
            while k < n
                invariant
                    k <= n,
                    cur <= s@.len(),
                    i <= s@.len(),
                    dec_u32(s@, i as int) == Some((n, j0 as int)),
                    dec_address_seq(s@, j0 as int, n as nat) == (match dec_address_seq(
                        s@,
                        cur as int,
                        (n - k) as nat,
                    ) {
                        Some(rest) => Some::<(Seq<AddressModel>, int)>(
                            (addresses_view(out@) + rest.0, rest.1),
                        ),
                        None => None::<(Seq<AddressModel>, int)>,
                    }),
                decreases n - k,
            {
                match read_address(s, cur) {
                    Some((addr, nxt)) => {
                        proof {
                            lemma_dec_address_seq_unfold(s@, cur as int, (n - k) as nat);
                            let inner = dec_address_seq(s@, nxt as int, (n - k - 1) as nat);
                            if inner is Some {
                                let rest = inner->Some_0;
                                assert(addresses_view(out@.push(addr)) =~= addresses_view(out@)
                                    + seq![addr@]);
                                assert(addresses_view(out@) + (seq![addr@] + rest.0)
                                    =~= addresses_view(out@.push(addr)) + rest.0);
                            }
                        }
                        out.push(addr);
                        cur = nxt;
                        k += 1;
                    },
                    None => {
                        proof {
                            lemma_dec_address_seq_unfold(s@, cur as int, (n - k) as nat);
                        }
                        return None;
                    },
                }
            }
            proof {
                assert(dec_address_seq(s@, cur as int, 0) == Some(
                    (Seq::<AddressModel>::empty(), cur as int),
                ));
                assert(addresses_view(out@) + Seq::<AddressModel>::empty() =~= addresses_view(
                    out@,
                ));
            }
            Some((out, cur))
        },
        None => None,
    }
}

fn read_auth_data(s: &Vec<u8>, i: usize) -> (r: Option<(AuthData, usize)>)
    requires
        i <= s@.len(),
    ensures
        match r {
            Some(p) => dec_auth_data(s@, i as int) == Some((p.0@, p.1 as int)) && p.1 <= s@.len(),
            None => dec_auth_data(s@, i as int) is None,
        },
{
    match read_address_list(s, i) {
        Some((addresses, j)) => match read_u32(s, j) {
            Some((node, k)) => match read_u32(s, k) {
                Some((sid, e)) => Some(
                    (
                        AuthData {
                            addresses,
                            node_id: NodeIndex(node as usize),
                            session_id: SessionId(sid),
                        },
                        e,
                    ),
                ),
                None => None,
            },
            None => None,
        },
        None => None,
    }
}

/// Decodes one message starting at a cursor; returns it with the cursor
/// after it.
pub fn read_network_data(s: &Vec<u8>, i: usize) -> (r: Option<(NetworkData, usize)>)
    requires
        i <= s@.len(),
    ensures
        match r {
            Some(p) => dec_network_data(s@, i as int) == Some((p.0@, p.1 as int)) && p.1
                <= s@.len(),
            None => dec_network_data(s@, i as int) is None,
        },
{
    match read_u8(s, i) {
        Some((tag, j)) => {
            if tag == 0 {
                match read_auth_data(s, j) {
                    Some((auth_data, k)) => match read_byte_string(s, k) {
                        Some((sig, e)) => Some(
                            (
                                NetworkData::Meta(
                                    DiscoveryMessage {
                                        auth_data,
                                        signature: Signature { bytes: sig },
                                    },
                                ),
                                e,
                            ),
                        ),
                        None => None,
                    },
                    None => None,
                }
            } else if tag == 1 {
                match read_byte_string(s, j) {
                    Some((payload, k)) => match read_u32(s, k) {
                        Some((sid, e)) => Some((NetworkData::Data(payload, SessionId(sid)), e)),
                        None => None,
                    },
                    None => None,
                }
            } else {
                None
            }
        },
        None => None,
    }
}


/// Decodes one wire message. Returns the value exactly when the bytes are a
/// canonical encoding with nothing left over.
pub fn decode_network_data(s: &Vec<u8>) -> (r: Option<NetworkData>)
    ensures
        match r {
            Some(v) => dec_network_data(s@, 0) == Some((v@, s@.len() as int)),
            None => (match dec_network_data(s@, 0) {
                Some(p) => p.1 != s@.len(),
                None => true,
            }),
        },
{
    match read_network_data(s, 0) {
        Some((v, e)) => {
            if e == s.len() {
                Some(v)
            } else {
                None
            }
        },
        None => None,
    }
}


/// Appends one byte vector to another.
pub(crate) fn append_bytes(out: &mut Vec<u8>, b: &Vec<u8>)
    ensures
        final(out)@ == old(out)@ + b@,
{
    let mut i: usize = 0;
    while i < b.len()
        invariant
            i <= b@.len(),
            out@ == old(out)@ + b@.subrange(0, i as int),
        decreases b@.len() - i,
    {
        out.push(b[i]);
        proof {
            assert(out@ =~= old(out)@ + b@.subrange(0, i + 1));
        }
        i += 1;
    }
    proof {
        assert(b@.subrange(0, b@.len() as int) =~= b@);
        assert(out@ =~= old(out)@ + b@);
    }
}

} // verus!
