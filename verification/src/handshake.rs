//! Handshake: each side sends one signed frame
//! `[u8 version][u32 len][ValidatorId bytes][u32 len][nonce][u32 len][signature]`,
//! where the signature covers `version ‖ ValidatorId ‖ nonce`. This is the only
//! place identity is established; nothing downstream re-authenticates. The
//! cryptographic check itself is the embedder's; its verdict comes in as an
//! argument and every acceptance condition is stated over it.

use vstd::prelude::*;

use crate::codec::{
    dec_u8, enc_u8, dec_bytes, enc_bytes, lemma_rt_bytes, lemma_rt_u8, push_byte_string, push_u8,
    read_byte_string, read_u8,
};
use crate::copy_bytes;
use crate::ValidatorId;

verus! {

/// The only wire protocol version spoken.
pub const PROTOCOL_VERSION: u8 = 0;

/// Why a handshake failed.
#[derive(Clone, Copy, PartialEq, Eq, Structural, Debug)]
pub enum HandshakeError {
    Io,
    BadSignature,
    IdentityMismatch,
    UnsupportedVersion,
    Timeout,
    SelfConnection,
}

/// One side's handshake frame: its claimed identity, a fresh nonce, and a
/// signature over `version ‖ identity ‖ nonce`.
#[derive(Clone, PartialEq, Eq, Debug)]
pub struct HandshakeFrame {
    pub version: u8,
    pub claimed: ValidatorId,
    pub nonce: Vec<u8>,
    pub signature: Vec<u8>,
}

/// Mathematical value of a [`HandshakeFrame`].
pub ghost struct HandshakeFrameModel {
    pub version: u8,
    pub claimed: Seq<u8>,
    pub nonce: Seq<u8>,
    pub signature: Seq<u8>,
}

impl View for HandshakeFrame {
    type V = HandshakeFrameModel;

    open spec fn view(&self) -> HandshakeFrameModel {
        HandshakeFrameModel {
            version: self.version,
            claimed: self.claimed@,
            nonce: self.nonce@,
            signature: self.signature@,
        }
    }
}

/// The bytes of a handshake frame.
pub open spec fn enc_handshake(f: HandshakeFrameModel) -> Seq<u8> {
    enc_u8(f.version) + enc_bytes(f.claimed) + enc_bytes(f.nonce) + enc_bytes(f.signature)
}

/// Whether a frame fits its length prefixes.
pub open spec fn wf_handshake(f: HandshakeFrameModel) -> bool {
    &&& f.claimed.len() < 0x1_0000_0000
    &&& f.nonce.len() < 0x1_0000_0000
    &&& f.signature.len() < 0x1_0000_0000
}

/// The bytes the frame's signature must cover: `version ‖ identity ‖ nonce`.
pub open spec fn signed_part(f: HandshakeFrameModel) -> Seq<u8> {
    enc_u8(f.version) + f.claimed + f.nonce
}

/// Parses a handshake frame from a cursor.
pub open spec fn dec_handshake(s: Seq<u8>, i: int) -> Option<(HandshakeFrameModel, int)> {
    match dec_u8(s, i) {
        Some(v) => match dec_bytes(s, v.1) {
            Some(id) => match dec_bytes(s, id.1) {
                Some(nonce) => match dec_bytes(s, nonce.1) {
                    Some(sig) => Some(
                        (
                            HandshakeFrameModel {
                                version: v.0,
                                claimed: id.0,
                                nonce: nonce.0,
                                signature: sig.0,
                            },
                            sig.1,
                        ),
                    ),
                    None => None,
                },
                None => None,
            },
            None => None,
        },
        None => None,
    }
}

/// Round trip: parsing the encoding of a well-formed handshake frame yields
/// the frame back, wherever it stands in the stream.
pub proof fn lemma_handshake_round_trip(pre: Seq<u8>, f: HandshakeFrameModel, post: Seq<u8>)
    requires
        wf_handshake(f),
    ensures
        dec_handshake(pre + enc_handshake(f) + post, pre.len() as int) == Some(
            (f, pre.len() as int + enc_handshake(f).len() as int),
        ),
{
    let s = pre + enc_handshake(f) + post;
    assert(s =~= pre + enc_u8(f.version) + (enc_bytes(f.claimed) + enc_bytes(f.nonce) + enc_bytes(
        f.signature,
    ) + post));
    lemma_rt_u8(
        pre,
        f.version,
        enc_bytes(f.claimed) + enc_bytes(f.nonce) + enc_bytes(f.signature) + post,
    );
    let p1 = pre + enc_u8(f.version);
    assert(s =~= p1 + enc_bytes(f.claimed) + (enc_bytes(f.nonce) + enc_bytes(f.signature) + post));
    lemma_rt_bytes(p1, f.claimed, enc_bytes(f.nonce) + enc_bytes(f.signature) + post);
    let p2 = p1 + enc_bytes(f.claimed);
    assert(s =~= p2 + enc_bytes(f.nonce) + (enc_bytes(f.signature) + post));
    lemma_rt_bytes(p2, f.nonce, enc_bytes(f.signature) + post);
    let p3 = p2 + enc_bytes(f.nonce);
    assert(s =~= p3 + enc_bytes(f.signature) + post);
    lemma_rt_bytes(p3, f.signature, post);
}

/// Encodes a handshake frame; fails exactly when a length prefix would
/// overflow.
pub fn encode_handshake(f: &HandshakeFrame) -> (r: Option<Vec<u8>>)
    ensures
        match r {
            Some(v) => wf_handshake(f@) && v@ == enc_handshake(f@),
            None => !wf_handshake(f@),
        },
{
    if !((f.claimed.key.len() as u64) < 0x1_0000_0000u64 && (f.nonce.len() as u64)
        < 0x1_0000_0000u64 && (f.signature.len() as u64) < 0x1_0000_0000u64) {
        return None;
    }
    let mut out: Vec<u8> = Vec::new();
    push_u8(&mut out, f.version);
    push_byte_string(&mut out, &f.claimed.key);
    push_byte_string(&mut out, &f.nonce);
    push_byte_string(&mut out, &f.signature);
    proof {
        assert(out@ =~= enc_handshake(f@));
    }
    Some(out)
}

/// Parses a received handshake frame; a malformed frame is a transport-level
/// failure.
pub fn parse_handshake(s: &Vec<u8>) -> (r: Result<HandshakeFrame, HandshakeError>)
    ensures
        match r {
            Ok(f) => dec_handshake(s@, 0) == Some((f@, s@.len() as int)),
            Err(e) => e == HandshakeError::Io && (match dec_handshake(s@, 0) {
                Some(p) => p.1 != s@.len(),
                None => true,
            }),
        },
{
    match read_u8(s, 0) {
        Some((version, i)) => match read_byte_string(s, i) {
            Some((key, j)) => match read_byte_string(s, j) {
                Some((nonce, k)) => match read_byte_string(s, k) {
                    Some((signature, e)) => {
                        if e == s.len() {
                            Ok(
                                HandshakeFrame {
                                    version,
                                    claimed: ValidatorId { key },
                                    nonce,
                                    signature,
                                },
                            )
                        } else {
                            Err(HandshakeError::Io)
                        }
                    },
                    None => Err(HandshakeError::Io),
                },
                None => Err(HandshakeError::Io),
            },
            None => Err(HandshakeError::Io),
        },
        None => Err(HandshakeError::Io),
    }
}

/// The bytes the peer's signature must have covered, for the embedder's
/// cryptographic check.
pub fn signed_bytes(f: &HandshakeFrame) -> (r: Vec<u8>)
    ensures
        r@ == signed_part(f@),
{
    let mut out: Vec<u8> = Vec::new();
    push_u8(&mut out, f.version);
    let key = copy_bytes(&f.claimed.key);
    let nonce = copy_bytes(&f.nonce);
    let mut i: usize = 0;
    while i < key.len()
        invariant
            i <= key@.len(),
            key@ == f.claimed@,
            out@ == enc_u8(f@.version) + key@.subrange(0, i as int),
        decreases key@.len() - i,
    {
        out.push(key[i]);
        proof {
            assert(out@ =~= enc_u8(f@.version) + key@.subrange(0, i + 1));
        }
        i += 1;
    }
    proof {
        assert(key@.subrange(0, key@.len() as int) =~= key@);
    }
    let mut j: usize = 0;
    while j < nonce.len()
        invariant
            j <= nonce@.len(),
            nonce@ == f.nonce@,
            key@ == f.claimed@,
            out@ == enc_u8(f@.version) + key@ + nonce@.subrange(0, j as int),
        decreases nonce@.len() - j,
    {
        out.push(nonce[j]);
        proof {
            assert(out@ =~= enc_u8(f@.version) + key@ + nonce@.subrange(0, j + 1));
        }
        j += 1;
    }
    proof {
        assert(nonce@.subrange(0, nonce@.len() as int) =~= nonce@);
        assert(out@ =~= signed_part(f@));
    }
    out
}

/// Outgoing side: accepts the peer's frame exactly when the version is ours,
/// the embedder's cryptographic check passed, and the claimed identity is the
/// one this worker set out to reach.
pub fn verify_outgoing_handshake(f: &HandshakeFrame, expected: &ValidatorId, sig_ok: bool) -> (r:
    Result<(), HandshakeError>)
    ensures
        r is Ok <==> (f@.version == PROTOCOL_VERSION && sig_ok && f@.claimed == expected@),
        f@.version != PROTOCOL_VERSION ==> r == Err::<(), HandshakeError>(
            HandshakeError::UnsupportedVersion,
        ),
        f@.version == PROTOCOL_VERSION && !sig_ok ==> r == Err::<(), HandshakeError>(
            HandshakeError::BadSignature,
        ),
        f@.version == PROTOCOL_VERSION && sig_ok && f@.claimed != expected@ ==> r == Err::<
            (),
            HandshakeError,
        >(HandshakeError::IdentityMismatch),
{
    if f.version != PROTOCOL_VERSION {
        Err(HandshakeError::UnsupportedVersion)
    } else if !sig_ok {
        Err(HandshakeError::BadSignature)
    } else if !f.claimed.equals(expected) {
        Err(HandshakeError::IdentityMismatch)
    } else {
        Ok(())
    }
}

/// Incoming side: learns the peer's identity. Accepts exactly when the
/// version is ours, the embedder's cryptographic check passed, and the
/// claimed identity is not our own; the identity returned is the one whose
/// key the cryptographic check vouched for.
pub fn verify_incoming_handshake(f: &HandshakeFrame, local: &ValidatorId, sig_ok: bool) -> (r:
    Result<ValidatorId, HandshakeError>)
    ensures
        match r {
            Ok(peer) => f@.version == PROTOCOL_VERSION && sig_ok && peer@ == f@.claimed && peer@
                != local@,
            Err(e) => {
                &&& (f@.version == PROTOCOL_VERSION && sig_ok && f@.claimed != local@) == false
                &&& (f@.version != PROTOCOL_VERSION ==> e == HandshakeError::UnsupportedVersion)
                &&& (f@.version == PROTOCOL_VERSION && !sig_ok ==> e == HandshakeError::BadSignature)
                &&& (f@.version == PROTOCOL_VERSION && sig_ok && f@.claimed == local@ ==> e
                    == HandshakeError::SelfConnection)
            },
        },
{
    if f.version != PROTOCOL_VERSION {
        Err(HandshakeError::UnsupportedVersion)
    } else if !sig_ok {
        Err(HandshakeError::BadSignature)
    } else if f.claimed.equals(local) {
        Err(HandshakeError::SelfConnection)
    } else {
        Ok(ValidatorId { key: copy_bytes(&f.claimed.key) })
    }
}

/// Decides whether a handshake has run out of time: past the timeout it
/// fails with the timeout error and the stream is to be closed.
pub fn check_handshake_deadline(elapsed_ms: u64, timeout_ms: u64) -> (r: Result<
    (),
    HandshakeError,
>)
    ensures
        r is Ok <==> elapsed_ms < timeout_ms,
        r is Err ==> r == Err::<(), HandshakeError>(HandshakeError::Timeout),
{
    if elapsed_ms < timeout_ms {
        Ok(())
    } else {
        Err(HandshakeError::Timeout)
    }
}

} // verus!
