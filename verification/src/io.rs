//! Framed I/O: every post-handshake message travels as a length-prefixed
//! frame `[u32 big-endian length] [u8 tag] [payload]`, where the length
//! counts the tag and the payload. Heartbeat frames (tag 0, empty payload)
//! are told apart from data frames (tag 1) here and never surface to the
//! application.

use vstd::prelude::*;

use crate::codec::{
    dec_network_data, dec_u32, enc_network_data, enc_u32, enc_u8, read_network_data,
    wf_network_data, encode_network_data,
};
use crate::manager::{NetworkData, NetworkDataModel};

verus! {

/// Largest allowed value of a frame's length field (tag plus payload): 16 MiB.
pub const MAX_FRAME_SIZE: u32 = 16 * 1024 * 1024;

/// Tag of a keepalive frame; its payload is empty.
pub const HEARTBEAT_TAG: u8 = 0;

/// Tag of a frame carrying one canonically encoded message.
pub const DATA_TAG: u8 = 1;

/// Why sending failed: the transport broke, or the value cannot be encoded
/// within the frame limits.
#[derive(Clone, Copy, PartialEq, Eq, Structural, Debug)]
pub enum SendError {
    Io,
    Encode,
}

/// Why receiving failed: the transport broke, the bytes were not a canonical
/// frame, the announced frame exceeded the limit, or the stream ended inside
/// a frame.
#[derive(Clone, Copy, PartialEq, Eq, Structural, Debug)]
pub enum ReceiveError {
    Io,
    Decode,
    FrameTooLarge,
    UnexpectedEof,
}

/// A complete frame for a tagged payload.
pub open spec fn enc_frame(tag: u8, payload: Seq<u8>) -> Seq<u8> {
    enc_u32((payload.len() + 1) as u32) + enc_u8(tag) + payload
}

/// Whether a payload fits one frame.
pub open spec fn frame_fits(payload: Seq<u8>) -> bool {
    payload.len() + 1 <= MAX_FRAME_SIZE
}

/// The frame a data message travels in.
pub open spec fn data_frame(m: NetworkDataModel) -> Seq<u8> {
    enc_frame(DATA_TAG, enc_network_data(m))
}

/// Whether a message can be sent at all: encodable and within the frame limit.
pub open spec fn sendable(m: NetworkDataModel) -> bool {
    wf_network_data(m) && frame_fits(enc_network_data(m))
}

/// Accepts an announced frame length exactly up to the limit; a longer frame
/// is a protocol error.
pub fn check_frame_length(len: u32) -> (r: Result<(), ReceiveError>)
    ensures
        r is Ok <==> len <= MAX_FRAME_SIZE,
        r is Err ==> r == Err::<(), ReceiveError>(ReceiveError::FrameTooLarge),
{
    if len <= MAX_FRAME_SIZE {
        Ok(())
    } else {
        Err(ReceiveError::FrameTooLarge)
    }
}

fn push_frame(out: &mut Vec<u8>, tag: u8, payload: &Vec<u8>)
    requires
        frame_fits(payload@),
    ensures
        final(out)@ == old(out)@ + enc_frame(tag, payload@),
{
    let len: u32 = (payload.len() as u32) + 1;
    crate::codec::push_u32(out, len);
    crate::codec::push_u8(out, tag);
    let mut i: usize = 0;
    while i < payload.len()
        invariant
            i <= payload@.len(),
            frame_fits(payload@),
            out@ == old(out)@ + enc_u32((payload@.len() + 1) as u32) + enc_u8(tag)
                + payload@.subrange(0, i as int),
        decreases payload@.len() - i,
    {
        out.push(payload[i]);
        proof {
            assert(out@ =~= old(out)@ + enc_u32((payload@.len() + 1) as u32) + enc_u8(tag)
                + payload@.subrange(0, i + 1));
        }
        i += 1;
    }
    proof {
        assert(payload@.subrange(0, payload@.len() as int) =~= payload@);
        assert(out@ =~= old(out)@ + enc_frame(tag, payload@));
    }
}

/// The keepalive frame: tag 0, empty payload.
pub fn heartbeat_frame() -> (r: Vec<u8>)
    ensures
        r@ == enc_frame(HEARTBEAT_TAG, Seq::<u8>::empty()),
{
    let payload: Vec<u8> = Vec::new();
    let mut out: Vec<u8> = Vec::new();
    push_frame(&mut out, HEARTBEAT_TAG, &payload);
    proof {
        assert(out@ =~= enc_frame(HEARTBEAT_TAG, Seq::<u8>::empty()));
    }
    out
}

/// Produces the exact wire bytes for one message: its canonical encoding in
/// one data frame. Fails with the encode error exactly when the message does
/// not fit the wire format.
pub fn send_data(data: &NetworkData) -> (r: Result<Vec<u8>, SendError>)
    ensures
        match r {
            Ok(v) => sendable(data@) && v@ == data_frame(data@),
            Err(e) => !sendable(data@) && e == SendError::Encode,
        },
{
    match encode_network_data(data) {
        Some(payload) => {
            if (payload.len() as u64) < (MAX_FRAME_SIZE as u64) {
                let mut out: Vec<u8> = Vec::new();
                push_frame(&mut out, DATA_TAG, &payload);
                proof {
                    assert(out@ =~= data_frame(data@));
                }
                Ok(out)
            } else {
                Err(SendError::Encode)
            }
        },
        None => Err(SendError::Encode),
    }
}

/// What a frame body (tag plus payload, after the length prefix was read and
/// checked) means: a heartbeat, one message, or a protocol error.
pub open spec fn frame_body_meaning(body: Seq<u8>) -> Result<
    Option<NetworkDataModel>,
    ReceiveError,
> {
    if body.len() == 0 {
        Err(ReceiveError::UnexpectedEof)
    } else if body[0] == HEARTBEAT_TAG {
        if body.len() == 1 {
            Ok(None)
        } else {
            Err(ReceiveError::Decode)
        }
    } else if body[0] == DATA_TAG {
        match dec_network_data(body, 1) {
            Some(p) => {
                if p.1 == body.len() {
                    Ok(Some(p.0))
                } else {
                    Err(ReceiveError::Decode)
                }
            },
            None => Err(ReceiveError::Decode),
        }
    } else {
        Err(ReceiveError::Decode)
    }
}

/// Interprets one received frame body. A heartbeat yields nothing for the
/// application; a data frame yields its message; anything else is an error.
pub fn receive_data(body: &Vec<u8>) -> (r: Result<Option<NetworkData>, ReceiveError>)
    ensures
        match r {
            Ok(v) => (match v {
                Some(d) => frame_body_meaning(body@) == Ok::<Option<NetworkDataModel>,
                    ReceiveError>(Some(d@)),
                None => frame_body_meaning(body@) == Ok::<Option<NetworkDataModel>,
                    ReceiveError>(None),
            }),
            Err(e) => frame_body_meaning(body@) == Err::<Option<NetworkDataModel>,
                ReceiveError>(e),
        },
{
    if body.len() == 0 {
        return Err(ReceiveError::UnexpectedEof);
    }
    let tag = body[0];
    if tag == HEARTBEAT_TAG {
        if body.len() == 1 {
            Ok(None)
        } else {
            Err(ReceiveError::Decode)
        }
    } else if tag == DATA_TAG {
        match read_network_data(body, 1) {
            Some((v, e)) => {
                if e == body.len() {
                    Ok(Some(v))
                } else {
                    Err(ReceiveError::Decode)
                }
            },
            None => Err(ReceiveError::Decode),
        }
    } else {
        Err(ReceiveError::Decode)
    }
}

} // verus!

verus! {

// ---------------------------------------------------------------------------
// Frame streams: what a whole sequence of frames carries, in order.
// ---------------------------------------------------------------------------
/// The messages a sequence of exec values denotes.
pub open spec fn models_of(v: Seq<NetworkData>) -> Seq<NetworkDataModel> {
    v.map_values(|d: NetworkData| d@)
}

/// The wire bytes of a sequence of messages: one data frame each, in order.
pub open spec fn wire_of(ps: Seq<NetworkDataModel>) -> Seq<u8>
    decreases ps.len(),
{
    if ps.len() == 0 {
        Seq::<u8>::empty()
    } else {
        data_frame(ps[0]) + wire_of(ps.skip(1))
    }
}

/// Parses a stream of frames from a cursor to the end: every frame must be
/// well formed and within the limit; heartbeats are dropped; the carried
/// messages come back in wire order.
pub open spec fn dec_frame_stream(s: Seq<u8>, i: int) -> Option<Seq<NetworkDataModel>>
    decreases s.len() - i,
{
    if i < 0 || i > s.len() {
        None
    } else if i == s.len() {
        Some(Seq::<NetworkDataModel>::empty())
    } else {
        match dec_u32(s, i) {
            Some(n) => {
                if 1 <= n.0 && n.0 <= MAX_FRAME_SIZE && n.1 + n.0 <= s.len() {
                    match frame_body_meaning(s.subrange(n.1, n.1 + n.0 as int)) {
                        Ok(v) => match dec_frame_stream(s, n.1 + n.0 as int) {
                            Some(tail) => Some(
                                match v {
                                    Some(m) => seq![m] + tail,
                                    None => tail,
                                },
                            ),
                            None => None,
                        },
                        Err(_) => None,
                    }
                } else {
                    None
                }
            },
            None => None,
        }
    }
}

#[verifier::rlimit(100)]
#[verifier::spinoff_prover]
proof fn lemma_frame_body_of_data(m: NetworkDataModel)
    requires
        wf_network_data(m),
    ensures
        frame_body_meaning(enc_u8(DATA_TAG) + enc_network_data(m)) == Ok::<
            Option<NetworkDataModel>,
            ReceiveError,
        >(Some(m)),
{
    let body = enc_u8(DATA_TAG) + enc_network_data(m);
    assert(body =~= enc_u8(DATA_TAG) + enc_network_data(m) + Seq::<u8>::empty());
    crate::codec::lemma_rt_network_data(enc_u8(DATA_TAG), m, Seq::<u8>::empty());
    assert(body[0] == DATA_TAG);
    assert(dec_network_data(body, 1) == Some((m, body.len() as int)));
}

#[verifier::rlimit(100)]
#[verifier::spinoff_prover]
proof fn lemma_rt_stream(pre: Seq<u8>, ps: Seq<NetworkDataModel>)
    requires
        forall|k: int| 0 <= k < ps.len() ==> sendable(#[trigger] ps[k]),
    ensures
        dec_frame_stream(pre + wire_of(ps), pre.len() as int) == Some(ps),
    decreases ps.len(),
{
    let s = pre + wire_of(ps);
    if ps.len() == 0 {
        assert(wire_of(ps) =~= Seq::<u8>::empty());
        assert(s =~= pre);
        assert(ps =~= Seq::<NetworkDataModel>::empty());
    } else {
        let m = ps[0];
        assert(sendable(m));
        let payload = enc_network_data(m);
        let body = enc_u8(DATA_TAG) + payload;
        let len: u32 = (payload.len() + 1) as u32;
        let rest = wire_of(ps.skip(1));
        assert(wire_of(ps) == data_frame(m) + rest);
        assert(s =~= pre + enc_u32(len) + (body + rest));
        crate::codec::lemma_rt_u32(pre, len, body + rest);
        let i = pre.len() as int;
        assert(dec_u32(s, i) == Some((len, i + 4)));
        assert(s.len() == i + 4 + len as int + rest.len());
        assert(s.subrange(i + 4, i + 4 + len as int) =~= body);
        lemma_frame_body_of_data(m);
        assert(frame_body_meaning(s.subrange(i + 4, i + 4 + len as int)) == Ok::<
            Option<NetworkDataModel>,
            ReceiveError,
        >(Some(m)));
        let p1 = pre + data_frame(m);
        assert(s =~= p1 + rest);
        lemma_rt_stream(p1, ps.skip(1));
        assert(p1.len() as int == i + 4 + len as int);
        assert(dec_frame_stream(s, i + 4 + len as int) == Some(ps.skip(1)));
        assert(seq![m] + ps.skip(1) =~= ps);
    }
}

/// First-in, first-out within one stream: the wire stream that carries a
/// sequence of messages parses back to exactly that sequence, in the order
/// in which the messages were enqueued.
pub proof fn lemma_stream_fifo(ps: Seq<NetworkDataModel>)
    requires
        forall|k: int| 0 <= k < ps.len() ==> sendable(#[trigger] ps[k]),
    ensures
        dec_frame_stream(wire_of(ps), 0) == Some(ps),
{
    lemma_rt_stream(Seq::<u8>::empty(), ps);
    assert(Seq::<u8>::empty() + wire_of(ps) =~= wire_of(ps));
}

} // verus!
