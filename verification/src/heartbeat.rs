//! Heartbeat liveness: one side emits an empty keepalive frame on a fixed
//! interval; the other resets a dead-man's timer on every inbound frame and
//! declares cardiac arrest when the silence reaches the deadline.

use vstd::prelude::*;

verus! {

/// How often a keepalive frame is sent, in milliseconds.
pub const HEARTBEAT_INTERVAL_MS: u64 = 4000;

/// How much silence the receiver tolerates before declaring the peer dead,
/// in milliseconds.
pub const HEARTBEAT_DEADLINE_MS: u64 = 10000;

/// Sender side: whether the next keepalive is due.
pub fn heartbeat_due(now_ms: u64, last_sent_ms: u64) -> (r: bool)
    requires
        last_sent_ms <= now_ms,
    ensures
        r == (now_ms - last_sent_ms >= HEARTBEAT_INTERVAL_MS),
{
    now_ms - last_sent_ms >= HEARTBEAT_INTERVAL_MS
}

/// Receiver side: whether the silence since the last inbound frame (heartbeat
/// or data) has reached the deadline.
pub fn cardiac_arrest(now_ms: u64, last_frame_ms: u64) -> (r: bool)
    requires
        last_frame_ms <= now_ms,
    ensures
        r == (now_ms - last_frame_ms >= HEARTBEAT_DEADLINE_MS),
{
    now_ms - last_frame_ms >= HEARTBEAT_DEADLINE_MS
}

/// A peer whose frames are never more than the heartbeat interval apart is
/// never declared dead: the deadline strictly exceeds the interval.
pub proof fn lemma_live_peer_never_dead(now_ms: u64, last_frame_ms: u64)
    requires
        last_frame_ms <= now_ms,
        now_ms - last_frame_ms <= HEARTBEAT_INTERVAL_MS,
    ensures
        !(now_ms - last_frame_ms >= HEARTBEAT_DEADLINE_MS),
{
}

/// A silent peer is detected within the window between the heartbeat interval
/// and the deadline: death is never declared before the interval has passed,
/// and always once the deadline has.
pub proof fn lemma_silence_detected_in_window(now_ms: u64, last_frame_ms: u64)
    requires
        last_frame_ms <= now_ms,
    ensures
        (now_ms - last_frame_ms >= HEARTBEAT_DEADLINE_MS) ==> (now_ms - last_frame_ms
            >= HEARTBEAT_INTERVAL_MS),
        (now_ms - last_frame_ms < HEARTBEAT_INTERVAL_MS) ==> !(now_ms - last_frame_ms
            >= HEARTBEAT_DEADLINE_MS),
{
}

} // verus!
