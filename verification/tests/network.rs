use validator_network::codec::{decode_network_data, encode_network_data};
use validator_network::discovery::{
    choose_rebroadcast_targets, rebroadcast_count, Discovery, DiscoveryMessage,
};
use validator_network::handshake::{
    check_handshake_deadline, encode_handshake, parse_handshake, signed_bytes,
    verify_incoming_handshake, verify_outgoing_handshake, HandshakeError, HandshakeFrame,
};
use validator_network::heartbeat::{cardiac_arrest, heartbeat_due};
use validator_network::io::{
    check_frame_length, heartbeat_frame, receive_data, ReceiveError, SendError, MAX_FRAME_SIZE,
};
use validator_network::manager::{
    apply_jitter, next_backoff, AuthData, ConnectionManager, IncomingDecision, NetworkData,
    OutgoingSlot, SessionRegistry, Signature,
};
use validator_network::protocols::{
    receiving, sending, IncomingAction, IncomingEvent, IncomingWorker, OutgoingAction,
    OutgoingEvent, OutgoingWorker, Protocol, ProtocolError, WorkerPhase,
};
use validator_network::session::Handler;
use validator_network::{Multiaddress, NodeIndex, SessionId, ValidatorId};

fn vid(b: u8) -> ValidatorId {
    ValidatorId { key: vec![b; 32] }
}

fn addr(h: u8, port: u16) -> Multiaddress {
    Multiaddress { host: vec![h, h, h], port, transport: 1 }
}

fn sample_auth(node: usize, session: u32) -> AuthData {
    AuthData::new(vec![addr(10, 30333), addr(11, 30334)], NodeIndex(node), SessionId(session))
}

fn data_msg(payload: Vec<u8>, session: u32) -> NetworkData {
    NetworkData::Data(payload, SessionId(session))
}

fn handshake_of(id: &ValidatorId) -> HandshakeFrame {
    HandshakeFrame {
        version: 0,
        claimed: id.clone(),
        nonce: vec![9, 9, 9, 9],
        signature: vec![7; 64],
    }
}

// ---------------------------------------------------------------------------
// Canonical encoding
// ---------------------------------------------------------------------------
#[test]
fn data_round_trip() {
    let msg = data_msg(vec![2, 1, 3, 7], 7);
    let bytes = encode_network_data(&msg).expect("should encode");
    assert_eq!(decode_network_data(&bytes), Some(msg));
}

#[test]
fn meta_round_trip() {
    let msg = NetworkData::Meta(DiscoveryMessage {
        auth_data: sample_auth(2, 43),
        signature: Signature { bytes: vec![5; 64] },
    });
    let bytes = encode_network_data(&msg).expect("should encode");
    assert_eq!(decode_network_data(&bytes), Some(msg));
}

#[test]
fn encoding_is_deterministic() {
    let msg = data_msg(vec![4, 3, 43], 7);
    assert_eq!(encode_network_data(&msg), encode_network_data(&msg));
}

#[test]
fn decode_rejects_trailing_bytes() {
    let msg = data_msg(vec![1], 1);
    let mut bytes = encode_network_data(&msg).expect("should encode");
    bytes.push(0);
    assert_eq!(decode_network_data(&bytes), None);
}

#[test]
fn decode_rejects_unknown_tag() {
    let bytes = vec![9, 0, 0, 0, 0];
    assert_eq!(decode_network_data(&bytes), None);
}

#[test]
fn data_encoding_exact_bytes() {
    let msg = data_msg(vec![4, 3, 43], 7);
    let bytes = encode_network_data(&msg).expect("should encode");
    assert_eq!(bytes, vec![1, 0, 0, 0, 3, 4, 3, 43, 0, 0, 0, 7]);
}

// ---------------------------------------------------------------------------
// Framing
// ---------------------------------------------------------------------------
#[test]
fn frame_of_exactly_the_limit_accepted() {
    assert!(check_frame_length(MAX_FRAME_SIZE).is_ok());
    assert!(check_frame_length(16 * 1024 * 1024).is_ok());
}

#[test]
fn frame_over_the_limit_rejected() {
    assert_eq!(
        check_frame_length(16 * 1024 * 1024 + 1),
        Err(ReceiveError::FrameTooLarge)
    );
}

#[test]
fn heartbeat_frame_shape() {
    assert_eq!(heartbeat_frame(), vec![0, 0, 0, 1, 0]);
}

#[test]
fn heartbeat_never_surfaces() {
    let body = vec![0u8];
    assert_eq!(receive_data(&body), Ok(None));
}

#[test]
fn send_and_receive_one_frame() {
    let msg = data_msg(vec![2, 1, 3, 7], 7);
    let wire = validator_network::io::send_data(&msg).expect("should frame");
    // Strip the length prefix and hand the body over, as the stream reader does.
    let len = u32::from_be_bytes([wire[0], wire[1], wire[2], wire[3]]) as usize;
    assert!(check_frame_length(len as u32).is_ok());
    let body: Vec<u8> = wire[4..4 + len].to_vec();
    assert_eq!(receive_data(&body), Ok(Some(msg)));
}

#[test]
fn truncated_body_is_a_receive_error() {
    let body: Vec<u8> = vec![];
    assert_eq!(receive_data(&body), Err(ReceiveError::UnexpectedEof));
    let garbled = vec![1u8, 0, 0];
    assert_eq!(receive_data(&garbled), Err(ReceiveError::Decode));
}

// ---------------------------------------------------------------------------
// The pumps: first in, first out within one stream
// ---------------------------------------------------------------------------
#[test]
fn pumped_payloads_arrive_in_order() {
    let items = vec![
        data_msg(vec![4, 3, 43], 7),
        data_msg(vec![2, 1, 3, 7], 7),
        data_msg(vec![99], 7),
    ];
    let wire = sending(&items).expect("all fit");
    let delivered = receiving(&wire).expect("well-formed stream");
    assert_eq!(delivered, items);
}

#[test]
fn receiving_swallows_heartbeats() {
    let items = vec![data_msg(vec![4, 3, 43], 7), data_msg(vec![2, 1, 3, 7], 7)];
    let mut wire = heartbeat_frame();
    wire.extend(sending(&vec![items[0].clone()]).expect("fits"));
    wire.extend(heartbeat_frame());
    wire.extend(sending(&vec![items[1].clone()]).expect("fits"));
    wire.extend(heartbeat_frame());
    let delivered = receiving(&wire).expect("well-formed stream");
    assert_eq!(delivered, items);
}

#[test]
fn receiving_rejects_garbage() {
    let wire = vec![0u8, 0, 0, 2, 9, 9];
    assert_eq!(receiving(&wire), None);
}

// ---------------------------------------------------------------------------
// Handshake
// ---------------------------------------------------------------------------
#[test]
fn handshake_frame_round_trip() {
    let f = handshake_of(&vid(1));
    let bytes = encode_handshake(&f).expect("should encode");
    assert_eq!(parse_handshake(&bytes), Ok(f));
}

#[test]
fn handshake_signed_part_shape() {
    let f = handshake_of(&vid(1));
    let mut expected = vec![0u8];
    expected.extend(f.claimed.key.clone());
    expected.extend(f.nonce.clone());
    assert_eq!(signed_bytes(&f), expected);
}

#[test]
fn outgoing_handshake_accepts_expected_peer() {
    let peer = vid(1);
    let f = handshake_of(&peer);
    assert!(verify_outgoing_handshake(&f, &peer, true).is_ok());
}

#[test]
fn outgoing_handshake_error_taxonomy() {
    let peer = vid(1);
    let f = handshake_of(&peer);
    assert_eq!(
        verify_outgoing_handshake(&f, &peer, false),
        Err(HandshakeError::BadSignature)
    );
    assert_eq!(
        verify_outgoing_handshake(&f, &vid(2), true),
        Err(HandshakeError::IdentityMismatch)
    );
    let mut wrong_version = handshake_of(&peer);
    wrong_version.version = 1;
    assert_eq!(
        verify_outgoing_handshake(&wrong_version, &peer, true),
        Err(HandshakeError::UnsupportedVersion)
    );
}

#[test]
fn incoming_handshake_learns_peer_and_refuses_self() {
    let local = vid(3);
    let peer = vid(1);
    let f = handshake_of(&peer);
    assert_eq!(verify_incoming_handshake(&f, &local, true), Ok(peer));
    let own = handshake_of(&local);
    assert_eq!(
        verify_incoming_handshake(&own, &local, true),
        Err(HandshakeError::SelfConnection)
    );
}

#[test]
fn handshake_past_deadline_times_out() {
    assert!(check_handshake_deadline(9999, 10000).is_ok());
    assert_eq!(
        check_handshake_deadline(10000, 10000),
        Err(HandshakeError::Timeout)
    );
}

// ---------------------------------------------------------------------------
// Heartbeat liveness window
// ---------------------------------------------------------------------------
#[test]
fn heartbeat_window() {
    assert!(!cardiac_arrest(1000 + 4000, 1000));
    assert!(!cardiac_arrest(1000 + 9999, 1000));
    assert!(cardiac_arrest(1000 + 10000, 1000));
    assert!(!heartbeat_due(1000 + 3999, 1000));
    assert!(heartbeat_due(1000 + 4000, 1000));
}

// ---------------------------------------------------------------------------
// Protocol worker scenarios
// ---------------------------------------------------------------------------
fn connected_pair() -> (OutgoingWorker, IncomingWorker) {
    let a = vid(1); // incoming side's identity
    let b = vid(2); // outgoing side's identity
    let (out_w, act) = Protocol::V0.manage_outgoing(
        OutgoingWorker::new(a.clone()),
        OutgoingEvent::HandshakeFrameReceived { frame: handshake_of(&a), sig_ok: true },
    );
    assert!(matches!(act, OutgoingAction::RegisterWithParent));
    let (out_w, _) = Protocol::V0.manage_outgoing(out_w, OutgoingEvent::Registered);
    assert_eq!(out_w.phase, WorkerPhase::Connected);

    let (in_w, act) = Protocol::V0.manage_incoming(
        IncomingWorker::new(a),
        IncomingEvent::HandshakeFrameReceived { frame: handshake_of(&b), sig_ok: true },
    );
    assert!(matches!(act, IncomingAction::RegisterWithParent));
    let (in_w, _) = Protocol::V0.manage_incoming(in_w, IncomingEvent::Registered);
    assert_eq!(in_w.phase, WorkerPhase::Connected);
    (out_w, in_w)
}

#[test]
fn send_data() {
    let (out_w, in_w) = connected_pair();
    // The parent hands two payloads to the outgoing worker, in order.
    let first = data_msg(vec![4, 3, 43], 7);
    let second = data_msg(vec![2, 1, 3, 7], 7);
    let (out_w, act1) = Protocol::V0
        .manage_outgoing(out_w, OutgoingEvent::DataFromParent(first.clone()));
    let (out_w, act2) = Protocol::V0
        .manage_outgoing(out_w, OutgoingEvent::DataFromParent(second.clone()));
    assert_eq!(out_w.phase, WorkerPhase::Connected);
    let (m1, m2) = match (act1, act2) {
        (OutgoingAction::SendFrame(m1), OutgoingAction::SendFrame(m2)) => (m1, m2),
        _ => panic!("should send"),
    };
    // Over the wire and into the incoming worker, in order.
    let wire = sending(&vec![m1, m2]).expect("should send");
    let delivered = receiving(&wire).expect("well-formed stream");
    assert_eq!(delivered, vec![first.clone(), second.clone()]);
    let (in_w, d1) = Protocol::V0
        .manage_incoming(in_w, IncomingEvent::FrameReceived(delivered[0].clone()));
    let (in_w, d2) = Protocol::V0
        .manage_incoming(in_w, IncomingEvent::FrameReceived(delivered[1].clone()));
    assert_eq!(in_w.phase, WorkerPhase::Connected);
    assert!(matches!(d1, IncomingAction::DeliverToUser(m) if m == first));
    assert!(matches!(d2, IncomingAction::DeliverToUser(m) if m == second));
}

#[test]
fn closed_by_parent_service() {
    let (out_w, in_w) = connected_pair();
    // The parent fires (or drops) the exit one-shot of the incoming worker.
    let (in_w, act) = Protocol::V0.manage_incoming(in_w, IncomingEvent::ExitRequested);
    assert!(matches!(act, IncomingAction::Halt));
    assert_eq!(in_w.outcome, Some(Ok(())), "closed manually, should finish with no error");
    // The other direction is independent: the outgoing worker lives on until
    // its heartbeat detects the silence.
    assert_eq!(out_w.phase, WorkerPhase::Connected);
    let (out_w, _) = Protocol::V0.manage_outgoing(out_w, OutgoingEvent::HeartbeatStopped);
    assert_eq!(out_w.outcome, Some(Err(ProtocolError::CardiacArrest)));
}

#[test]
fn parent_service_dead() {
    // The parent's receiver is gone when the handshake result is delivered.
    let a = vid(1);
    let b = vid(2);
    let (in_w, _) = Protocol::V0.manage_incoming(
        IncomingWorker::new(a),
        IncomingEvent::HandshakeFrameReceived { frame: handshake_of(&b), sig_ok: true },
    );
    let (in_w, act) = Protocol::V0.manage_incoming(in_w, IncomingEvent::ParentGone);
    assert!(matches!(act, IncomingAction::Halt));
    assert_eq!(in_w.outcome, Some(Err(ProtocolError::NoParentConnection)));
}

#[test]
fn parent_user_dead() {
    let (_, in_w) = connected_pair();
    let (in_w, act) = Protocol::V0.manage_incoming(in_w, IncomingEvent::UserGone);
    assert!(matches!(act, IncomingAction::Halt));
    assert_eq!(in_w.outcome, Some(Err(ProtocolError::NoUserConnection)));
}

#[test]
fn sender_dead_before_handshake() {
    let in_w = IncomingWorker::new(vid(1));
    let (in_w, _) = Protocol::V0
        .manage_incoming(in_w, IncomingEvent::HandshakeFailed(HandshakeError::Io));
    assert!(matches!(
        in_w.outcome,
        Some(Err(ProtocolError::HandshakeError(_)))
    ));
}

#[test]
fn sender_dead_after_handshake() {
    let (_, in_w) = connected_pair();
    let (in_w, _) = Protocol::V0
        .manage_incoming(in_w, IncomingEvent::ReceiveFailed(ReceiveError::Io));
    assert!(matches!(
        in_w.outcome,
        Some(Err(ProtocolError::ReceiveError(_)))
    ));
}

#[test]
fn receiver_dead_before_handshake() {
    let out_w = OutgoingWorker::new(vid(1));
    let (out_w, _) = Protocol::V0
        .manage_outgoing(out_w, OutgoingEvent::HandshakeFailed(HandshakeError::Io));
    assert!(matches!(
        out_w.outcome,
        Some(Err(ProtocolError::HandshakeError(_)))
    ));
}

#[test]
fn receiver_dead_after_handshake() {
    // Nothing was sent, so the outgoing worker only notices through its
    // heartbeat receiver.
    let (out_w, _) = connected_pair();
    let (out_w, _) = Protocol::V0.manage_outgoing(out_w, OutgoingEvent::HeartbeatStopped);
    assert_eq!(out_w.outcome, Some(Err(ProtocolError::CardiacArrest)));
}

#[test]
fn receiver_dead_after_handshake_try_send_error() {
    let (out_w, _) = connected_pair();
    let (out_w, act) = Protocol::V0
        .manage_outgoing(out_w, OutgoingEvent::DataFromParent(data_msg(vec![1], 7)));
    assert!(matches!(act, OutgoingAction::SendFrame(_)));
    let (out_w, _) = Protocol::V0.manage_outgoing(out_w, OutgoingEvent::HeartbeatStopped);
    assert_eq!(out_w.outcome, Some(Err(ProtocolError::CardiacArrest)));
}

#[test]
fn outgoing_rejects_wrong_identity() {
    let expected = vid(1);
    let (out_w, _) = Protocol::V0.manage_outgoing(
        OutgoingWorker::new(expected),
        OutgoingEvent::HandshakeFrameReceived { frame: handshake_of(&vid(9)), sig_ok: true },
    );
    assert_eq!(
        out_w.outcome,
        Some(Err(ProtocolError::HandshakeError(HandshakeError::IdentityMismatch)))
    );
}

#[test]
fn error_descriptions() {
    assert_eq!(
        ProtocolError::HandshakeError(HandshakeError::Timeout).describe(),
        "handshake error: timed out"
    );
    assert_eq!(
        ProtocolError::SendError(SendError::Encode).describe(),
        "send error: could not encode"
    );
    assert_eq!(
        ProtocolError::ReceiveError(ReceiveError::FrameTooLarge).describe(),
        "receive error: frame too large"
    );
    assert_eq!(ProtocolError::CardiacArrest.describe(), "heartbeat stopped");
    assert_eq!(
        ProtocolError::NoParentConnection.describe(),
        "cannot send result to service"
    );
    assert_eq!(
        ProtocolError::NoUserConnection.describe(),
        "cannot send data to user"
    );
}

#[test]
fn protocol_error_conversions() {
    assert_eq!(
        ProtocolError::from(HandshakeError::Timeout),
        ProtocolError::HandshakeError(HandshakeError::Timeout)
    );
    assert_eq!(
        ProtocolError::from(SendError::Io),
        ProtocolError::SendError(SendError::Io)
    );
    assert_eq!(
        ProtocolError::from(ReceiveError::Decode),
        ProtocolError::ReceiveError(ReceiveError::Decode)
    );
}

// ---------------------------------------------------------------------------
// Session handler and data model
// ---------------------------------------------------------------------------
#[test]
fn auth_data_getters() {
    let auth = sample_auth(2, 43);
    assert_eq!(auth.session(), SessionId(43));
    assert_eq!(auth.creator(), NodeIndex(2));
    assert_eq!(auth.addresses(), vec![addr(10, 30333), addr(11, 30334)]);
}

#[test]
fn network_data_from_data_in_session() {
    let msg = NetworkData::from((vec![1u8, 2], SessionId(7)));
    assert_eq!(msg, NetworkData::Data(vec![1, 2], SessionId(7)));
}

#[test]
fn handler_judges_authentications() {
    let handler = Handler::new(SessionId(7), vec![vid(1), vid(2), vid(3)], 0);
    let auth = sample_auth(2, 7);
    assert_eq!(handler.verify_authentication(&auth, true), Some(vid(3)));
    assert_eq!(handler.verify_authentication(&auth, false), None);
    let wrong_session = sample_auth(2, 8);
    assert_eq!(handler.verify_authentication(&wrong_session, true), None);
    let out_of_range = sample_auth(3, 7);
    assert_eq!(handler.verify_authentication(&out_of_range, true), None);
}

// ---------------------------------------------------------------------------
// Discovery
// ---------------------------------------------------------------------------
#[test]
fn discovery_accepts_then_discards_duplicate() {
    let handler = Handler::new(SessionId(7), vec![vid(1), vid(2), vid(3)], 0);
    let mut discovery = Discovery::new(SessionId(7), 3);
    let auth = sample_auth(2, 7);
    assert!(discovery.handle_authentication(&handler, auth.clone(), true));
    // The same authentication again: at most one forward per neighbor.
    assert!(!discovery.handle_authentication(&handler, auth, true));
    // A changed address set supersedes the stored one.
    let newer = AuthData::new(vec![addr(12, 30335)], NodeIndex(2), SessionId(7));
    assert!(discovery.handle_authentication(&handler, newer, true));
}

#[test]
fn discovery_rejects_invalid() {
    let handler = Handler::new(SessionId(7), vec![vid(1), vid(2)], 0);
    let mut discovery = Discovery::new(SessionId(7), 2);
    let bad_sig = sample_auth(1, 7);
    assert!(!discovery.handle_authentication(&handler, bad_sig, false));
    let wrong_session = sample_auth(1, 8);
    assert!(!discovery.handle_authentication(&handler, wrong_session, true));
}

#[test]
fn rebroadcast_fan_out() {
    assert_eq!(rebroadcast_count(1), 0);
    assert_eq!(rebroadcast_count(3), 2);
    assert_eq!(rebroadcast_count(4), 3);
    assert_eq!(rebroadcast_count(100), 3);
}

#[test]
fn rebroadcast_targets_exclude_self_and_sender() {
    // Of the draw 0,1,2,3,4,5 with ourselves at 0 and the sender at 2, the
    // valid candidates in draw order are 1,3,4,5; the fan-out keeps three.
    let picks = vec![0usize, 1, 2, 3, 4, 5];
    let targets = choose_rebroadcast_targets(6, 0, 2, &picks);
    assert_eq!(targets, vec![1, 3, 4]);
    // A short draw yields what it can; a small session caps the fan-out.
    assert_eq!(choose_rebroadcast_targets(6, 0, 2, &vec![5]), vec![5]);
    assert_eq!(choose_rebroadcast_targets(3, 0, 1, &vec![2, 2, 2, 2]), vec![2, 2]);
}

// ---------------------------------------------------------------------------
// Connection manager and session registry
// ---------------------------------------------------------------------------
#[test]
fn manager_never_dials_itself() {
    let m = ConnectionManager::new(1, 4);
    assert!(matches!(m.outgoing[1], OutgoingSlot::Dead { .. }));
    assert!(!m.incoming_live[1]);
    for k in 0..4 {
        if k != 1 {
            assert!(matches!(m.outgoing[k], OutgoingSlot::Dialing { .. }));
        }
    }
}

#[test]
fn newer_incoming_wins() {
    let mut m = ConnectionManager::new(0, 3);
    assert_eq!(m.on_incoming_handshake(2), IncomingDecision::Accept);
    assert_eq!(m.on_incoming_handshake(2), IncomingDecision::CloseOlderAndAccept);
    assert!(m.incoming_live[2]);
    m.on_incoming_exit(2);
    assert!(!m.incoming_live[2]);
    assert_eq!(m.on_incoming_handshake(0), IncomingDecision::RejectSelf);
    assert!(!m.incoming_live[0]);
}

#[test]
fn outbound_routing_follows_connection_state() {
    let mut m = ConnectionManager::new(0, 3);
    assert!(!m.route_outbound(2), "no handshake yet: the payload is dropped");
    m.on_outgoing_connected(2);
    assert!(m.route_outbound(2));
    m.on_outgoing_exit(2, false);
    assert!(!m.route_outbound(2));
}

#[test]
fn backoff_doubles_to_cap_and_resets_when_clean() {
    assert_eq!(next_backoff(1000), 2000);
    assert_eq!(next_backoff(32000), 60000);
    assert_eq!(next_backoff(60000), 60000);
    assert_eq!(apply_jitter(1000, 800), 800);
    assert_eq!(apply_jitter(1000, 1200), 1200);
    let mut m = ConnectionManager::new(0, 2);
    m.on_outgoing_connected(1);
    m.on_outgoing_exit(1, false);
    assert_eq!(m.outgoing[1], OutgoingSlot::Dead { backoff_ms: 2000 });
    m.on_dial_retry(1);
    m.on_outgoing_connected(1);
    m.on_outgoing_exit(1, true);
    assert_eq!(m.outgoing[1], OutgoingSlot::Dead { backoff_ms: 1000 });
}

#[test]
fn sessions_are_isolated_and_unknown_dropped() {
    let mut reg = SessionRegistry::new();
    assert!(reg.start_session(SessionId(7)));
    assert!(reg.start_session(SessionId(8)));
    assert!(!reg.start_session(SessionId(7)), "already live");
    let i7 = reg.route_inbound(SessionId(7)).expect("session 7 is live");
    let i8 = reg.route_inbound(SessionId(8)).expect("session 8 is live");
    assert_ne!(i7, i8);
    assert_eq!(reg.sessions[i7], SessionId(7));
    assert_eq!(reg.sessions[i8], SessionId(8));
    assert_eq!(reg.route_inbound(SessionId(9)), None, "unknown: dropped silently");
    assert!(reg.stop_session(SessionId(7)));
    assert_eq!(reg.route_inbound(SessionId(7)), None);
    // Stopping one session leaves the others untouched.
    assert_eq!(reg.sessions, vec![SessionId(8)]);
    assert!(reg.route_inbound(SessionId(8)).is_some());
    assert!(!reg.stop_session(SessionId(7)));
}

#[test]
fn validator_id_equality_is_bitwise() {
    assert!(vid(1).equals(&vid(1)));
    assert!(!vid(1).equals(&vid(2)));
    let short = ValidatorId { key: vec![1, 2] };
    assert!(!short.equals(&vid(1)));
}

#[test]
fn discovery_resolves_latest_addresses() {
    let handler = Handler::new(SessionId(7), vec![vid(1), vid(2)], 0);
    let mut discovery = Discovery::new(SessionId(7), 2);
    assert_eq!(discovery.addresses_of(1), None);
    let auth = sample_auth(1, 7);
    assert!(discovery.handle_authentication(&handler, auth.clone(), true));
    assert_eq!(discovery.addresses_of(1), Some(auth.addresses()));
}

#[test]
fn oversized_payload_fails_with_encode_error() {
    // The encoded message exceeds one frame: 16 MiB of payload plus its
    // message framing cannot fit under the limit.
    let msg = data_msg(vec![0u8; 16 * 1024 * 1024], 7);
    assert_eq!(validator_network::io::send_data(&msg), Err(SendError::Encode));
}
