//! Tests of the command dispatcher and the transport front end.

use ctap_hid::dispatch::{
    decode_cbor_request, dispatch_cbor, CborRequest, CtapState, DispatchEnv, CMD_CANCEL, CMD_CBOR,
    CMD_ERROR, CMD_INIT, CMD_PING, MAX_PIN_RETRIES, PROTOCOL_GENERATION, STATUS_OPERATION_DENIED,
    STATUS_SUCCESS, SUB_GET_INFO, SUB_MAKE_CREDENTIAL,
};
use ctap_hid::hid::{CtapHid, CAPABILITY_CBOR};
use ctap_hid::message::{status_code, ErrorKind, Message, BROADCAST_CID, PACKET_SIZE};

fn env(user_present: bool) -> DispatchEnv {
    DispatchEnv { random: 0x1122334455667788, user_present }
}

fn be64(x: u64) -> Vec<u8> {
    x.to_be_bytes().to_vec()
}

/// A 200-byte CBOR-request payload holding well-formed credential-creation
/// parameters: the subcommand byte, then a map binding key 1 to a 195-byte
/// byte string.
fn credential_payload() -> Vec<u8> {
    let mut payload = vec![SUB_MAKE_CREDENTIAL, 0xA1, 0x01, 0x58, 0xC3];
    payload.extend((0..195u8).collect::<Vec<u8>>());
    assert_eq!(payload.len(), 200);
    payload
}

#[test]
fn status_codes_follow_the_protocol_mapping() {
    assert_eq!(status_code(ErrorKind::InvalidCommand), 0x01);
    assert_eq!(status_code(ErrorKind::InvalidParameter), 0x02);
    assert_eq!(status_code(ErrorKind::Decoding), 0x03);
    assert_eq!(status_code(ErrorKind::Sequence), 0x04);
    assert_eq!(status_code(ErrorKind::Timeout), 0x05);
    assert_eq!(status_code(ErrorKind::ChannelBusy), 0x06);
    assert_eq!(status_code(ErrorKind::InternalFatal), 0x7F);
}

#[test]
fn decode_recognizes_subcommands() {
    assert!(matches!(decode_cbor_request(&vec![SUB_MAKE_CREDENTIAL, 0xA0]), Ok(CborRequest::MakeCredential(_))));
    assert!(matches!(decode_cbor_request(&vec![0x02, 0xA0]), Ok(CborRequest::GetAssertion(_))));
    assert!(matches!(decode_cbor_request(&vec![0x06, 0xA0]), Ok(CborRequest::ClientPin(_))));
    assert!(matches!(decode_cbor_request(&vec![SUB_GET_INFO]), Ok(CborRequest::GetInfo)));
}

#[test]
fn decode_rejects_malformed_requests() {
    // empty payload, unknown subcommand, non-map body, truncated body
    assert_eq!(decode_cbor_request(&vec![]).err(), Some(ErrorKind::InvalidParameter));
    assert_eq!(decode_cbor_request(&vec![0x55, 0xA0]).err(), Some(ErrorKind::InvalidParameter));
    assert_eq!(decode_cbor_request(&vec![SUB_MAKE_CREDENTIAL, 0x00]).err(), Some(ErrorKind::InvalidParameter));
    assert_eq!(decode_cbor_request(&vec![SUB_MAKE_CREDENTIAL, 0xA1, 0x01]).err(), Some(ErrorKind::InvalidParameter));
    assert_eq!(decode_cbor_request(&vec![SUB_GET_INFO, 0x00]).err(), Some(ErrorKind::InvalidParameter));
}

#[test]
fn make_credential_advances_the_counter() {
    let mut state = CtapState::new();
    let payload = vec![SUB_MAKE_CREDENTIAL, 0xA0];
    let first = dispatch_cbor(9, &payload, &mut state, &env(true));
    assert_eq!(first.cmd, CMD_CBOR);
    let mut expected = vec![STATUS_SUCCESS];
    expected.extend(be64(1));
    expected.extend(be64(0x1122334455667788));
    assert_eq!(first.payload, expected);
    let second = dispatch_cbor(9, &payload, &mut state, &env(true));
    assert_eq!(second.payload[1..9], be64(2)[..]);
    assert_eq!(state.credential_counter, 2);
}

#[test]
fn absent_user_denies_credential_operations() {
    let mut state = CtapState::new();
    let reply = dispatch_cbor(9, &vec![SUB_MAKE_CREDENTIAL, 0xA0], &mut state, &env(false));
    assert_eq!(reply.cmd, CMD_CBOR);
    assert_eq!(reply.payload, vec![STATUS_OPERATION_DENIED]);
    assert_eq!(state.credential_counter, 0);
    let reply = dispatch_cbor(9, &vec![0x02, 0xA0], &mut state, &env(false));
    assert_eq!(reply.payload, vec![STATUS_OPERATION_DENIED]);
}

#[test]
fn get_assertion_reports_the_counter() {
    let mut state = CtapState::new();
    dispatch_cbor(9, &vec![SUB_MAKE_CREDENTIAL, 0xA0], &mut state, &env(true));
    let reply = dispatch_cbor(9, &vec![0x02, 0xA0], &mut state, &env(true));
    let mut expected = vec![STATUS_SUCCESS];
    expected.extend(be64(1));
    assert_eq!(reply.payload, expected);
}

#[test]
fn client_pin_reports_retries() {
    let mut state = CtapState::new();
    let reply = dispatch_cbor(9, &vec![0x06, 0xA0], &mut state, &env(true));
    assert_eq!(reply.payload, vec![STATUS_SUCCESS, MAX_PIN_RETRIES]);
}

#[test]
fn get_info_reports_the_protocol_generation() {
    let mut state = CtapState::new();
    let reply = dispatch_cbor(9, &vec![SUB_GET_INFO], &mut state, &env(true));
    assert_eq!(reply.cmd, CMD_CBOR);
    assert_eq!(reply.payload, vec![STATUS_SUCCESS, PROTOCOL_GENERATION]);
}

#[test]
fn garbage_cbor_payload_is_a_typed_error() {
    let mut state = CtapState::new();
    let mut garbage = vec![SUB_MAKE_CREDENTIAL];
    garbage.extend([0xFF, 0x9F, 0x00, 0x13, 0x37]);
    let reply = dispatch_cbor(9, &garbage, &mut state, &env(true));
    assert_eq!(reply.cmd, CMD_ERROR);
    assert_eq!(reply.payload, vec![status_code(ErrorKind::InvalidParameter)]);
}

#[test]
fn scenario_credential_creation_end_to_end() {
    // fragment a 200-byte credential-creation request, feed the packets in
    // order, and dispatch the reconstructed message
    let msg = Message { cid: 0x01020304, cmd: CMD_CBOR, payload: credential_payload() };
    let packets = ctap_hid::codec::fragment(&msg).expect("payload fits");
    assert_eq!(packets.len(), 4);
    let mut assembler = ctap_hid::receive::MessageAssembler::new();
    let mut complete = None;
    for (i, p) in packets.iter().enumerate() {
        let frame = ctap_hid::codec::parse(p).unwrap();
        complete = assembler.parse_frame(&frame, 10 * i as u64).expect("no error mid-stream");
    }
    let rebuilt = complete.expect("the last frame completes the message");
    assert_eq!(rebuilt, msg);
    let mut hid = CtapHid::new();
    let mut state = CtapState::new();
    let reply = hid.process_message(rebuilt, &mut state, &env(true));
    assert_eq!(reply.cid, 0x01020304);
    assert_eq!(reply.cmd, CMD_CBOR);
    assert_eq!(reply.payload[0], STATUS_SUCCESS);
    assert_eq!(state.credential_counter, 1);
}

#[test]
fn ping_echoes_its_payload() {
    let mut hid = CtapHid::new();
    let mut state = CtapState::new();
    let msg = Message { cid: 5, cmd: CMD_PING, payload: vec![1, 2, 3] };
    let reply = hid.process_message(msg, &mut state, &env(true));
    assert_eq!(reply.cid, 5);
    assert_eq!(reply.cmd, CMD_PING);
    assert_eq!(reply.payload, vec![1, 2, 3]);
}

#[test]
fn cancel_is_acknowledged() {
    let mut hid = CtapHid::new();
    let mut state = CtapState::new();
    let msg = Message { cid: 5, cmd: CMD_CANCEL, payload: vec![0xEE] };
    let reply = hid.process_message(msg, &mut state, &env(true));
    assert_eq!(reply.cmd, CMD_CANCEL);
    assert!(reply.payload.is_empty());
}

#[test]
fn unknown_opcode_is_invalid_command() {
    let mut hid = CtapHid::new();
    let mut state = CtapState::new();
    let msg = Message { cid: 5, cmd: 0x2A, payload: vec![] };
    let reply = hid.process_message(msg, &mut state, &env(true));
    assert_eq!(reply.cmd, CMD_ERROR);
    assert_eq!(reply.payload, vec![status_code(ErrorKind::InvalidCommand)]);
}

#[test]
fn broadcast_allocates_fresh_channels() {
    let mut hid = CtapHid::new();
    let mut state = CtapState::new();
    let nonce: Vec<u8> = vec![9, 8, 7, 6, 5, 4, 3, 2];
    let msg = Message { cid: BROADCAST_CID, cmd: CMD_INIT, payload: nonce.clone() };
    let reply = hid.process_message(msg, &mut state, &env(true));
    assert_eq!(reply.cid, BROADCAST_CID);
    assert_eq!(reply.cmd, CMD_INIT);
    let mut expected = nonce.clone();
    expected.extend([0, 0, 0, 1]);
    expected.extend([PROTOCOL_GENERATION, 1, 0, 0, CAPABILITY_CBOR]);
    assert_eq!(reply.payload, expected);
    // the next allocation hands out the next id
    let msg = Message { cid: BROADCAST_CID, cmd: CMD_INIT, payload: nonce };
    let reply = hid.process_message(msg, &mut state, &env(true));
    assert_eq!(reply.payload[8..12], [0, 0, 0, 2]);
}

#[test]
fn broadcast_rejects_other_commands() {
    let mut hid = CtapHid::new();
    let mut state = CtapState::new();
    let msg = Message { cid: BROADCAST_CID, cmd: CMD_PING, payload: vec![] };
    let reply = hid.process_message(msg, &mut state, &env(true));
    assert_eq!(reply.cmd, CMD_ERROR);
    assert_eq!(reply.payload, vec![status_code(ErrorKind::InvalidCommand)]);
    let msg = Message { cid: BROADCAST_CID, cmd: CMD_INIT, payload: vec![1, 2, 3] };
    let reply = hid.process_message(msg, &mut state, &env(true));
    assert_eq!(reply.payload, vec![status_code(ErrorKind::InvalidParameter)]);
}

#[test]
fn process_hid_packet_echoes_a_ping() {
    let mut hid = CtapHid::new();
    let mut state = CtapState::new();
    let mut packet = vec![0, 0, 0, 5, CMD_PING | 0x80, 0x00, 0x01, 0x42];
    packet.resize(PACKET_SIZE, 0);
    let replies = hid.process_hid_packet(&packet, 0, &mut state, &env(true));
    assert_eq!(replies.len(), 1);
    assert_eq!(replies[0], packet);
}

#[test]
fn process_hid_packet_reports_reassembly_errors() {
    let mut hid = CtapHid::new();
    let mut state = CtapState::new();
    // a continuation with no transaction to continue
    let mut packet = vec![0, 0, 0, 5, 0x00, 0xAA, 0xBB];
    packet.resize(PACKET_SIZE, 0);
    let replies = hid.process_hid_packet(&packet, 0, &mut state, &env(true));
    assert_eq!(replies.len(), 1);
    let mut expected = vec![0, 0, 0, 5, CMD_ERROR | 0x80, 0x00, 0x01, status_code(ErrorKind::Sequence)];
    expected.resize(PACKET_SIZE, 0);
    assert_eq!(replies[0], expected);
}

#[test]
fn process_hid_packet_stays_silent_mid_transaction() {
    let mut hid = CtapHid::new();
    let mut state = CtapState::new();
    let msg = Message { cid: 5, cmd: CMD_CBOR, payload: credential_payload() };
    let packets = ctap_hid::codec::fragment(&msg).unwrap();
    for (i, p) in packets.iter().enumerate() {
        let replies = hid.process_hid_packet(p, i as u64, &mut state, &env(true));
        if i + 1 < packets.len() {
            assert!(replies.is_empty());
        } else {
            // the complete message was dispatched and the reply fragmented
            assert_eq!(replies.len(), 1);
            assert_eq!(replies[0][4], CMD_CBOR | 0x80);
            assert_eq!(replies[0][7], STATUS_SUCCESS);
        }
    }
}
