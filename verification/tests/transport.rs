//! End-to-end tests of the packet codec and the channel reassembler.

use ctap_hid::codec::{fragment, parse, raw_to_message, Frame, HidPacketIterator};
use ctap_hid::message::{ErrorKind, Message, PACKET_SIZE, TIMEOUT_MS};
use ctap_hid::receive::MessageAssembler;

fn feed(assembler: &mut MessageAssembler, packet: &Vec<u8>, ts: u64) -> Result<Option<Message>, (u32, ErrorKind)> {
    let frame = parse(packet).expect("fixed-size packets always parse");
    assembler.parse_frame(&frame, ts)
}

fn message(cid: u32, cmd: u8, payload: Vec<u8>) -> Message {
    Message { cid, cmd, payload }
}

#[test]
fn fragment_single_packet_layout() {
    let m = message(0x01020304, 0x01, vec![0xAA, 0xBB]);
    let packets = fragment(&m).expect("payload fits");
    assert_eq!(packets.len(), 1);
    let mut expected = vec![1, 2, 3, 4, 0x81, 0x00, 0x02, 0xAA, 0xBB];
    expected.resize(PACKET_SIZE, 0);
    assert_eq!(packets[0], expected);
}

#[test]
fn fragment_packet_count() {
    // 57 bytes fit the initial packet; each further 59 bytes add one frame
    assert_eq!(fragment(&message(5, 0x10, vec![0; 57])).unwrap().len(), 1);
    assert_eq!(fragment(&message(5, 0x10, vec![0; 58])).unwrap().len(), 2);
    assert_eq!(fragment(&message(5, 0x10, vec![0; 116])).unwrap().len(), 2);
    assert_eq!(fragment(&message(5, 0x10, vec![0; 117])).unwrap().len(), 3);
    assert_eq!(fragment(&message(5, 0x10, vec![0; 7609])).unwrap().len(), 129);
}

#[test]
fn fragment_rejects_overlong_payload() {
    assert!(fragment(&message(5, 0x10, vec![0; 7610])).is_none());
}

#[test]
fn parse_too_short_is_decoding_error() {
    assert_eq!(parse(&vec![1, 2, 3]), Err(ErrorKind::Decoding));
    // an initial marker needs the full seven-byte header
    assert_eq!(parse(&vec![1, 2, 3, 4, 0x81, 0x00]), Err(ErrorKind::Decoding));
}

#[test]
fn parse_classifies_by_top_bit() {
    match parse(&vec![1, 2, 3, 4, 0x90, 0x01, 0x02, 0xFF]).unwrap() {
        Frame::Initial { cid, cmd, total_len, data } => {
            assert_eq!(cid, 0x01020304);
            assert_eq!(cmd, 0x10);
            assert_eq!(total_len, 0x0102);
            assert_eq!(data, vec![0xFF]);
        }
        other => panic!("expected an initial frame, got {:?}", other),
    }
    match parse(&vec![1, 2, 3, 4, 0x07, 0xEE]).unwrap() {
        Frame::Continuation { cid, seq, data } => {
            assert_eq!(cid, 0x01020304);
            assert_eq!(seq, 7);
            assert_eq!(data, vec![0xEE]);
        }
        other => panic!("expected a continuation frame, got {:?}", other),
    }
}

#[test]
fn roundtrip_multi_packet() {
    let payload: Vec<u8> = (0..200u16).map(|i| (i % 251) as u8).collect();
    let m = message(0x01020304, 0x10, payload);
    let packets = fragment(&m).expect("payload fits");
    assert_eq!(packets.len(), 4);
    let mut assembler = MessageAssembler::new();
    let mut done = None;
    for (i, p) in packets.iter().enumerate() {
        let r = feed(&mut assembler, p, 100 * i as u64).expect("no error mid-stream");
        if i + 1 < packets.len() {
            assert!(r.is_none());
        } else {
            done = r;
        }
    }
    assert_eq!(done.unwrap(), m);
}

#[test]
fn roundtrip_single_packet() {
    let m = message(7, 0x01, vec![9, 8, 7]);
    let packets = fragment(&m).unwrap();
    let mut assembler = MessageAssembler::new();
    let r = feed(&mut assembler, &packets[0], 0).unwrap();
    assert_eq!(r.unwrap(), m);
}

#[test]
fn wrong_sequence_discards_transaction() {
    let m = message(0x11111111, 0x10, vec![3; 200]);
    let packets = fragment(&m).unwrap();
    let mut assembler = MessageAssembler::new();
    assert_eq!(feed(&mut assembler, &packets[0], 0), Ok(None));
    // skip the first continuation: its sequence number is unexpected
    assert_eq!(feed(&mut assembler, &packets[2], 10), Err((0x11111111, ErrorKind::Sequence)));
    // the transaction is gone: even the right continuation finds nothing
    assert_eq!(feed(&mut assembler, &packets[1], 20), Err((0x11111111, ErrorKind::Sequence)));
}

#[test]
fn continuation_while_idle_is_sequence_error() {
    let mut assembler = MessageAssembler::new();
    let frame = Frame::Continuation { cid: 42, seq: 0, data: vec![1, 2, 3] };
    assert_eq!(assembler.parse_frame(&frame, 0), Err((42, ErrorKind::Sequence)));
}

#[test]
fn late_continuation_times_out() {
    let m = message(0x22222222, 0x10, vec![5; 200]);
    let packets = fragment(&m).unwrap();
    let mut assembler = MessageAssembler::new();
    assert_eq!(feed(&mut assembler, &packets[0], 1000), Ok(None));
    let r = feed(&mut assembler, &packets[1], 1000 + TIMEOUT_MS + 1);
    assert_eq!(r, Err((0x22222222, ErrorKind::Timeout)));
    // the transaction was discarded
    assert_eq!(feed(&mut assembler, &packets[1], 1000 + TIMEOUT_MS + 2), Err((0x22222222, ErrorKind::Sequence)));
}

#[test]
fn continuation_at_threshold_is_accepted() {
    let m = message(0x22222222, 0x10, vec![5; 58]);
    let packets = fragment(&m).unwrap();
    let mut assembler = MessageAssembler::new();
    assert_eq!(feed(&mut assembler, &packets[0], 0), Ok(None));
    assert_eq!(feed(&mut assembler, &packets[1], TIMEOUT_MS), Ok(Some(m)));
}

#[test]
fn busy_channel_rejects_interloper_then_recovers() {
    let a = message(0xAAAAAAAA, 0x10, vec![1; 200]);
    let b = message(0xBBBBBBBB, 0x01, vec![2; 10]);
    let a_packets = fragment(&a).unwrap();
    let b_packets = fragment(&b).unwrap();
    let mut assembler = MessageAssembler::new();
    assert_eq!(feed(&mut assembler, &a_packets[0], 0), Ok(None));
    // an initial frame for another channel is rejected, addressed to it
    assert_eq!(feed(&mut assembler, &b_packets[0], 1), Err((0xBBBBBBBB, ErrorKind::ChannelBusy)));
    // a continuation for another channel as well
    let stray = Frame::Continuation { cid: 0xBBBBBBBB, seq: 0, data: vec![0] };
    assert_eq!(assembler.parse_frame(&stray, 2), Err((0xBBBBBBBB, ErrorKind::ChannelBusy)));
    // the first channel's transaction survived and completes
    assert_eq!(feed(&mut assembler, &a_packets[1], 3), Ok(None));
    assert_eq!(feed(&mut assembler, &a_packets[2], 4), Ok(None));
    assert_eq!(feed(&mut assembler, &a_packets[3], 5), Ok(Some(a)));
    // once idle, the other channel may start a transaction
    assert_eq!(feed(&mut assembler, &b_packets[0], 6), Ok(Some(b)));
}

#[test]
fn same_channel_initial_restarts_transaction() {
    let long = message(0xCCCCCCCC, 0x10, vec![1; 200]);
    let short = message(0xCCCCCCCC, 0x01, vec![9]);
    let long_packets = fragment(&long).unwrap();
    let short_packets = fragment(&short).unwrap();
    let mut assembler = MessageAssembler::new();
    assert_eq!(feed(&mut assembler, &long_packets[0], 0), Ok(None));
    // a new initial frame on the same channel aborts and restarts
    assert_eq!(feed(&mut assembler, &short_packets[0], 1), Ok(Some(short)));
    // the old transaction is gone
    assert_eq!(feed(&mut assembler, &long_packets[1], 2), Err((0xCCCCCCCC, ErrorKind::Sequence)));
}

#[test]
fn raw_to_message_pads_missing_bytes() {
    let m = raw_to_message(&vec![1, 2], 2);
    assert_eq!(m.cid, 0x01020000);
    assert_eq!(m.cmd, 0);
    assert!(m.payload.is_empty());
}

#[test]
fn raw_to_message_splits_fields() {
    let m = raw_to_message(&vec![1, 2, 3, 4, 0x10], 5);
    assert_eq!(m.cid, 0x01020304);
    assert_eq!(m.cmd, 0x10);
    assert!(m.payload.is_empty());
    let m = raw_to_message(&vec![1, 2, 3, 4, 0x10, 0xAB, 0xCD], 7);
    assert_eq!(m.cid, 0x01020304);
    assert_eq!(m.cmd, 0x10);
    assert_eq!(m.payload, vec![0xAB, 0xCD]);
}

#[test]
fn packet_iterator_matches_fragment() {
    let expected = fragment(&message(5, 0x10, vec![7; 100])).unwrap();
    let mut it = HidPacketIterator::new(message(5, 0x10, vec![7; 100])).unwrap();
    let mut collected = Vec::new();
    while let Some(p) = it.next() {
        collected.push(p);
    }
    assert_eq!(collected, expected);
    // spent for good: a fresh iterator is needed to refragment
    assert!(it.next().is_none());
}

#[test]
fn packet_iterator_rejects_overlong_payload() {
    assert!(HidPacketIterator::new(message(5, 0x10, vec![0; 7610])).is_none());
}
