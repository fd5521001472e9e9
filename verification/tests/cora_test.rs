use streamdeck_cona_rs::cora_connection::{
    command_payload_message, drop_front, frame_length, frame_ready, initial_keep_alive_reply, keep_alive_reply, next_message_id,
    resync_receive_buffer, serial_from_cora_response, serial_request, take_message,
};
use streamdeck_cona_rs::connection::{keep_alive_expired, KEEP_ALIVE_TIMEOUT_NANOS};
use streamdeck_cona_rs::error::Error;
use streamdeck_cona_rs::protocol::cora::{
    find_magic, is_cora_magic, is_legacy_keep_alive, CoraHidOp, CoraMessage, CoraMessageFlags, CORA_HEADER_SIZE,
    CORA_MAGIC,
};
use streamdeck_cona_rs::protocol::error::Error as CoreError;

#[test]
fn cora_encode_layout() {
    let m = CoraMessage::new(CoraMessageFlags::ReqAck, CoraHidOp::SendReport, 0x0102_0304, vec![0xaa, 0xbb]);
    let b = m.encode();
    assert_eq!(
        b,
        vec![0x43, 0x93, 0x8a, 0x41, 0x00, 0x40, 0x01, 0x00, 0x04, 0x03, 0x02, 0x01, 0x02, 0x00, 0x00, 0x00, 0xaa, 0xbb]
    );
}

#[test]
fn cora_decode_gives_back_encoded_message() {
    for flags in [
        CoraMessageFlags::NoFlags,
        CoraMessageFlags::Verbatim,
        CoraMessageFlags::ReqAck,
        CoraMessageFlags::AckNak,
        CoraMessageFlags::Result,
    ] {
        for op in [CoraHidOp::Write, CoraHidOp::SendReport, CoraHidOp::GetReport] {
            let m = CoraMessage::new(flags, op, 77, vec![1, 2, 3, 4, 5]);
            let d = CoraMessage::decode(&m.encode()).unwrap();
            assert_eq!(d.flags, flags);
            assert_eq!(d.hid_op, op);
            assert_eq!(d.message_id, 77);
            assert_eq!(d.payload, vec![1, 2, 3, 4, 5]);
        }
    }
}

#[test]
fn cora_decode_errors() {
    assert_eq!(CoraMessage::decode(&[0x43, 0x93]).unwrap_err(), CoreError::Protocol("Cora message too short"));
    let mut bad = CoraMessage::new(CoraMessageFlags::NoFlags, CoraHidOp::Write, 1, vec![]).encode();
    bad[0] = 0;
    assert_eq!(CoraMessage::decode(&bad).unwrap_err(), CoreError::Protocol("Invalid Cora magic bytes"));
    let mut short = CoraMessage::new(CoraMessageFlags::NoFlags, CoraHidOp::Write, 1, vec![9, 9, 9]).encode();
    short.pop();
    assert_eq!(CoraMessage::decode(&short).unwrap_err(), CoreError::Protocol("Cora message incomplete"));
}

#[test]
fn cora_flag_and_op_values() {
    assert_eq!(CoraMessageFlags::NoFlags.bits(), 0x0000);
    assert_eq!(CoraMessageFlags::Verbatim.bits(), 0x8000);
    assert_eq!(CoraMessageFlags::ReqAck.bits(), 0x4000);
    assert_eq!(CoraMessageFlags::AckNak.bits(), 0x0200);
    assert_eq!(CoraMessageFlags::Result.bits(), 0x0100);
    assert_eq!(CoraMessageFlags::from_bits(0x8001), CoraMessageFlags::Verbatim);
    assert_eq!(CoraMessageFlags::from_bits(0x0300), CoraMessageFlags::AckNak);
    assert_eq!(CoraMessageFlags::from_bits(0x0001), CoraMessageFlags::NoFlags);
    assert_eq!(CoraHidOp::Write.bits(), 0x00);
    assert_eq!(CoraHidOp::SendReport.bits(), 0x01);
    assert_eq!(CoraHidOp::GetReport.bits(), 0x02);
    assert_eq!(CoraHidOp::from_bits(0x01), CoraHidOp::SendReport);
    assert_eq!(CoraHidOp::from_bits(0x02), CoraHidOp::GetReport);
    assert_eq!(CoraHidOp::from_bits(0x07), CoraHidOp::Write);
}

#[test]
fn cora_keep_alive_detection() {
    let mut p = vec![0u8; 32];
    p[0] = 0x01;
    p[1] = 0x0a;
    p[5] = 7;
    let m = CoraMessage::new(CoraMessageFlags::NoFlags, CoraHidOp::SendReport, 3, p);
    assert!(m.is_keep_alive());
    assert_eq!(m.keep_alive_connection_no(), Some(7));
    let short = CoraMessage::new(CoraMessageFlags::NoFlags, CoraHidOp::SendReport, 3, vec![0x01, 0x0a, 0, 0, 0]);
    assert!(short.is_keep_alive());
    assert_eq!(short.keep_alive_connection_no(), None);
    let other = CoraMessage::new(CoraMessageFlags::NoFlags, CoraHidOp::SendReport, 3, vec![0x01, 0x00, 0, 0, 0, 0]);
    assert!(!other.is_keep_alive());
    assert_eq!(other.keep_alive_connection_no(), None);
}

#[test]
fn cora_magic_helpers() {
    assert!(is_cora_magic(&CORA_MAGIC));
    assert!(!is_cora_magic(&[0x43, 0x93, 0x8a]));
    assert!(is_legacy_keep_alive(&[0x01, 0x0a, 0x00]));
    assert!(!is_legacy_keep_alive(&[0x01]));
    assert_eq!(find_magic(&[0, 1, 0x43, 0x93, 0x8a, 0x41, 5]), Some(2));
    assert_eq!(find_magic(&[0x43, 0x93, 0x8a]), None);
    assert_eq!(CORA_HEADER_SIZE, 16);
}

#[test]
fn keep_alive_acknowledgement() {
    let mut p = vec![0u8; 32];
    p[0] = 0x01;
    p[1] = 0x0a;
    p[5] = 0x2c;
    let m = CoraMessage::new(CoraMessageFlags::NoFlags, CoraHidOp::SendReport, 41, p);
    let ack = keep_alive_reply(&m).unwrap();
    assert_eq!(ack.flags, CoraMessageFlags::AckNak);
    assert_eq!(ack.hid_op, CoraHidOp::SendReport);
    assert_eq!(ack.message_id, 41);
    let mut expected = vec![0u8; 32];
    expected[0] = 0x03;
    expected[1] = 0x1a;
    expected[2] = 0x2c;
    assert_eq!(ack.payload, expected);
    let first = initial_keep_alive_reply(&m).unwrap();
    assert_eq!(first.payload, expected);
}

#[test]
fn non_keep_alive_gets_no_acknowledgement() {
    let m = CoraMessage::new(CoraMessageFlags::NoFlags, CoraHidOp::SendReport, 1, vec![0x01, 0x00, 0, 0, 0]);
    assert!(keep_alive_reply(&m).is_none());
    match initial_keep_alive_reply(&m) {
        Err(Error::Protocol(s)) => assert_eq!(s, "Expected keep-alive packet as first message"),
        _ => panic!("expected a protocol error"),
    }
}

#[test]
fn serial_request_and_response() {
    let req = serial_request(5);
    assert_eq!(req.flags, CoraMessageFlags::NoFlags);
    assert_eq!(req.hid_op, CoraHidOp::GetReport);
    assert_eq!(req.message_id, 5);
    assert_eq!(req.payload, vec![0x03, 0x84]);
    let mut payload = vec![0x03, 0x84, 0x00, 0x04];
    payload.extend_from_slice(b"AB12");
    payload.extend_from_slice(&[0, 0]);
    let resp = CoraMessage::new(CoraMessageFlags::Result, CoraHidOp::GetReport, 5, payload);
    assert_eq!(serial_from_cora_response(&resp), Some("AB12".to_string()));
    let empty = CoraMessage::new(CoraMessageFlags::Result, CoraHidOp::GetReport, 5, vec![0x03, 0x84, 0, 0]);
    assert_eq!(serial_from_cora_response(&empty), None);
    let wrong_op = CoraMessage::new(CoraMessageFlags::Result, CoraHidOp::Write, 5, vec![0x03, 0x84, 0, 1, b'A']);
    assert_eq!(serial_from_cora_response(&wrong_op), None);
    let too_long = CoraMessage::new(CoraMessageFlags::Result, CoraHidOp::GetReport, 5, vec![0x03, 0x84, 0, 9, b'A']);
    assert_eq!(serial_from_cora_response(&too_long), None);
}

#[test]
fn command_payload_operation() {
    let m = command_payload_message(vec![0x03, 0x08, 50], 9);
    assert_eq!(m.hid_op, CoraHidOp::SendReport);
    assert_eq!(m.flags, CoraMessageFlags::NoFlags);
    assert_eq!(m.message_id, 9);
    let w = command_payload_message(vec![0x02, 0x07, 1], 10);
    assert_eq!(w.hid_op, CoraHidOp::Write);
    let one = command_payload_message(vec![0x03], 11);
    assert_eq!(one.hid_op, CoraHidOp::Write);
}

#[test]
fn message_ids_count_up() {
    assert_eq!(next_message_id(0), 1);
    assert_eq!(next_message_id(41), 42);
}

#[test]
fn receive_buffer_resync() {
    let mut b = vec![9, 9, 0x43, 0x93, 0x8a, 0x41, 1];
    resync_receive_buffer(&mut b);
    assert_eq!(b, vec![0x43, 0x93, 0x8a, 0x41, 1]);
    let mut none = vec![1, 2, 3, 4, 5, 6];
    resync_receive_buffer(&mut none);
    assert_eq!(none, vec![4, 5, 6]);
    let mut tiny = vec![1, 2, 3];
    resync_receive_buffer(&mut tiny);
    assert_eq!(tiny, vec![1, 2, 3]);
    let mut d = vec![1, 2, 3, 4];
    drop_front(&mut d, 3);
    assert_eq!(d, vec![4]);
}

#[test]
fn take_message_from_buffer() {
    let m = CoraMessage::new(CoraMessageFlags::NoFlags, CoraHidOp::SendReport, 12, vec![1, 0x0a, 0, 0, 0, 3]);
    let mut b = m.encode();
    assert_eq!(frame_length(&b), 22);
    b.extend_from_slice(&[7, 7]);
    let got = take_message(&mut b).unwrap();
    assert_eq!(got.message_id, 12);
    assert_eq!(got.payload, vec![1, 0x0a, 0, 0, 0, 3]);
    assert_eq!(b, vec![7, 7]);
}

#[test]
fn take_message_leaves_bad_buffer() {
    let mut b = vec![0u8; 16];
    match take_message(&mut b) {
        Err(Error::Protocol(s)) => assert_eq!(s, "Invalid Cora magic bytes"),
        _ => panic!("expected a protocol error"),
    }
    assert_eq!(b, vec![0u8; 16]);
}

/// Read one message the way a client does: resynchronise, take chunks until a
/// whole message is held, then take it off the front.
fn read_one(buffer: &mut Vec<u8>, chunks: &mut std::collections::VecDeque<Vec<u8>>) -> CoraMessage {
    resync_receive_buffer(buffer);
    while !frame_ready(buffer) {
        let chunk = chunks.pop_front().expect("stream ended early");
        buffer.extend_from_slice(&chunk);
    }
    match take_message(buffer) {
        Ok(m) => m,
        Err(_) => panic!("message did not decode"),
    }
}

#[test]
fn two_messages_survive_any_chunking() {
    let m1 = CoraMessage::new(CoraMessageFlags::ReqAck, CoraHidOp::Write, 7, (0..40u8).collect());
    let m2 = CoraMessage::new(CoraMessageFlags::Result, CoraHidOp::GetReport, 8, vec![3, 0x84, 0, 1, b'A']);
    let mut stream = m1.encode();
    stream.extend_from_slice(&m2.encode());
    for size in [1usize, 2, 3, 5, 16, 17, 55, 56, 57, 100, 200] {
        let mut chunks: std::collections::VecDeque<Vec<u8>> = stream.chunks(size).map(|c| c.to_vec()).collect();
        let mut buffer = Vec::new();
        let d1 = read_one(&mut buffer, &mut chunks);
        assert_eq!((d1.flags, d1.hid_op, d1.message_id, d1.payload), (m1.flags, m1.hid_op, 7, m1.payload.clone()));
        let d2 = read_one(&mut buffer, &mut chunks);
        assert_eq!((d2.flags, d2.hid_op, d2.message_id, d2.payload), (m2.flags, m2.hid_op, 8, m2.payload.clone()));
        assert!(buffer.is_empty());
        assert!(chunks.is_empty());
    }
}

#[test]
fn frame_ready_needs_header_and_payload() {
    let m = CoraMessage::new(CoraMessageFlags::NoFlags, CoraHidOp::Write, 1, vec![9; 10]);
    let e = m.encode();
    assert!(!frame_ready(&e[..15]));
    assert!(!frame_ready(&e[..16]));
    assert!(!frame_ready(&e[..25]));
    assert!(frame_ready(&e));
    let mut longer = e.clone();
    longer.push(0);
    assert!(frame_ready(&longer));
}

#[test]
fn keep_alive_expires_after_five_seconds() {
    assert_eq!(KEEP_ALIVE_TIMEOUT_NANOS, 5_000_000_000);
    assert!(!keep_alive_expired(0, 0));
    assert!(!keep_alive_expired(1_000, 5_000_001_000));
    assert!(keep_alive_expired(1_000, 5_000_001_001));
    assert!(!keep_alive_expired(10_000_000_000, 0));
}
