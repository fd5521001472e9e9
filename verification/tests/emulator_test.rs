use streamdeck_cona_rs::cora_connection::{command_payload_message, keep_alive_reply, serial_from_cora_response, serial_request};
use streamdeck_cona_rs::device::button_image_pages;
use streamdeck_cona_rs::emulator::command::{Command, ControlCommand};
use streamdeck_cona_rs::emulator::framing::next_frame;
use streamdeck_cona_rs::emulator::manager::{DeviceState as ManagedDevice, StreamDeckManager, BASE_PORT};
use streamdeck_cona_rs::emulator::networkdock::DeviceState as DockState;
use streamdeck_cona_rs::emulator::payload::{
    button_event_payload, encoder_press_payload, encoder_rotate_payload, event_message, keep_alive_request_payload,
    touch_payload, zeros,
};
use streamdeck_cona_rs::emulator::report::{
    build_device2_info_payload, build_get_report_response_payload, build_primary_port_info_payload, get_report_response,
    parse_get_report_request, parse_primary_get_report_request, NETWORKDOCK_PRODUCT_ID, STUDIO_PRODUCT_ID,
    VENDOR_ID,
};
use streamdeck_cona_rs::emulator::studio::DeviceState as StudioState;
use streamdeck_cona_rs::protocol::cora::{CoraHidOp, CoraMessage, CoraMessageFlags};
use streamdeck_cona_rs::protocol::event::{Event, EventDecoder, TouchType};
use streamdeck_cona_rs::protocol::packet::PacketWriter;

fn msg(flags: CoraMessageFlags, op: CoraHidOp, id: u32, payload: Vec<u8>) -> CoraMessage {
    CoraMessage::new(flags, op, id, payload)
}

#[test]
fn report_request_parsing() {
    assert_eq!(parse_get_report_request(&[0x03, 0x84], CoraMessageFlags::NoFlags), Some(0x84));
    assert_eq!(parse_get_report_request(&[0x08], CoraMessageFlags::Verbatim), Some(0x08));
    assert_eq!(parse_get_report_request(&[], CoraMessageFlags::Verbatim), None);
    assert_eq!(parse_get_report_request(&[0x02, 0x84], CoraMessageFlags::NoFlags), None);
    assert_eq!(parse_primary_get_report_request(&[0x03]), None);
    assert_eq!(parse_primary_get_report_request(&[0x03, 0x1c, 9]), Some(0x1c));
}

#[test]
fn report_response_layout() {
    assert_eq!(build_get_report_response_payload(0x84, b"AB"), vec![0x03, 0x84, 0x00, 0x02, b'A', b'B']);
    let big = vec![7u8; 70000];
    let p = build_get_report_response_payload(0x83, &big);
    assert_eq!(p.len(), 4 + 65535);
    assert_eq!(&p[..4], &[0x03, 0x83, 0xff, 0xff]);
    let m = get_report_response(9, 0x1a, &[]);
    assert_eq!(m.flags, CoraMessageFlags::Result);
    assert_eq!(m.hid_op, CoraHidOp::GetReport);
    assert_eq!(m.message_id, 9);
    assert_eq!(m.payload, vec![0x03, 0x1a, 0, 0]);
}

#[test]
fn primary_port_info_layout() {
    let p = build_primary_port_info_payload(VENDOR_ID, STUDIO_PRODUCT_ID);
    let mut expected = vec![0u8; 16];
    expected[8] = 0xd9;
    expected[9] = 0x0f;
    expected[10] = 0xaa;
    expected[11] = 0x00;
    assert_eq!(p, expected);
}

#[test]
fn device2_info_layout() {
    let off = build_device2_info_payload(false, false, NETWORKDOCK_PRODUCT_ID);
    assert_eq!(off, vec![0u8; 128]);
    let plug_off = build_device2_info_payload(false, true, NETWORKDOCK_PRODUCT_ID);
    assert_eq!(&plug_off[..2], &[0x01, 0x0b]);
    let on = build_device2_info_payload(true, false, NETWORKDOCK_PRODUCT_ID);
    assert_eq!(on.len(), 128);
    assert_eq!(on[4], 0x02);
    assert_eq!(&on[26..30], &[0xd9, 0x0f, 0x89, 0x00]);
    assert_eq!(&on[94..115], b"DEVICE2_SERIAL_123456");
    assert_eq!(&on[126..128], &[0xdf, 0x14]);
}

#[test]
fn event_payloads() {
    let b = button_event_payload(3, true).unwrap();
    assert_eq!(b.len(), 36);
    assert_eq!(&b[..8], &[0x01, 0, 0, 0, 0, 0, 0, 1]);
    assert_eq!(button_event_payload(32, true), Err("Button index out of range (0-31)"));
    assert_eq!(encoder_rotate_payload(1, -2).unwrap(), vec![0x01, 0x03, 0, 0, 0x01, 0, 0xfe]);
    assert_eq!(encoder_rotate_payload(2, 1), Err("Encoder index out of range (0-1)"));
    assert_eq!(encoder_press_payload(0, true).unwrap(), vec![0x01, 0x03, 0, 0, 0, 1, 0]);
    assert_eq!(encoder_press_payload(1, false).unwrap(), vec![0x01, 0x03, 0, 0, 0, 0, 0]);
    assert_eq!(touch_payload(0x01, 0x0102, 5, None, None), vec![0x01, 0x02, 0, 0, 0x01, 0, 0x02, 0x01, 5, 0]);
    assert_eq!(
        touch_payload(0x03, 1, 2, Some(300), Some(4)),
        vec![0x01, 0x02, 0, 0, 0x03, 0, 1, 0, 2, 0, 0x2c, 0x01, 4, 0]
    );
    assert_eq!(touch_payload(0x03, 1, 2, None, Some(4)).len(), 10);
    let k = keep_alive_request_payload(6);
    assert_eq!(k.len(), 32);
    assert_eq!(&k[..6], &[0x01, 0x0a, 0, 0, 0, 6]);
    assert_eq!(zeros(3), vec![0, 0, 0]);
    let m = event_message(4, vec![1]);
    assert_eq!(m.flags, CoraMessageFlags::NoFlags);
    assert_eq!(m.hid_op, CoraHidOp::SendReport);
}

#[test]
fn emulator_events_decode_as_device_events() {
    let b = PacketWriter::create_packet(&button_event_payload(5, true).unwrap());
    match EventDecoder::decode(&b).unwrap() {
        Some(Event::Button { index, pressed }) => {
            assert_eq!(index, 5);
            assert!(pressed);
        },
        _ => panic!("expected a button event"),
    }
    let released = PacketWriter::create_packet(&button_event_payload(5, false).unwrap());
    assert!(EventDecoder::decode(&released).unwrap().is_none());
    let r = PacketWriter::create_packet(&encoder_rotate_payload(1, -3).unwrap());
    assert_eq!(EventDecoder::decode(&r).unwrap(), Some(Event::EncoderRotate { encoder_index: 1, delta: -3 }));
    let t = PacketWriter::create_packet(&touch_payload(0x03, 10, 20, Some(30), Some(40)));
    assert_eq!(
        EventDecoder::decode(&t).unwrap(),
        Some(Event::Touch { touch_type: TouchType::Swipe, x: 10, y: 20, end_x: Some(30), end_y: Some(40) })
    );
}

#[test]
fn studio_fresh_state() {
    let s = StudioState::new_default(12345);
    assert_eq!(s.serial_number, "EMULATOR_STUDIO_00000929");
    assert_eq!(s.firmware_version, "1.05.008");
    assert_eq!(s.brightness, 100);
    assert_eq!(s.button_images.len(), 32);
    assert!(!s.device2_connected);
}

#[test]
fn studio_reports() {
    let s = StudioState::new_default(0);
    assert_eq!(s.get_report_data(0x84).unwrap(), b"EMULATOR_STUDIO_00000000".to_vec());
    let fw = s.get_report_data(0x83).unwrap();
    assert_eq!(fw.len(), 16);
    assert_eq!(&fw[..12], &[0, 0, b'1', b'.', b'1', b'.', b'0', b'5', b'.', b'0', b'0', b'8']);
    let enc = s.get_report_data(0x86).unwrap();
    assert_eq!(enc.len(), 32);
    assert_eq!(&enc[..9], &[b'1', 0x18, b'0', b'5', b'.', b'0', b'0', b'8', 0]);
    assert_eq!(s.get_report_data(0x85).unwrap(), vec![0x00, 0x1a, 0x2b, 0x3c, 0x4d, 0x5e]);
    assert_eq!(s.get_report_data(0x8f).unwrap(), vec![0, 0, 0, 0]);
    assert_eq!(s.get_report_data(0x1a).unwrap(), Vec::<u8>::new());
    assert!(s.get_report_data(0x42).is_none());
}

#[test]
fn studio_keep_alive_ack_records_connection_number() {
    let mut s = StudioState::new_default(0);
    let mut conn = 0u8;
    let ack = msg(CoraMessageFlags::NoFlags, CoraHidOp::Write, 1, vec![0x03, 0x1a, 9]);
    assert!(s.handle_message(&ack, &mut conn, 0).is_none());
    assert_eq!(conn, 9);
}

#[test]
fn studio_answers_serial_request() {
    let mut s = StudioState::new_default(0);
    let mut conn = 0u8;
    let req = msg(CoraMessageFlags::NoFlags, CoraHidOp::GetReport, 33, vec![0x03, 0x84]);
    let r = s.handle_message(&req, &mut conn, 0).unwrap();
    assert_eq!(r.message_id, 33);
    assert_eq!(r.flags, CoraMessageFlags::Result);
    let mut expected = vec![0x03, 0x84, 0x00, 24];
    expected.extend_from_slice(b"EMULATOR_STUDIO_00000000");
    assert_eq!(r.payload, expected);
    let primary = msg(CoraMessageFlags::NoFlags, CoraHidOp::GetReport, 36, vec![0x03, 0x80]);
    let r1 = s.handle_message(&primary, &mut conn, 0).unwrap();
    assert_eq!(r1.payload.len(), 4 + 16);
    assert_eq!(&r1.payload[12..16], &[0xd9, 0x0f, 0xaa, 0x00]);
    let secondary = msg(CoraMessageFlags::Verbatim, CoraHidOp::GetReport, 34, vec![0x08]);
    assert!(s.handle_message(&secondary, &mut conn, 0).is_none());
    let ka = msg(CoraMessageFlags::NoFlags, CoraHidOp::GetReport, 35, vec![0x03, 0x1a]);
    assert!(s.handle_message(&ka, &mut conn, 0).is_none());
}

#[test]
fn studio_stores_button_image_pages() {
    let mut s = StudioState::new_default(0);
    let mut conn = 0u8;
    let first = msg(CoraMessageFlags::NoFlags, CoraHidOp::Write, 1, vec![0x02, 0x07, 4, 0, 3, 0, 0, 0, 1, 2, 3, 9]);
    assert!(s.handle_message(&first, &mut conn, 0).is_none());
    assert_eq!(s.button_images[4], Some(vec![1, 2, 3]));
    let second = msg(CoraMessageFlags::NoFlags, CoraHidOp::Write, 2, vec![0x02, 0x07, 4, 1, 5, 0, 1, 0, 4, 5]);
    s.handle_message(&second, &mut conn, 0);
    assert_eq!(s.button_images[4], Some(vec![1, 2, 3, 4, 5]));
    let orphan = msg(CoraMessageFlags::NoFlags, CoraHidOp::Write, 3, vec![0x02, 0x07, 6, 1, 1, 0, 1, 0, 8]);
    s.handle_message(&orphan, &mut conn, 0);
    assert_eq!(s.button_images[6], None);
    let color = msg(CoraMessageFlags::NoFlags, CoraHidOp::Write, 4, vec![0x02, 0x10, 1, 10, 20, 30]);
    s.handle_message(&color, &mut conn, 0);
    assert_eq!(s.encoder_colors, [(0, 0, 0), (10, 20, 30)]);
}

#[test]
fn studio_send_report_reset() {
    let mut s = StudioState::new_default(5);
    let mut conn = 0u8;
    s.brightness = 10;
    let reset = msg(CoraMessageFlags::NoFlags, CoraHidOp::SendReport, 1, vec![0x03, 0x02]);
    assert!(s.handle_message(&reset, &mut conn, 7).is_none());
    assert_eq!(s.brightness, 10);
    let other = msg(CoraMessageFlags::NoFlags, CoraHidOp::SendReport, 1, vec![0x05, 0x02]);
    assert!(s.handle_message(&other, &mut conn, 7).is_none());
    assert_eq!(s.brightness, 10);
}

#[test]
fn studio_console_commands_track_buttons() {
    let mut s = StudioState::new_default(0);
    assert!(!s.execute_command(&Command::Control(ControlCommand::ButtonPress(3))));
    assert!(s.button_states[3]);
    let report = s.get_report_data(0x87).unwrap();
    assert_eq!(&report[..8], &[0x01, 0x00, 32, 0x00, 0, 0, 0, 1]);
    assert!(!s.execute_command(&Command::Control(ControlCommand::ButtonRelease(3))));
    assert!(!s.button_states[3]);
    assert!(!s.execute_command(&Command::Help));
    assert!(s.execute_command(&Command::Quit));
}

#[test]
fn networkdock_reports_and_commands() {
    let mut d = DockState::new_default();
    assert_eq!(d.serial_number, "EMULATOR123456");
    assert_eq!(d.get_report_data(0x83).unwrap(), b"1.05.008".to_vec());
    assert_eq!(d.get_report_data(0x84).unwrap(), b"EMULATOR123456".to_vec());
    assert_eq!(d.get_report_data(0x87).unwrap(), Vec::<u8>::new());
    let port = d.get_report_data(0x80).unwrap();
    assert_eq!(&port[8..12], &[0xd9, 0x0f, 0xff, 0xff]);
    assert!(d.get_report_data(0x08).is_none());
    let mut conn = 0u8;
    let set = msg(CoraMessageFlags::NoFlags, CoraHidOp::SendReport, 1, vec![0x03, 0x08, 42]);
    assert!(d.handle_message(&set, &mut conn).is_none());
    assert_eq!(d.brightness, 42);
    let reset = msg(CoraMessageFlags::NoFlags, CoraHidOp::SendReport, 2, vec![0x03, 0x02]);
    d.handle_message(&reset, &mut conn);
    assert_eq!(d.brightness, 100);
    let plain_ack = msg(CoraMessageFlags::NoFlags, CoraHidOp::SendReport, 3, vec![0x03, 0x1a, 5]);
    let answer = d.handle_message(&plain_ack, &mut conn).unwrap();
    assert_eq!(answer.payload, vec![0x03, 0x1a, 0, 0]);
    assert_eq!(conn, 0);
    let ack = msg(CoraMessageFlags::AckNak, CoraHidOp::SendReport, 4, vec![0x03, 0x1a, 5]);
    assert!(d.handle_message(&ack, &mut conn).is_none());
    assert_eq!(conn, 5);
}

#[test]
fn managed_device_answers() {
    let mut d = ManagedDevice::new("ABC".to_string());
    let mut conn = 0u8;
    let serial = msg(CoraMessageFlags::NoFlags, CoraHidOp::GetReport, 1, vec![0x03, 0x84]);
    assert_eq!(d.handle_message(&serial, &mut conn).unwrap().payload, vec![0x03, 0x84, 0, 3, b'A', b'B', b'C']);
    let secondary = msg(CoraMessageFlags::Verbatim, CoraHidOp::GetReport, 2, vec![0x08]);
    assert!(d.handle_message(&secondary, &mut conn).is_none());
    let unknown = msg(CoraMessageFlags::NoFlags, CoraHidOp::GetReport, 3, vec![0x03, 0x77]);
    assert_eq!(d.handle_message(&unknown, &mut conn).unwrap().payload, vec![0x03, 0x77, 0, 0]);
    d.brightness = 3;
    let reset = msg(CoraMessageFlags::NoFlags, CoraHidOp::SendReport, 4, vec![0x05, 0x02]);
    d.handle_message(&reset, &mut conn);
    assert_eq!(d.brightness, 3);
    assert_eq!(d.serial_number, "ABC");
}

#[test]
fn registry_create_list_delete() {
    let mut m = StreamDeckManager::new();
    assert_eq!(m.create("A".to_string()), Ok(BASE_PORT));
    assert_eq!(m.create("B".to_string()), Ok(BASE_PORT + 1));
    assert_eq!(m.create("A".to_string()), Err("Device with serial number 'A' already exists".to_string()));
    assert_eq!(m.list(), vec![("A".to_string(), 5343), ("B".to_string(), 5344)]);
    assert_eq!(m.send_control("B"), Ok(5344));
    assert_eq!(m.delete("A"), Ok(()));
    assert_eq!(m.delete("A"), Err("Device with serial number 'A' not found".to_string()));
    assert_eq!(m.send_control("A"), Err("Device with serial number 'A' not found".to_string()));
    assert_eq!(m.create("A".to_string()), Ok(5345));
    assert_eq!(m.list(), vec![("B".to_string(), 5344), ("A".to_string(), 5345)]);
}

#[test]
fn server_framing_takes_whole_messages() {
    let m = msg(CoraMessageFlags::AckNak, CoraHidOp::SendReport, 8, vec![0x03, 0x1a, 2]);
    let mut buf = vec![0xee, 0xee];
    buf.extend_from_slice(&m.encode());
    buf.extend_from_slice(&[1, 2]);
    let got = next_frame(&mut buf).unwrap();
    assert_eq!(got.flags, CoraMessageFlags::AckNak);
    assert_eq!(got.payload, vec![0x03, 0x1a, 2]);
    assert_eq!(buf, vec![1, 2]);
    let mut partial = m.encode();
    partial.truncate(17);
    assert!(next_frame(&mut partial).is_none());
    assert_eq!(partial.len(), 17);
    let mut junk = vec![5u8; 20];
    assert!(next_frame(&mut junk).is_none());
    assert_eq!(junk, vec![5, 5, 5]);
}

#[test]
fn keep_alive_round_trip_with_client() {
    let request = event_message(17, keep_alive_request_payload(0x33));
    let ack = keep_alive_reply(&request).unwrap();
    let mut studio = StudioState::new_default(0);
    let mut conn = 0u8;
    assert!(studio.handle_message(&ack, &mut conn, 0).is_none());
    assert_eq!(conn, 0x33);
    let mut dock = DockState::new_default();
    let mut dock_conn = 0u8;
    assert!(dock.handle_message(&ack, &mut dock_conn).is_none());
    assert_eq!(dock_conn, 0x33);
    let mut managed = ManagedDevice::new("M".to_string());
    let mut managed_conn = 0u8;
    assert!(managed.handle_message(&ack, &mut managed_conn).is_none());
    assert_eq!(managed_conn, 0x33);
}

#[test]
fn serial_round_trip_with_client() {
    let mut studio = StudioState::new_default(777);
    let mut conn = 0u8;
    let answer = studio.handle_message(&serial_request(1), &mut conn, 0).unwrap();
    let encoded = answer.encode();
    let decoded = CoraMessage::decode(&encoded).unwrap();
    assert_eq!(serial_from_cora_response(&decoded), Some(studio.serial_number.clone()));
    let mut dock = DockState::new_default();
    let dock_answer = dock.handle_message(&serial_request(2), &mut conn).unwrap();
    assert_eq!(serial_from_cora_response(&dock_answer), Some("EMULATOR123456".to_string()));
}

#[test]
fn cora_flags_from_wire_values() {
    assert_eq!(CoraMessageFlags::from(0x0200u16), CoraMessageFlags::AckNak);
    assert_eq!(CoraMessageFlags::from(0xc000u16), CoraMessageFlags::Verbatim);
    assert_eq!(CoraHidOp::from(2u8), CoraHidOp::GetReport);
    assert_eq!(CoraHidOp::from(9u8), CoraHidOp::Write);
}

#[test]
fn device2_connects_once() {
    let mut s = StudioState::new_default(0);
    let plug = s.connect_device2().unwrap();
    assert_eq!(&plug[..6], &[0x01, 0x0b, 0, 0, 0x02, 0]);
    assert_eq!(&plug[28..30], &[0xaa, 0x00]);
    assert!(s.device2_connected);
    assert!(s.connect_device2().is_none());
    let report = s.get_report_data(0x1c).unwrap();
    assert_eq!(report[4], 0x02);
    let mut d = DockState::new_default();
    let dock_plug = d.connect_device2().unwrap();
    assert_eq!(&dock_plug[28..30], &[0x89, 0x00]);
    assert!(d.connect_device2().is_none());
}

#[test]
fn button_image_pages_are_stored_whole() {
    let jpeg: Vec<u8> = (0..2500u32).map(|i| (i % 253) as u8).collect();
    let pages = button_image_pages(9, &jpeg);
    assert_eq!(pages.len(), 3);
    let mut s = StudioState::new_default(0);
    s.button_images[9] = Some(vec![1, 2, 3]);
    let mut conn = 0u8;
    for (i, page) in pages.iter().enumerate() {
        let m = command_payload_message(page.to_vec(), i as u32 + 1);
        assert_eq!(m.hid_op, CoraHidOp::Write);
        assert!(s.handle_message(&m, &mut conn, 0).is_none());
    }
    assert_eq!(s.button_images[9], Some(jpeg));
    assert_eq!(s.button_images[8], None);
}

#[test]
fn clients_that_stay() {
    use_keep_marked();
}

fn use_keep_marked() {
    let kept = streamdeck_cona_rs::emulator::clients::keep_marked(
        vec!["a".to_string(), "b".to_string(), "c".to_string(), "d".to_string()],
        &vec![true, false, true, false],
    );
    assert_eq!(kept, vec!["a".to_string(), "c".to_string()]);
    let all = streamdeck_cona_rs::emulator::clients::keep_marked(vec![1, 2, 3], &vec![true, true, true]);
    assert_eq!(all, vec![1, 2, 3]);
    let none: Vec<u8> = streamdeck_cona_rs::emulator::clients::keep_marked(vec![], &vec![]);
    assert!(none.is_empty());
}
