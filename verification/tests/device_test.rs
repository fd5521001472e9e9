use std::io::Cursor;

use streamdeck_cona_rs::connection::{serial_from_response, serial_request_packet};
use streamdeck_cona_rs::device::{
    brightness_packet, button_image_packets, button_image_pages, display_area_image_packets, display_area_pages,
    encoder_color_packet, encoder_ring_packet, incoming_packet_action, keep_alive_response, reset_packet,
    IncomingAction,
};
use streamdeck_cona_rs::error::Error;
use streamdeck_cona_rs::image::{ImageConverter, BUTTON_HEIGHT, BUTTON_WIDTH};
use streamdeck_cona_rs::protocol::command::{Command, CommandEncoder};
use streamdeck_cona_rs::protocol::error::Error as CoreError;
use streamdeck_cona_rs::protocol::event::{Event, EventDecoder, TouchType};
use streamdeck_cona_rs::protocol::packet::{PacketReader, PacketWriter, PACKET_SIZE};

fn png(width: u32, height: u32) -> Vec<u8> {
    let img = image::RgbImage::from_fn(width, height, |x, y| image::Rgb([(x % 256) as u8, (y % 256) as u8, 128]));
    let mut out = Vec::new();
    image::DynamicImage::ImageRgb8(img).write_to(&mut Cursor::new(&mut out), image::ImageFormat::Png).unwrap();
    out
}

#[test]
fn brightness_packets() {
    let p = brightness_packet(100).unwrap();
    assert_eq!(&p[..3], &[0x03, 0x08, 100]);
    match brightness_packet(101) {
        Err(Error::InvalidParameter(s)) => assert_eq!(s, "Brightness must be 0-100, got 101"),
        _ => panic!("expected an invalid parameter"),
    }
}

#[test]
fn encoder_packets() {
    let p = encoder_color_packet(1, 1, 2, 3).unwrap();
    assert_eq!(&p[..6], &[0x02, 0x10, 1, 1, 2, 3]);
    match encoder_color_packet(2, 0, 0, 0) {
        Err(Error::InvalidParameter(s)) => assert_eq!(s, "Encoder index must be 0 or 1, got 2"),
        _ => panic!("expected an invalid parameter"),
    }
    let ring = encoder_ring_packet(0, vec![(1, 2, 3), (4, 5, 6)]).unwrap();
    assert_eq!(&ring[..9], &[0x02, 0x0f, 0, 1, 2, 3, 4, 5, 6]);
    assert_eq!(ring[9], 0);
    match encoder_ring_packet(0, vec![(0, 0, 0); 25]) {
        Err(Error::InvalidParameter(s)) => assert_eq!(s, "Too many colors: max 24, got 25"),
        _ => panic!("expected an invalid parameter"),
    }
    match encoder_ring_packet(3, vec![]) {
        Err(Error::InvalidParameter(s)) => assert_eq!(s, "Encoder index must be 0 or 1, got 3"),
        _ => panic!("expected an invalid parameter"),
    }
}

#[test]
fn fixed_packets() {
    let r = reset_packet();
    assert_eq!(&r[..3], &[0x03, 0x02, 0]);
    let k = keep_alive_response();
    assert_eq!(&k[..3], &[0x03, 0x1a, 0]);
    let s = serial_request_packet();
    assert_eq!(&s[..3], &[0x03, 0x84, 0]);
}

#[test]
fn serial_response_reading() {
    let mut p = [0u8; PACKET_SIZE];
    p[0] = 0x03;
    p[1] = 0x84;
    p[3] = 5;
    p[4..9].copy_from_slice(b"SN123");
    assert_eq!(serial_from_response(&p), Some("SN123".to_string()));
    p[3] = 0;
    assert_eq!(serial_from_response(&p), None);
    p[2] = 0x04;
    p[3] = 0x00;
    assert_eq!(serial_from_response(&p), None);
    let other = [0u8; PACKET_SIZE];
    assert_eq!(serial_from_response(&other), None);
}

#[test]
fn incoming_packets() {
    let mut ka = [0u8; PACKET_SIZE];
    ka[0] = 0x01;
    ka[1] = 0x0a;
    match incoming_packet_action(&ka) {
        IncomingAction::Respond(p) => assert_eq!(&p[..2], &[0x03, 0x1a]),
        _ => panic!("expected a keep-alive response"),
    }
    let mut button = [0u8; PACKET_SIZE];
    button[0] = 0x01;
    button[6] = 1;
    assert!(matches!(incoming_packet_action(&button), IncomingAction::Deliver(Event::Button { index: 2, pressed: true })));
    let other = [0u8; PACKET_SIZE];
    assert!(matches!(incoming_packet_action(&other), IncomingAction::Ignore));
    let mut bad = [0u8; PACKET_SIZE];
    bad[0] = 0x01;
    bad[1] = 0x02;
    bad[4] = 9;
    assert!(matches!(incoming_packet_action(&bad), IncomingAction::DecodeFailed(CoreError::Protocol("Unknown touch type"))));
}

#[test]
fn event_decoding_details() {
    let mut t = [0u8; PACKET_SIZE];
    t[0] = 0x01;
    t[1] = 0x02;
    t[4] = 0x02;
    t[6] = 0x10;
    t[7] = 0x01;
    t[8] = 0x20;
    assert_eq!(
        EventDecoder::decode(&t).unwrap(),
        Some(Event::Touch { touch_type: TouchType::Press, x: 0x0110, y: 0x20, end_x: None, end_y: None })
    );
    assert_eq!(EventDecoder::decode(&[0x01]), Err(CoreError::Protocol("Packet too short")));
    assert_eq!(EventDecoder::decode(&[0x01, 0x02, 0, 0, 1]), Err(CoreError::Protocol("Touch event packet too short")));
    assert_eq!(EventDecoder::decode(&[0x01, 0x03, 0, 0, 1]), Err(CoreError::Protocol("Encoder event packet too short")));
    assert_eq!(
        EventDecoder::decode(&[0x01, 0x03, 0, 0, 7, 0, 0, 0, 0]),
        Err(CoreError::Protocol("Unknown encoder event subtype"))
    );
    assert_eq!(
        EventDecoder::decode(&[0x01, 0x03, 0, 0, 0, 0, 1, 0, 0]).unwrap(),
        Some(Event::EncoderPress { encoder_index: 1, pressed: true })
    );
    assert_eq!(
        EventDecoder::decode(&[0x01, 0x04, 2, 0, 0xaa, 0xbb, 0xcc]).unwrap(),
        Some(Event::Nfc { data: vec![0xaa, 0xbb] })
    );
    assert_eq!(EventDecoder::decode(&[0x01, 0x04, 9, 0, 0xaa]), Err(CoreError::Protocol("NFC event packet too short")));
    assert_eq!(EventDecoder::decode(&[0x01, 0x04, 9]), Err(CoreError::Protocol("Cannot read u16: packet too short")));
}

#[test]
fn nfc_into_buffer() {
    let packet = [0x01, 0x04, 3, 0, 7, 8, 9, 1];
    let mut buf = [0u8; 5];
    let r = EventDecoder::decode_to_buffer(&packet, Some(&mut buf[..])).unwrap();
    match r {
        Some((Event::Nfc { data }, Some(3))) => assert!(data.is_empty()),
        _ => panic!("expected an NFC event"),
    }
    assert_eq!(buf, [7, 8, 9, 0, 0]);
    let mut small = [0u8; 2];
    assert_eq!(EventDecoder::decode_to_buffer(&packet, Some(&mut small[..])).unwrap_err(), CoreError::BufferTooSmall);
    assert_eq!(
        EventDecoder::decode_to_buffer(&packet, None).unwrap_err(),
        CoreError::InvalidParameter("NFC buffer required for NFC event")
    );
    let ka = [0x01, 0x0a];
    assert!(matches!(EventDecoder::decode_to_buffer(&ka, None).unwrap(), Some((Event::KeepAlive, None))));
}

#[test]
fn command_encoding_details() {
    let data = vec![9u8; 1020];
    let p = CommandEncoder::encode(&Command::SetButtonImage {
        button_index: 4,
        is_last_page: true,
        page_number: 2,
        data: data.clone(),
    })
    .unwrap();
    assert_eq!(&p[..8], &[0x02, 0x07, 4, 1, 0xf8, 0x03, 2, 0]);
    assert_eq!(p[1023], 9);
    let d = CommandEncoder::encode(&Command::SetDisplayAreaImage {
        x: 1,
        y: 2,
        width: 800,
        height: 100,
        is_last_page: false,
        page_number: 0,
        data: vec![5, 6],
    })
    .unwrap();
    assert_eq!(&d[..18], &[0x02, 0x0c, 1, 0, 2, 0, 0x20, 0x03, 100, 0, 0, 0, 0, 2, 0, 0, 5, 6]);
    let mut buffer = [0xffu8; PACKET_SIZE];
    CommandEncoder::encode_to_buffer(&Command::SetBrightness(7), &mut buffer).unwrap();
    assert_eq!(&buffer[..4], &[0x03, 0x08, 7, 0]);
    assert_eq!(buffer[1023], 0);
    let mut buffer2 = [0u8; PACKET_SIZE];
    assert_eq!(
        CommandEncoder::encode_to_buffer(&Command::SetButtonImage { button_index: 0, is_last_page: true, page_number: 0, data: vec![] }, &mut buffer2),
        Err(CoreError::InvalidParameter("This command requires allocation, use encode() instead"))
    );
}

#[test]
fn packet_helpers() {
    let p = PacketWriter::create_packet(&[1, 2, 3]);
    assert_eq!(p.len(), PACKET_SIZE);
    assert_eq!(&p[..4], &[1, 2, 3, 0]);
    assert_eq!(PacketWriter::pad_to_packet_size(vec![1]).len(), PACKET_SIZE);
    assert_eq!(PacketWriter::pad_to_packet_size(vec![1; 2000]).len(), PACKET_SIZE);
    assert_eq!(PacketReader::read_u16_le(&[0x34, 0x12], 0), Ok(0x1234));
    assert_eq!(PacketReader::read_u16_be(&[0x12, 0x34], 0), Ok(0x1234));
    assert_eq!(PacketReader::read_u16_le(&[0x34], 0), Err(CoreError::Protocol("Cannot read u16: packet too short")));
    assert_eq!(PacketReader::read_slice(&[1, 2, 3, 4], 1, 2), Ok(&[2u8, 3][..]));
    assert!(PacketReader::read_slice(&[1, 2], 1, 2).is_err());
}

#[test]
fn error_descriptions() {
    assert_eq!(CoreError::Protocol("x").describe(), "Protocol error: x");
    assert_eq!(CoreError::InvalidParameter("y").describe(), "Invalid parameter: y");
    assert_eq!(CoreError::BufferTooSmall.describe(), "Buffer too small");
    match Error::from(CoreError::InvalidParameter("bad")) {
        Error::InvalidParameter(s) => assert_eq!(s, "bad"),
        _ => panic!("expected an invalid parameter"),
    }
    match Error::from_core(CoreError::BufferTooSmall) {
        Error::Protocol(s) => assert_eq!(s, "Buffer too small"),
        _ => panic!("expected a protocol error"),
    }
}

#[test]
fn split_image_data() {
    let data: Vec<u8> = (0..2500u32).map(|i| (i % 251) as u8).collect();
    let chunks = ImageConverter::split_button_image_data(&data);
    assert_eq!(chunks.len(), 3);
    assert_eq!(chunks[0].len(), 1016);
    assert_eq!(chunks[2].len(), 2500 - 2032);
    assert_eq!(chunks.concat(), data);
    let d = ImageConverter::split_display_area_image_data(&data);
    assert_eq!(d.len(), 3);
    assert_eq!(d[1].len(), 1008);
    assert!(ImageConverter::split_button_image_data(&[]).is_empty());
}

#[test]
fn image_conversion() {
    let jpeg = ImageConverter::convert_button_image(&png(40, 30)).unwrap();
    assert_eq!(&jpeg[..2], &[0xff, 0xd8]);
    let decoded = image::load_from_memory(&jpeg).unwrap();
    assert_eq!(decoded.width(), BUTTON_WIDTH);
    assert_eq!(decoded.height(), BUTTON_HEIGHT);
    let area = ImageConverter::convert_display_area_image(&png(10, 10), 200, 50).unwrap();
    let area_img = image::load_from_memory(&area).unwrap();
    assert_eq!((area_img.width(), area_img.height()), (200, 50));
    match ImageConverter::convert_button_image(b"not an image") {
        Err(Error::Image(s)) => assert!(s.starts_with("Failed to load image: ")),
        _ => panic!("expected an image error"),
    }
}

#[test]
fn image_pages() {
    let pages = button_image_packets(3, &png(50, 50)).unwrap();
    assert!(!pages.is_empty());
    let last = pages.len() - 1;
    for (i, p) in pages.iter().enumerate() {
        assert_eq!(&p[..3], &[0x02, 0x07, 3]);
        assert_eq!(p[3], if i == last { 1 } else { 0 });
        assert_eq!(p[6] as usize + 256 * p[7] as usize, i);
    }
    match button_image_packets(32, &png(1, 1)) {
        Err(Error::InvalidParameter(s)) => assert_eq!(s, "Button index must be 0-31, got 32"),
        _ => panic!("expected an invalid parameter"),
    }
    let raw = vec![1u8; 2100];
    let bp = button_image_pages(0, &raw);
    assert_eq!(bp.len(), 3);
    assert_eq!(&bp[2][..8], &[0x02, 0x07, 0, 1, 68, 0, 2, 0]);
    let dp = display_area_pages(0, 0, 800, 100, &raw);
    assert_eq!(dp.len(), 3);
    assert_eq!(dp[2][10], 1);
    let area = display_area_image_packets(0, 0, 100, 20, &png(5, 5)).unwrap();
    assert!(!area.is_empty());
    assert!(display_area_image_packets(0, 0, 100, 20, b"xx").is_err());
    match display_area_image_packets(0, 0, 100, 0, &png(5, 5)) {
        Err(Error::Image(s)) => assert!(s.starts_with("Failed to encode JPEG: ")),
        _ => panic!("expected an encoding error"),
    }
    match ImageConverter::convert_to_jpeg(&png(5, 5), Some(0), None) {
        Err(Error::Image(s)) => assert!(s.starts_with("Failed to encode JPEG: ")),
        _ => panic!("expected an encoding error"),
    }
    match ImageConverter::convert_display_area_image(&png(5, 5), 70000, 1) {
        Err(Error::Image(s)) => assert!(s.starts_with("Failed to encode JPEG: ")),
        _ => panic!("expected an encoding error"),
    }
    let widest = ImageConverter::convert_display_area_image(&png(5, 5), 65535, 1).unwrap();
    let img = image::load_from_memory(&widest).unwrap();
    assert_eq!((img.width(), img.height()), (65535, 1));
    let default_size = ImageConverter::convert_to_jpeg(&png(5, 5), None, None).unwrap();
    let img = image::load_from_memory(&default_size).unwrap();
    assert_eq!((img.width(), img.height()), (144, 112));
}

#[test]
fn display_pages_carry_the_image() {
    let raw: Vec<u8> = (0..3000u32).map(|i| (i % 241) as u8).collect();
    let pages = display_area_pages(200, 0, 200, 100, &raw);
    let mut joined = Vec::new();
    for p in &pages {
        let len = p[13] as usize + 256 * p[14] as usize;
        joined.extend_from_slice(&p[16..16 + len]);
    }
    assert_eq!(joined, raw);
}

#[test]
fn converted_jpeg_shows_the_input_image() {
    let red = image::RgbImage::from_pixel(30, 20, image::Rgb([250, 10, 10]));
    let mut png_red = Vec::new();
    image::DynamicImage::ImageRgb8(red).write_to(&mut Cursor::new(&mut png_red), image::ImageFormat::Png).unwrap();
    let blue = image::RgbImage::from_pixel(30, 20, image::Rgb([10, 10, 250]));
    let mut png_blue = Vec::new();
    image::DynamicImage::ImageRgb8(blue).write_to(&mut Cursor::new(&mut png_blue), image::ImageFormat::Png).unwrap();
    for (data, want) in [(png_red, [250u8, 10, 10]), (png_blue, [10u8, 10, 250])] {
        let jpeg = ImageConverter::convert_button_image(&data).unwrap();
        let img = image::load_from_memory(&jpeg).unwrap().to_rgb8();
        assert_eq!((img.width(), img.height()), (144, 112));
        let px = img.get_pixel(72, 56).0;
        for c in 0..3 {
            assert!((px[c] as i32 - want[c] as i32).abs() < 30, "pixel {:?} far from {:?}", px, want);
        }
    }
}

#[test]
fn button_conversion_is_the_default_conversion() {
    let data = png(40, 30);
    let a = ImageConverter::convert_button_image(&data).unwrap();
    let b = ImageConverter::convert_to_jpeg(&data, Some(144), Some(112)).unwrap();
    let c = ImageConverter::convert_to_jpeg(&data, None, None).unwrap();
    assert_eq!(a, b);
    assert_eq!(a, c);
}
