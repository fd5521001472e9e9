//! Payloads of the events that an emulated device sends to its clients.

use vstd::prelude::*;
use crate::protocol::cora::{CoraMessage, CoraMessageFlags, CoraHidOp};
use crate::protocol::packet::{lo_byte, hi_byte};

verus! {

/// Length of a button event payload: 4 header bytes and 32 button states.
pub const BUTTON_EVENT_SIZE: usize = 36;
/// Length of an encoder event payload.
pub const ENCODER_EVENT_SIZE: usize = 7;
/// Length of a keep-alive request payload.
pub const KEEP_ALIVE_SIZE: usize = 32;

/// The button event payload: 0x01 0x00 0x00 0x00, then one state byte per
/// button where only the given button's byte may be set.
pub open spec fn button_payload(index: u8, pressed: bool) -> Seq<u8> {
    Seq::new(36, |i: int| if i == 0 { 0x01u8 } else if i == 4 + index && pressed { 0x01u8 } else { 0u8 })
}

/// The encoder rotation payload: 0x01 0x03 0x00 0x00 0x01, then one delta per encoder.
pub open spec fn rotate_payload(index: u8, delta: i8) -> Seq<u8> {
    seq![0x01u8, 0x03u8, 0u8, 0u8, 0x01u8, if index == 0 { delta as u8 } else { 0u8 }, if index == 1 {
        delta as u8
    } else {
        0u8
    }]
}

/// The encoder press payload: 0x01 0x03 0x00 0x00 0x00, then one state per encoder.
pub open spec fn press_payload(index: u8, pressed: bool) -> Seq<u8> {
    seq![0x01u8, 0x03u8, 0u8, 0u8, 0u8, if index == 0 && pressed { 1u8 } else { 0u8 }, if index == 1 && pressed {
        1u8
    } else {
        0u8
    }]
}

/// The touch payload; a swipe (type 0x03 with both end coordinates) carries its end point.
pub open spec fn touch_payload_spec(touch_type: u8, x: u16, y: u16, end_x: Option<u16>, end_y: Option<u16>) -> Seq<u8> {
    if touch_type == 0x03u8 && end_x is Some && end_y is Some {
        seq![0x01u8, 0x02u8, 0u8, 0u8, 0x03u8, 0u8, lo_byte(x), hi_byte(x), lo_byte(y), hi_byte(y)]
            + seq![lo_byte(end_x->0), hi_byte(end_x->0), lo_byte(end_y->0), hi_byte(end_y->0)]
    } else {
        seq![0x01u8, 0x02u8, 0u8, 0u8, touch_type, 0u8, lo_byte(x), hi_byte(x), lo_byte(y), hi_byte(y)]
    }
}

/// The keep-alive request payload: 0x01 0x0a, the connection number at index 5, zeros elsewhere.
pub open spec fn keep_alive_request(connection_no: u8) -> Seq<u8> {
    Seq::new(32, |i: int| if i == 0 { 0x01u8 } else if i == 1 { 0x0au8 } else if i == 5 { connection_no } else { 0u8 })
}

/// A vector of `n` zero bytes.
pub fn zeros(n: usize) -> (v: Vec<u8>)
    ensures
        v@ == Seq::new(n as nat, |i: int| 0u8),
{
    let mut v: Vec<u8> = Vec::new();
    let mut i: usize = 0;
    while i < n
        invariant
            i <= n,
            v@ == Seq::new(i as nat, |j: int| 0u8),
        decreases n - i,
    {
        v.push(0);
        i = i + 1;
        assert(v@ =~= Seq::new(i as nat, |j: int| 0u8));
    }
    v
}

/// The payload of a button event; buttons are 0-31.
pub fn button_event_payload(index: u8, pressed: bool) -> (r: Result<Vec<u8>, &'static str>)
    ensures
        index >= 32 ==> r == Err::<Vec<u8>, &'static str>("Button index out of range (0-31)"),
        index < 32 ==> (r matches Ok(p) && p@ == button_payload(index, pressed)),
{
    if index >= 32 {
        return Err("Button index out of range (0-31)");
    }
    let mut payload = zeros(BUTTON_EVENT_SIZE);
    payload.set(0, 0x01);
    payload.set(1, 0x00);
    payload.set(2, 0x00);
    payload.set(3, 0x00);
    payload.set(4 + index as usize, if pressed { 0x01 } else { 0x00 });
    assert(payload@ =~= button_payload(index, pressed));
    Ok(payload)
}

/// The payload of an encoder rotation event; encoders are 0 and 1.
pub fn encoder_rotate_payload(index: u8, delta: i8) -> (r: Result<Vec<u8>, &'static str>)
    ensures
        index >= 2 ==> r == Err::<Vec<u8>, &'static str>("Encoder index out of range (0-1)"),
        index < 2 ==> (r matches Ok(p) && p@ == rotate_payload(index, delta)),
{
    if index >= 2 {
        return Err("Encoder index out of range (0-1)");
    }
    let mut payload = zeros(ENCODER_EVENT_SIZE);
    payload.set(0, 0x01);
    payload.set(1, 0x03);
    payload.set(4, 0x01);
    payload.set(5, if index == 0 { delta as u8 } else { 0 });
    payload.set(6, if index == 1 { delta as u8 } else { 0 });
    assert(payload@ =~= rotate_payload(index, delta));
    Ok(payload)
}

/// The payload of an encoder press or release event; encoders are 0 and 1.
pub fn encoder_press_payload(index: u8, pressed: bool) -> (r: Result<Vec<u8>, &'static str>)
    ensures
        index >= 2 ==> r == Err::<Vec<u8>, &'static str>("Encoder index out of range (0-1)"),
        index < 2 ==> (r matches Ok(p) && p@ == press_payload(index, pressed)),
{
    if index >= 2 {
        return Err("Encoder index out of range (0-1)");
    }
    let mut payload = zeros(ENCODER_EVENT_SIZE);
    payload.set(0, 0x01);
    payload.set(1, 0x03);
    payload.set(4, 0x00);
    payload.set(5, if index == 0 && pressed { 0x01 } else { 0x00 });
    payload.set(6, if index == 1 && pressed { 0x01 } else { 0x00 });
    assert(payload@ =~= press_payload(index, pressed));
    Ok(payload)
}

/// The payload of a touch event (tap 0x01, press 0x02, swipe 0x03).
pub fn touch_payload(touch_type: u8, x: u16, y: u16, end_x: Option<u16>, end_y: Option<u16>) -> (p: Vec<u8>)
    ensures
        p@ == touch_payload_spec(touch_type, x, y, end_x, end_y),
{
    let mut p: Vec<u8> = Vec::new();
    p.push(0x01);
    p.push(0x02);
    p.push(0x00);
    p.push(0x00);
    match (end_x, end_y) {
        (Some(ex), Some(ey)) if touch_type == 0x03 => {
            p.push(0x03);
            p.push(0x00);
            p.push((x % 256) as u8);
            p.push((x / 256) as u8);
            p.push((y % 256) as u8);
            p.push((y / 256) as u8);
            p.push((ex % 256) as u8);
            p.push((ex / 256) as u8);
            p.push((ey % 256) as u8);
            p.push((ey / 256) as u8);
        },
        _ => {
            p.push(touch_type);
            p.push(0x00);
            p.push((x % 256) as u8);
            p.push((x / 256) as u8);
            p.push((y % 256) as u8);
            p.push((y / 256) as u8);
        },
    }
    assert(p@ =~= touch_payload_spec(touch_type, x, y, end_x, end_y));
    p
}

/// The payload of a keep-alive request carrying the connection number.
pub fn keep_alive_request_payload(connection_no: u8) -> (p: Vec<u8>)
    ensures
        p@ == keep_alive_request(connection_no),
{
    let mut payload = zeros(KEEP_ALIVE_SIZE);
    payload.set(0, 0x01);
    payload.set(1, 0x0a);
    payload.set(5, connection_no);
    assert(payload@ =~= keep_alive_request(connection_no));
    payload
}

/// The message that carries an event payload from the device.
pub fn event_message(message_id: u32, payload: Vec<u8>) -> (m: CoraMessage)
    ensures
        m.flags == CoraMessageFlags::NoFlags,
        m.hid_op == CoraHidOp::SendReport,
        m.message_id == message_id,
        m.payload == payload,
{
    CoraMessage::new(CoraMessageFlags::NoFlags, CoraHidOp::SendReport, message_id, payload)
}

} // verus!
