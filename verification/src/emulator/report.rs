//! GET_REPORT requests and responses of the emulated devices.

use vstd::prelude::*;
use crate::protocol::cora::{CoraMessage, CoraMessageFlags, CoraHidOp};
use crate::protocol::packet::{lo_byte, hi_byte, be16_bytes};
use crate::emulator::payload::zeros;

verus! {

/// Elgato's USB vendor id.
pub const VENDOR_ID: u16 = 0x0fd9;
/// Stream Deck Studio product id.
pub const STUDIO_PRODUCT_ID: u16 = 0x00aa;
/// NetworkDock product id reported for a child device.
pub const NETWORKDOCK_PRODUCT_ID: u16 = 0x0089;
/// Product id a NetworkDock reports in its primary port information.
pub const NETWORKDOCK_PORT_PRODUCT_ID: u16 = 0xffff;
/// TCP port reported for a child device.
pub const CHILD_TCP_PORT: u16 = 5343;
/// Longest data a GET_REPORT response carries.
pub const MAX_REPORT_DATA: usize = 65535;

/// The report id that a payload asks for: `[report_id]` on the secondary port
/// (VERBATIM flag), `[0x03, report_id]` otherwise.
pub open spec fn report_request(payload: Seq<u8>, flags: CoraMessageFlags) -> Option<u8> {
    if flags == CoraMessageFlags::Verbatim {
        if payload.len() >= 1 { Some(payload[0]) } else { None }
    } else {
        primary_report_request(payload)
    }
}

/// The report id that a primary-port payload `[0x03, report_id]` asks for.
pub open spec fn primary_report_request(payload: Seq<u8>) -> Option<u8> {
    if payload.len() >= 2 && payload[0] == 0x03u8 { Some(payload[1]) } else { None }
}

/// The report id of a GET_REPORT request, if the payload is one.
pub fn parse_get_report_request(payload: &[u8], flags: CoraMessageFlags) -> (r: Option<u8>)
    ensures
        r == report_request(payload@, flags),
{
    match flags {
        CoraMessageFlags::Verbatim => {
            if payload.len() >= 1 {
                Some(payload[0])
            } else {
                None
            }
        },
        _ => parse_primary_get_report_request(payload),
    }
}

/// The report id of a primary-port GET_REPORT request `[0x03, report_id]`.
pub fn parse_primary_get_report_request(payload: &[u8]) -> (r: Option<u8>)
    ensures
        r == primary_report_request(payload@),
{
    if payload.len() >= 2 && payload[0] == 0x03 {
        Some(payload[1])
    } else {
        None
    }
}

/// The response payload: 0x03, the report id, the data length (big endian,
/// at most 65535), then that much of the data.
pub open spec fn report_response(report_id: u8, data: Seq<u8>) -> Seq<u8> {
    let len = if data.len() < 65535 { data.len() as int } else { 65535int };
    seq![0x03u8, report_id] + be16_bytes(len as u16) + data.take(len)
}

/// Build a GET_REPORT response payload.
pub fn build_get_report_response_payload(report_id: u8, data: &[u8]) -> (p: Vec<u8>)
    ensures
        p@ == report_response(report_id, data@),
{
    let len = if data.len() < MAX_REPORT_DATA { data.len() } else { MAX_REPORT_DATA };
    let len16 = len as u16;
    let mut payload: Vec<u8> = Vec::new();
    payload.push(0x03);
    payload.push(report_id);
    payload.push((len16 / 256) as u8);
    payload.push((len16 % 256) as u8);
    let ghost head = payload@;
    let mut i: usize = 0;
    while i < len
        invariant
            i <= len <= data@.len(),
            payload@ == head + data@.take(i as int),
        decreases len - i,
    {
        payload.push(data[i]);
        i = i + 1;
        assert(payload@ =~= head + data@.take(i as int));
    }
    assert(payload@ =~= report_response(report_id, data@));
    payload
}

/// Whether `m` is the response to GET_REPORT `report_id` with `data` for message `message_id`.
pub open spec fn is_report_response(m: CoraMessage, message_id: u32, report_id: u8, data: Seq<u8>) -> bool {
    &&& m.flags == CoraMessageFlags::Result
    &&& m.hid_op == CoraHidOp::GetReport
    &&& m.message_id == message_id
    &&& m.payload@ == report_response(report_id, data)
}

/// The response message to a GET_REPORT request.
pub fn get_report_response(message_id: u32, report_id: u8, data: &[u8]) -> (m: CoraMessage)
    ensures
        is_report_response(m, message_id, report_id, data@),
{
    let payload = build_get_report_response_payload(report_id, data);
    CoraMessage::new(CoraMessageFlags::Result, CoraHidOp::GetReport, message_id, payload)
}

/// The primary port information: 16 bytes, vendor id at 8-9 and product id at
/// 10-11 (little endian), zeros elsewhere.
pub open spec fn primary_port_info(vendor_id: u16, product_id: u16) -> Seq<u8> {
    Seq::new(16, |i: int| if i == 8 { lo_byte(vendor_id) } else if i == 9 { hi_byte(vendor_id) } else if i == 10 {
        lo_byte(product_id)
    } else if i == 11 {
        hi_byte(product_id)
    } else {
        0u8
    })
}

/// Build the primary port information (report 0x80).
pub fn build_primary_port_info_payload(vendor_id: u16, product_id: u16) -> (p: Vec<u8>)
    ensures
        p@ == primary_port_info(vendor_id, product_id),
{
    let mut payload = zeros(16);
    payload.set(8, (vendor_id % 256) as u8);
    payload.set(9, (vendor_id / 256) as u8);
    payload.set(10, (product_id % 256) as u8);
    payload.set(11, (product_id / 256) as u8);
    assert(payload@ =~= primary_port_info(vendor_id, product_id));
    payload
}

/// The serial number the emulators report for a child device.
pub open spec fn child_serial() -> Seq<u8> {
    seq![
        0x44u8, 0x45u8, 0x56u8, 0x49u8, 0x43u8, 0x45u8, 0x32u8, 0x5fu8, 0x53u8, 0x45u8, 0x52u8,
        0x49u8, 0x41u8, 0x4cu8, 0x5fu8, 0x31u8, 0x32u8, 0x33u8, 0x34u8, 0x35u8, 0x36u8,
    ]
}

/// The child device (Device 2) information: 128 bytes; 0x01 0x0b first for a
/// plug event; byte 4 is 0x02 when connected, and then vendor id (26-27),
/// product id (28-29), serial number (from 94) and TCP port (126-127) follow.
pub open spec fn device2_info(connected: bool, for_plug_event: bool, product_id: u16) -> Seq<u8> {
    Seq::new(128, |i: int| {
        if i == 0 && for_plug_event {
            0x01u8
        } else if i == 1 && for_plug_event {
            0x0bu8
        } else if !connected {
            0u8
        } else if i == 4 {
            0x02u8
        } else if i == 26 {
            lo_byte(VENDOR_ID)
        } else if i == 27 {
            hi_byte(VENDOR_ID)
        } else if i == 28 {
            lo_byte(product_id)
        } else if i == 29 {
            hi_byte(product_id)
        } else if 94 <= i < 94 + 21 {
            child_serial()[i - 94]
        } else if i == 126 {
            lo_byte(CHILD_TCP_PORT)
        } else if i == 127 {
            hi_byte(CHILD_TCP_PORT)
        } else {
            0u8
        }
    })
}

/// Build the child device information for a device with the given product id.
pub fn build_device2_info_payload(connected: bool, for_plug_event: bool, product_id: u16) -> (p: Vec<u8>)
    ensures
        p@ == device2_info(connected, for_plug_event, product_id),
{
    let mut payload = zeros(128);
    if for_plug_event {
        payload.set(0, 0x01);
        payload.set(1, 0x0b);
    }
    if connected {
        payload.set(4, 0x02);
        payload.set(26, (VENDOR_ID % 256) as u8);
        payload.set(27, (VENDOR_ID / 256) as u8);
        payload.set(28, (product_id % 256) as u8);
        payload.set(29, (product_id / 256) as u8);
        let serial: [u8; 21] = [
            0x44, 0x45, 0x56, 0x49, 0x43, 0x45, 0x32, 0x5f, 0x53, 0x45, 0x52, 0x49, 0x41, 0x4c, 0x5f, 0x31, 0x32,
            0x33, 0x34, 0x35, 0x36,
        ];
        assert(serial@ =~= child_serial());
        let ghost before = payload@;
        let mut i: usize = 0;
        while i < 21
            invariant
                i <= 21,
                serial@ == child_serial(),
                payload@.len() == 128,
                forall|j: int| 0 <= j < 128 && !(94 <= j < 94 + i) ==> payload@[j] == before[j],
                forall|j: int| 94 <= j < 94 + i ==> payload@[j] == child_serial()[j - 94],
            decreases 21 - i,
        {
            payload.set(94 + i, serial[i]);
            i = i + 1;
        }
        payload.set(126, (CHILD_TCP_PORT % 256) as u8);
        payload.set(127, (CHILD_TCP_PORT / 256) as u8);
        assert forall|j: int| 0 <= j < 128 implies payload@[j] == device2_info(connected, for_plug_event, product_id)[j] by {
            if 94 <= j < 94 + 21 {
                assert(payload@[j] == child_serial()[j - 94]);
            } else {
                assert(j != 126 && j != 127 ==> payload@[j] == before[j]);
            }
        }
    } else {
        payload.set(4, 0x00);
    }
    assert(payload@ =~= device2_info(connected, for_plug_event, product_id));
    payload
}

} // verus!
