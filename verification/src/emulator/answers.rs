//! What each emulated device answers to GET_REPORT requests, stated byte by
//! byte over the device's state.

use vstd::prelude::*;
use crate::emulator::report::{
    device2_info, primary_port_info, report_response, NETWORKDOCK_PRODUCT_ID,
    STUDIO_PRODUCT_ID, VENDOR_ID,
};
use crate::emulator::studio::utf8;
use crate::emulator::{manager, networkdock, studio};

verus! {

/// The bytes of the firmware version every emulated device starts with, "1.05.008".
pub proof fn lemma_firmware_bytes()
    ensures
        utf8("1.05.008"@) == seq![0x31u8, 0x2eu8, 0x30u8, 0x35u8, 0x2eu8, 0x30u8, 0x30u8, 0x38u8],
{
    reveal_strlit("1.05.008");
    let c = "1.05.008"@;
    assert(vstd::utf8::is_ascii_chars(c));
    vstd::utf8::is_ascii_chars_encode_utf8(c);
    assert(utf8(c) =~= seq![0x31u8, 0x2eu8, 0x30u8, 0x35u8, 0x2eu8, 0x30u8, 0x30u8, 0x38u8]);
}

/// A GET_REPORT response payload is 0x03, the report id, the data length
/// (big endian, at most 65535), then that much of the data.
pub proof fn lemma_report_response_bytes(report_id: u8, data: Seq<u8>)
    ensures
        ({
            let r = report_response(report_id, data);
            let len = if data.len() < 65535 { data.len() as int } else { 65535int };
            &&& r.len() == 4 + len
            &&& r[0] == 0x03u8
            &&& r[1] == report_id
            &&& 256 * r[2] as int + r[3] as int == len
            &&& forall|j: int| 0 <= j < len ==> #[trigger] r[4 + j] == data[j]
        }),
{
    let len = if data.len() < 65535 { data.len() as int } else { 65535int };
    let r = report_response(report_id, data);
    assert((len / 256) as u16 as u8 as int * 256 + (len % 256) as u16 as u8 as int == len) by (nonlinear_arith)
        requires
            0 <= len <= 65535,
    ;
    assert forall|j: int| 0 <= j < len implies #[trigger] r[4 + j] == data[j] by {
        assert(r[4 + j] == data.take(len)[j]);
    }
}

/// The primary port information is 16 bytes: Elgato's vendor id 0x0fd9 at
/// bytes 8-9 and the product id at 10-11 (both little endian), zeros elsewhere.
pub proof fn lemma_primary_port_bytes(product_id: u16)
    ensures
        ({
            let d = primary_port_info(VENDOR_ID, product_id);
            &&& d.len() == 16
            &&& d[8] == 0xd9u8
            &&& d[9] == 0x0fu8
            &&& d[10] as int + 256 * d[11] as int == product_id as int
            &&& forall|i: int| 0 <= i < 8 || 12 <= i < 16 ==> #[trigger] d[i] == 0u8
        }),
{
    let v = product_id;
    assert((v % 256) as u8 as int + 256 * (v / 256) as u8 as int == v as int);
}

/// The child device information is 128 bytes. Without a child connected it is
/// all zeros (but for 0x01 0x0b at its start in a plug event). With one, byte
/// 4 is 0x02, the vendor id 0x0fd9 and the product id stand little endian at
/// 26-29, the serial number "DEVICE2_SERIAL_123456" at 94-114 and the TCP port
/// 5343 little endian at 126-127, and every other byte is zero.
pub proof fn lemma_child_info_bytes(connected: bool, for_plug_event: bool, product_id: u16)
    ensures
        ({
            let d = device2_info(connected, for_plug_event, product_id);
            &&& d.len() == 128
            &&& d[0] == (if for_plug_event { 0x01u8 } else { 0u8 })
            &&& d[1] == (if for_plug_event { 0x0bu8 } else { 0u8 })
            &&& d[4] == (if connected { 0x02u8 } else { 0u8 })
            &&& !connected ==> forall|i: int| 2 <= i < 128 ==> #[trigger] d[i] == 0u8
            &&& connected ==> {
                &&& d[26] == 0xd9u8
                &&& d[27] == 0x0fu8
                &&& d[28] as int + 256 * d[29] as int == product_id as int
                &&& d.subrange(94, 115) == seq![
                    0x44u8, 0x45u8, 0x56u8, 0x49u8, 0x43u8, 0x45u8, 0x32u8, 0x5fu8, 0x53u8, 0x45u8, 0x52u8,
                    0x49u8, 0x41u8, 0x4cu8, 0x5fu8, 0x31u8, 0x32u8, 0x33u8, 0x34u8, 0x35u8, 0x36u8,
                ]
                &&& d[126] == 0xdfu8
                &&& d[127] == 0x14u8
                &&& forall|i: int|
                    (2 <= i < 26 && i != 4) || (30 <= i < 94) || (115 <= i < 126) ==> #[trigger] d[i] == 0u8
            }
        }),
{
    let d = device2_info(connected, for_plug_event, product_id);
    let v = product_id;
    assert((v % 256) as u8 as int + 256 * (v / 256) as u8 as int == v as int);
    if connected {
        assert(d.subrange(94, 115) =~= seq![
            0x44u8, 0x45u8, 0x56u8, 0x49u8, 0x43u8, 0x45u8, 0x32u8, 0x5fu8, 0x53u8, 0x45u8, 0x52u8,
            0x49u8, 0x41u8, 0x4cu8, 0x5fu8, 0x31u8, 0x32u8, 0x33u8, 0x34u8, 0x35u8, 0x36u8,
        ]);
    }
}

/// The reports a Stream Deck Studio answers, for every state:
/// - 0x80: the primary port information with product id 0x00aa; 0x08 (the
///   secondary port request) is not answered;
/// - 0x83: 16 bytes carrying the first (at most 8) bytes of the firmware
///   version at offset 4, and its first two bytes again at offsets 2-3;
/// - 0x86 and 0x8a alike: 32 bytes carrying the firmware version's bytes from
///   offset 0, with 0x18 over its second byte;
/// - 0x84: the serial number's bytes; 0x85: the MAC address 00:1a:2b:3c:4d:5e;
/// - 0x1c: the child device information, byte 4 being 0x02 exactly when the
///   child is connected, with product id 0x00aa;
/// - 0x87: 0x01 0x00 0x20 0x00, then one byte per button, 1 when pressed;
/// - 0x8f: four zero bytes; 0x1a: nothing is sent back;
/// - no other report is answered.
pub proof fn lemma_studio_reports(s: studio::DeviceState, report_id: u8)
    requires
        s.wf(),
    ensures
        studio::report_data(s, 0x80) == Some(primary_port_info(VENDOR_ID, 0x00aa)),
        studio::report_answer(s, 0x08) is None,
        ({
            let v = utf8(s.firmware_version@);
            let m = if v.len() < 8 { v.len() as int } else { 8int };
            let d = studio::report_data(s, 0x83)->0;
            &&& studio::report_answer(s, 0x83) == Some(d)
            &&& d.len() == 16
            &&& forall|j: int| 0 <= j < m ==> #[trigger] d[4 + j] == v[j]
            &&& d[2] == (if m >= 1 { v[0] } else { 0u8 })
            &&& d[3] == (if m >= 2 { v[1] } else { 0u8 })
            &&& d[0] == 0u8 && d[1] == 0u8
            &&& forall|i: int| 4 + m <= i < 16 ==> #[trigger] d[i] == 0u8
        }),
        ({
            let v = utf8(s.firmware_version@);
            let m = if v.len() < 8 { v.len() as int } else { 8int };
            let d = studio::report_data(s, 0x86)->0;
            &&& studio::report_answer(s, 0x86) == Some(d)
            &&& studio::report_answer(s, 0x8a) == Some(d)
            &&& d.len() == 32
            &&& d[0] == (if m >= 1 { v[0] } else { 0u8 })
            &&& d[1] == 0x18u8
            &&& forall|j: int| 2 <= j < m ==> #[trigger] d[j] == v[j]
            &&& forall|i: int| 2 <= i < 32 && i >= m ==> #[trigger] d[i] == 0u8
        }),
        studio::report_answer(s, 0x84) == Some(utf8(s.serial_number@)),
        studio::report_answer(s, 0x85) == Some(seq![0x00u8, 0x1au8, 0x2bu8, 0x3cu8, 0x4du8, 0x5eu8]),
        ({
            let d = studio::report_data(s, 0x1c)->0;
            &&& studio::report_answer(s, 0x1c) == Some(d)
            &&& d == device2_info(s.device2_connected, false, STUDIO_PRODUCT_ID)
            &&& d.len() == 128
            &&& (d[4] == 0x02u8 <==> s.device2_connected)
            &&& s.device2_connected ==> d[28] == 0xaau8 && d[29] == 0u8
        }),
        ({
            let d = studio::report_data(s, 0x87)->0;
            &&& studio::report_answer(s, 0x87) == Some(d)
            &&& d.len() == 36
            &&& d[0] == 0x01u8 && d[1] == 0u8 && d[2] == 0x20u8 && d[3] == 0u8
            &&& forall|b: int| 0 <= b < 32 ==> d[4 + b] == (if #[trigger] s.button_states@[b] { 1u8 } else { 0u8 })
        }),
        studio::report_answer(s, 0x8f) == Some(seq![0u8, 0u8, 0u8, 0u8]),
        studio::report_answer(s, 0x1a) is None,
        !(report_id == 0x80 || report_id == 0x83 || report_id == 0x84 || report_id == 0x85 || report_id == 0x86
            || report_id == 0x8a || report_id == 0x1c || report_id == 0x87 || report_id == 0x8f)
            ==> studio::report_answer(s, report_id) is None,
{
    lemma_child_info_bytes(s.device2_connected, false, STUDIO_PRODUCT_ID);
    let d = studio::report_data(s, 0x87)->0;
    assert forall|b: int| 0 <= b < 32 implies d[4 + b] == (if #[trigger] s.button_states@[b] { 1u8 } else { 0u8 }) by {
        assert(d[4 + b] == (if s.button_states@[4 + b - 4] { 1u8 } else { 0u8 }));
    }
}

/// A freshly started Studio reports firmware "1.05.008": report 0x83 is
/// 00 00 '1' '.' '1' '.' '0' '5' '.' '0' '0' '8' 00 00 00 00, reports 0x86 and
/// 0x8a start '1' 0x18 '0' '5' '.' '0' '0' '8' and are zero after; it reports
/// no child device and no pressed button.
pub proof fn lemma_fresh_studio_reports(s: studio::DeviceState, now_secs: u64)
    requires
        s.is_fresh(now_secs),
    ensures
        studio::report_answer(s, 0x83) == Some(
            seq![0u8, 0u8, 0x31u8, 0x2eu8, 0x31u8, 0x2eu8, 0x30u8, 0x35u8, 0x2eu8, 0x30u8, 0x30u8, 0x38u8, 0u8, 0u8, 0u8, 0u8],
        ),
        studio::report_answer(s, 0x86)->0.take(8) == seq![0x31u8, 0x18u8, 0x30u8, 0x35u8, 0x2eu8, 0x30u8, 0x30u8, 0x38u8],
        studio::report_answer(s, 0x8a) == studio::report_answer(s, 0x86),
        forall|i: int| 8 <= i < 32 ==> #[trigger] studio::report_answer(s, 0x86)->0[i] == 0u8,
        forall|i: int| 0 <= i < 128 ==> #[trigger] studio::report_answer(s, 0x1c)->0[i] == 0u8,
        forall|b: int| 4 <= b < 36 ==> #[trigger] studio::report_answer(s, 0x87)->0[b] == 0u8,
{
    lemma_firmware_bytes();
    lemma_studio_reports(s, 0);
    lemma_child_info_bytes(false, false, STUDIO_PRODUCT_ID);
    assert(s.firmware_version@ == "1.05.008"@);
    assert(studio::report_answer(s, 0x83)->0 =~= seq![
        0u8, 0u8, 0x31u8, 0x2eu8, 0x31u8, 0x2eu8, 0x30u8, 0x35u8, 0x2eu8, 0x30u8, 0x30u8, 0x38u8, 0u8, 0u8, 0u8, 0u8,
    ]);
    assert(studio::report_answer(s, 0x86)->0.take(8) =~= seq![
        0x31u8, 0x18u8, 0x30u8, 0x35u8, 0x2eu8, 0x30u8, 0x30u8, 0x38u8,
    ]);
    let d = studio::report_answer(s, 0x87)->0;
    assert forall|b: int| 4 <= b < 36 implies #[trigger] d[b] == 0u8 by {
        assert(!s.button_states@[b - 4]);
    }
}

/// The reports a NetworkDock answers, for every state:
/// - 0x80: the primary port information with product id 0xffff;
/// - 0x83: the firmware version's bytes; 0x84: the serial number's bytes;
/// - 0x1c: the child device information, byte 4 being 0x02 exactly when the
///   child is connected, with product id 0x0089;
/// - 0x8f, 0x87 and 0x1a: empty data;
/// - no other report is answered (0x08 among them).
pub proof fn lemma_dock_reports(s: networkdock::DeviceState, report_id: u8)
    ensures
        networkdock::report_data(s, 0x80) == Some(primary_port_info(VENDOR_ID, 0xffff)),
        networkdock::report_data(s, 0x83) == Some(utf8(s.firmware_version@)),
        networkdock::report_data(s, 0x84) == Some(utf8(s.serial_number@)),
        ({
            let d = networkdock::report_data(s, 0x1c)->0;
            &&& networkdock::report_data(s, 0x1c) is Some
            &&& d == device2_info(s.device2_connected, false, NETWORKDOCK_PRODUCT_ID)
            &&& d.len() == 128
            &&& (d[4] == 0x02u8 <==> s.device2_connected)
            &&& s.device2_connected ==> d[28] == 0x89u8 && d[29] == 0u8
        }),
        networkdock::report_data(s, 0x8f) == Some(Seq::<u8>::empty()),
        networkdock::report_data(s, 0x87) == Some(Seq::<u8>::empty()),
        networkdock::report_data(s, 0x1a) == Some(Seq::<u8>::empty()),
        !(report_id == 0x80 || report_id == 0x83 || report_id == 0x84 || report_id == 0x1c || report_id == 0x8f
            || report_id == 0x87 || report_id == 0x1a) ==> networkdock::report_data(s, report_id) is None,
{
    lemma_child_info_bytes(s.device2_connected, false, NETWORKDOCK_PRODUCT_ID);
}

/// A freshly started NetworkDock reports firmware "1.05.008", serial number
/// "EMULATOR123456" and no child device.
pub proof fn lemma_fresh_dock_reports(s: networkdock::DeviceState)
    requires
        s.is_fresh(),
    ensures
        networkdock::report_data(s, 0x83) == Some(seq![0x31u8, 0x2eu8, 0x30u8, 0x35u8, 0x2eu8, 0x30u8, 0x30u8, 0x38u8]),
        networkdock::report_data(s, 0x84) == Some(utf8("EMULATOR123456"@)),
        forall|i: int| 0 <= i < 128 ==> #[trigger] networkdock::report_data(s, 0x1c)->0[i] == 0u8,
{
    lemma_firmware_bytes();
    lemma_child_info_bytes(false, false, NETWORKDOCK_PRODUCT_ID);
}

/// The reports a device of the manager answers, for every state: 0x80 the
/// primary port information with product id 0x00aa, 0x83 the firmware
/// version's bytes, 0x84 the serial number's bytes, 0x08 nothing, and any
/// other report empty data.
pub proof fn lemma_managed_reports(s: manager::DeviceState, report_id: u8)
    ensures
        manager::report_answer(s, 0x80) == Some(primary_port_info(VENDOR_ID, 0x00aa)),
        manager::report_answer(s, 0x08) is None,
        manager::report_answer(s, 0x83) == Some(utf8(s.firmware_version@)),
        manager::report_answer(s, 0x84) == Some(utf8(s.serial_number@)),
        !(report_id == 0x80 || report_id == 0x08 || report_id == 0x83 || report_id == 0x84)
            ==> manager::report_answer(s, report_id) == Some(Seq::<u8>::empty()),
{
}

/// A device the manager has just created (or reset) with serial number
/// `serial` reports firmware "1.05.008" for 0x83 and that serial number's
/// bytes for 0x84.
pub proof fn lemma_fresh_managed_reports(s: manager::DeviceState, serial: Seq<char>)
    requires
        s.is_fresh(serial),
    ensures
        manager::report_answer(s, 0x83) == Some(seq![0x31u8, 0x2eu8, 0x30u8, 0x35u8, 0x2eu8, 0x30u8, 0x30u8, 0x38u8]),
        manager::report_answer(s, 0x84) == Some(utf8(serial)),
{
    lemma_firmware_bytes();
}

} // verus!
