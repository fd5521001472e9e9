//! The emulated NetworkDock: its state, the reports it answers and how it
//! handles the messages of its clients.

use vstd::prelude::*;
use crate::emulator::report::{
    build_device2_info_payload, build_primary_port_info_payload, device2_info, get_report_response, is_report_response,
    parse_primary_get_report_request, primary_port_info, primary_report_request, NETWORKDOCK_PORT_PRODUCT_ID,
    NETWORKDOCK_PRODUCT_ID, VENDOR_ID,
};
use crate::emulator::studio::{
    extend_from_range, firmware, images_after_write, images_view, is_brightness_report, is_color_write,
    is_image_write, is_keep_alive_ack, is_reset_report, store_image_write, utf8, BUTTONS,
};
use crate::protocol::cora::{CoraMessage, CoraMessageFlags, CoraHidOp};
use crate::text::string_of;

verus! {

/// The state of an emulated NetworkDock.
pub struct DeviceState {
    pub serial_number: String,
    pub firmware_version: String,
    pub brightness: u8,
    /// One optional image per button (32 entries).
    pub button_images: Vec<Option<Vec<u8>>>,
    pub encoder_colors: [(u8, u8, u8); 2],
    /// Whether the child device (Device 2) is connected.
    pub device2_connected: bool,
}

/// The serial number the NetworkDock emulator starts with.
pub open spec fn dock_serial() -> Seq<char> {
    "EMULATOR123456"@
}

impl DeviceState {
    /// Whether the state has one image slot per button.
    pub open spec fn wf(&self) -> bool {
        self.button_images@.len() == BUTTONS
    }

    /// Whether this is the state of a freshly started (or reset) emulator.
    pub open spec fn is_fresh(&self) -> bool {
        &&& self.wf()
        &&& self.serial_number@ == dock_serial()
        &&& self.firmware_version@ == firmware()
        &&& self.brightness == 100
        &&& forall|i: int| 0 <= i < BUTTONS ==> #[trigger] self.button_images@[i] is None
        &&& self.encoder_colors@ == seq![(0u8, 0u8, 0u8), (0u8, 0u8, 0u8)]
        &&& !self.device2_connected
    }

    /// The state of a freshly started emulator.
    pub fn new_default() -> (s: Self)
        ensures
            s.is_fresh(),
    {
        let mut button_images: Vec<Option<Vec<u8>>> = Vec::new();
        let mut i: usize = 0;
        while i < BUTTONS
            invariant
                i <= BUTTONS,
                button_images@.len() == i,
                forall|j: int| 0 <= j < i ==> #[trigger] button_images@[j] is None,
            decreases BUTTONS - i,
        {
            button_images.push(None);
            i = i + 1;
        }
        DeviceState {
            serial_number: string_of("EMULATOR123456"),
            firmware_version: string_of("1.05.008"),
            brightness: 100,
            button_images,
            encoder_colors: [(0, 0, 0), (0, 0, 0)],
            device2_connected: false,
        }
    }
}

impl Default for DeviceState {
    /// The state of a freshly started emulator.
    fn default() -> (s: Self)
        ensures
            s.is_fresh(),
    {
        DeviceState::new_default()
    }
}

/// The data the NetworkDock emulator answers a GET_REPORT with, if it knows the report:
/// the primary port information with product id 0xffff (0x80; a NetworkDock is
/// a primary-port device), the firmware version (0x83), the serial number
/// (0x84), the child device information (0x1c), and empty data for 0x8f, 0x87
/// and 0x1a.
pub open spec fn report_data(s: DeviceState, report_id: u8) -> Option<Seq<u8>> {
    if report_id == 0x80u8 {
        Some(primary_port_info(VENDOR_ID, NETWORKDOCK_PORT_PRODUCT_ID))
    } else if report_id == 0x83u8 {
        Some(utf8(s.firmware_version@))
    } else if report_id == 0x84u8 {
        Some(utf8(s.serial_number@))
    } else if report_id == 0x1cu8 {
        Some(device2_info(s.device2_connected, false, NETWORKDOCK_PRODUCT_ID))
    } else if report_id == 0x8fu8 || report_id == 0x87u8 || report_id == 0x1au8 {
        Some(Seq::empty())
    } else {
        None
    }
}

/// The bytes of a text.
fn text_bytes(s: &String) -> (v: Vec<u8>)
    ensures
        v@ == utf8(s@),
{
    let b = s.as_str().as_bytes();
    let mut v: Vec<u8> = Vec::new();
    extend_from_range(&mut v, b, 0, b.len());
    assert(v@ =~= utf8(s@));
    v
}

impl DeviceState {
    /// The data the emulator answers GET_REPORT `report_id` with, if it knows the report.
    pub fn get_report_data(&self, report_id: u8) -> (r: Option<Vec<u8>>)
        ensures
            match report_data(*self, report_id) {
                Some(d) => r matches Some(v) && v@ == d,
                None => r is None,
            },
    {
        match report_id {
            0x80 => Some(build_primary_port_info_payload(VENDOR_ID, NETWORKDOCK_PORT_PRODUCT_ID)),
            0x83 => Some(text_bytes(&self.firmware_version)),
            0x84 => Some(text_bytes(&self.serial_number)),
            0x1c => Some(build_device2_info_payload(self.device2_connected, false, NETWORKDOCK_PRODUCT_ID)),
            0x8f | 0x87 | 0x1a => Some(Vec::new()),
            _ => None,
        }
    }
}

/// The GET_REPORT request that a message makes and that the NetworkDock answers:
/// a primary-port request `[0x03, report_id]` for a report it knows.
pub open spec fn answered_request(s: DeviceState, p: Seq<u8>) -> Option<u8> {
    match primary_report_request(p) {
        Some(id) => if report_data(s, id) is Some { Some(id) } else { None },
        None => None,
    }
}

/// How a message that is neither a keep-alive acknowledgement nor an answered
/// GET_REPORT request changes the state: SEND_REPORT sets the brightness or
/// resets the device; WRITE stores a button image or an encoder color.
pub open spec fn command_applied(o: DeviceState, n: DeviceState, m: CoraMessage) -> bool {
    let p = m.payload@;
    if m.hid_op == CoraHidOp::SendReport && is_brightness_report(p) {
        n == DeviceState { brightness: p[2], ..o }
    } else if m.hid_op == CoraHidOp::SendReport && is_reset_report(p) {
        n.is_fresh()
    } else if m.hid_op == CoraHidOp::Write && is_image_write(p) {
        &&& images_view(n.button_images@) == images_after_write(images_view(o.button_images@), p)
        &&& n.serial_number == o.serial_number
        &&& n.firmware_version == o.firmware_version
        &&& n.brightness == o.brightness
        &&& n.encoder_colors == o.encoder_colors
        &&& n.device2_connected == o.device2_connected
    } else if m.hid_op == CoraHidOp::Write && is_color_write(p) {
        &&& n.encoder_colors@ == o.encoder_colors@.update(p[2] as int, (p[3], p[4], p[5]))
        &&& n.serial_number == o.serial_number
        &&& n.firmware_version == o.firmware_version
        &&& n.brightness == o.brightness
        &&& n.button_images == o.button_images
        &&& n.device2_connected == o.device2_connected
    } else {
        n == o
    }
}

impl DeviceState {
    /// Handle a message from a client; returns the message to send back, if any.
    ///
    /// A keep-alive acknowledgement (ACK_NAK flags, payload 0x03 0x1a) records
    /// the client's connection number. A primary-port GET_REPORT request (by
    /// payload, whatever the operation) for a known report is answered; one for
    /// an unknown report is handled like any other message. SEND_REPORT sets the
    /// brightness or resets the device; WRITE stores button images and encoder
    /// colors. Everything else is ignored.
    pub fn handle_message(&mut self, message: &CoraMessage, connection_no: &mut u8) -> (r: Option<CoraMessage>)
        requires
            old(self).wf(),
        ensures
            final(self).wf(),
            ({
                let p = message.payload@;
                if message.flags == CoraMessageFlags::AckNak && is_keep_alive_ack(p) {
                    &&& r is None
                    &&& *final(connection_no) == p[2]
                    &&& *final(self) == *old(self)
                } else if answered_request(*old(self), p) is Some {
                    let report_id = answered_request(*old(self), p)->0;
                    &&& *final(connection_no) == *old(connection_no)
                    &&& *final(self) == *old(self)
                    &&& r matches Some(m) && is_report_response(
                        m,
                        message.message_id,
                        report_id,
                        report_data(*old(self), report_id)->0,
                    )
                } else {
                    &&& r is None
                    &&& *final(connection_no) == *old(connection_no)
                    &&& command_applied(*old(self), *final(self), *message)
                }
            }),
    {
        let p = &message.payload;
        if message.flags == CoraMessageFlags::AckNak && p.len() >= 3 && p[0] == 0x03 && p[1] == 0x1a {
            *connection_no = p[2];
            return None;
        }
        if let Some(report_id) = parse_primary_get_report_request(p.as_slice()) {
            if let Some(data) = self.get_report_data(report_id) {
                return Some(get_report_response(message.message_id, report_id, data.as_slice()));
            }
        }
        match message.hid_op {
            CoraHidOp::GetReport => {},
            CoraHidOp::SendReport => {
                if p.len() >= 2 {
                    if p[0] == 0x03 && p[1] == 0x08 && p.len() >= 3 {
                        self.brightness = p[2];
                    } else if p[0] == 0x03 && p[1] == 0x02 {
                        *self = DeviceState::new_default();
                    }
                }
            },
            CoraHidOp::Write => {
                if p.len() >= 2 {
                    if p[0] == 0x02 && p[1] == 0x07 && p.len() >= 8 {
                        if (p[2] as usize) < BUTTONS {
                            store_image_write(&mut self.button_images, p);
                        }
                    } else if p[0] == 0x02 && p[1] == 0x10 && p.len() >= 6 {
                        let encoder_index = p[2] as usize;
                        if encoder_index < 2 {
                            self.encoder_colors[encoder_index] = (p[3], p[4], p[5]);
                        }
                    }
                }
            },
        }
        None
    }
}

impl DeviceState {
    /// Connect the child device (Device 2): when it was not connected, mark it
    /// connected and return the plug event payload to send (0x01 0x0b and the
    /// child device information); when it already was, change nothing.
    pub fn connect_device2(&mut self) -> (r: Option<Vec<u8>>)
        ensures
            old(self).device2_connected ==> r is None && *final(self) == *old(self),
            !old(self).device2_connected ==> {
                &&& r matches Some(p) && p@ == device2_info(true, true, NETWORKDOCK_PRODUCT_ID)
                &&& *final(self) == DeviceState { device2_connected: true, ..*old(self) }
            },
    {
        if self.device2_connected {
            None
        } else {
            self.device2_connected = true;
            Some(build_device2_info_payload(true, true, NETWORKDOCK_PRODUCT_ID))
        }
    }
}

} // verus!
