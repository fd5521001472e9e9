//! The emulated Stream Deck Studio: its state, the reports it answers and how
//! it handles the messages of its clients.

use vstd::prelude::*;
use crate::emulator::payload::zeros;
use crate::emulator::command::{Command, ControlCommand};
use crate::emulator::report::{
    build_device2_info_payload, build_primary_port_info_payload, device2_info, get_report_response, is_report_response,
    parse_get_report_request, primary_port_info, report_request, STUDIO_PRODUCT_ID, VENDOR_ID,
};
use crate::protocol::cora::{CoraMessage, CoraHidOp};
use crate::protocol::packet::le16;
use crate::text::{hex8, push_hex8, string_of};

verus! {

/// Number of buttons of the Studio.
pub const BUTTONS: usize = 32;

/// The state of an emulated Stream Deck Studio.
pub struct DeviceState {
    pub serial_number: String,
    pub firmware_version: String,
    pub brightness: u8,
    /// One optional image per button (32 entries).
    pub button_images: Vec<Option<Vec<u8>>>,
    pub encoder_colors: [(u8, u8, u8); 2],
    /// Whether the child device (Device 2) is connected.
    pub device2_connected: bool,
    /// Button states (true = pressed).
    pub button_states: [bool; 32],
}

/// The stored images, by view.
pub open spec fn images_view(v: Seq<Option<Vec<u8>>>) -> Seq<Option<Seq<u8>>> {
    Seq::new(v.len(), |i: int| match v[i] {
        Some(b) => Some(b@),
        None => None,
    })
}

/// The UTF-8 bytes of a text.
pub open spec fn utf8(s: Seq<char>) -> Seq<u8> {
    vstd::utf8::encode_utf8(s)
}

/// The firmware version the emulator reports.
pub open spec fn firmware() -> Seq<char> {
    "1.05.008"@
}

/// The serial number of a freshly started Studio emulator at time `now_secs`:
/// `EMULATOR_STUDIO_` and eight hex digits of the seconds modulo 10000.
pub open spec fn default_serial(now_secs: u64) -> Seq<char> {
    "EMULATOR_STUDIO_"@ + hex8((now_secs % 10000) as u32)
}

impl DeviceState {
    /// Whether the state has one image slot per button.
    pub open spec fn wf(&self) -> bool {
        self.button_images@.len() == BUTTONS
    }

    /// Whether this is the state of a freshly started (or reset) emulator at time `now_secs`.
    pub open spec fn is_fresh(&self, now_secs: u64) -> bool {
        &&& self.wf()
        &&& self.serial_number@ == default_serial(now_secs)
        &&& self.firmware_version@ == firmware()
        &&& self.brightness == 100
        &&& forall|i: int| 0 <= i < BUTTONS ==> #[trigger] self.button_images@[i] is None
        &&& self.encoder_colors@ == seq![(0u8, 0u8, 0u8), (0u8, 0u8, 0u8)]
        &&& !self.device2_connected
        &&& forall|i: int| 0 <= i < BUTTONS ==> !#[trigger] self.button_states@[i]
    }

    /// The state of a freshly started emulator at time `now_secs` (seconds since the Unix epoch).
    pub fn new_default(now_secs: u64) -> (s: Self)
        ensures
            s.is_fresh(now_secs),
    {
        let random_part = (now_secs % 10000) as u32;
        let mut serial_number = string_of("EMULATOR_STUDIO_");
        push_hex8(&mut serial_number, random_part);
        let mut button_images: Vec<Option<Vec<u8>>> = Vec::new();
        let mut i: usize = 0;
        while i < BUTTONS
            invariant
                i <= BUTTONS,
                button_images@.len() == i,
                forall|j: int| 0 <= j < i ==> #[trigger] button_images@[j] is None,
            decreases BUTTONS - i,
        {
            button_images.push(None);
            i = i + 1;
        }
        DeviceState {
            serial_number,
            firmware_version: string_of("1.05.008"),
            brightness: 100,
            button_images,
            encoder_colors: [(0, 0, 0), (0, 0, 0)],
            device2_connected: false,
            button_states: [false; 32],
        }
    }
}

/// The first (at most 8) bytes of the firmware version.
pub open spec fn fw8(fw: Seq<u8>) -> Seq<u8> {
    if fw.len() < 8 { fw } else { fw.take(8) }
}

/// Report 0x83 data: the version bytes at offset 2, then again at offset 4 (over the first copy).
pub open spec fn ap2_firmware_data(fw: Seq<u8>) -> Seq<u8> {
    let v = fw8(fw);
    Seq::new(16, |i: int| if 4 <= i < 4 + v.len() { v[i - 4] } else if 2 <= i < 2 + v.len() { v[i - 2] } else { 0u8 })
}

/// Reports 0x86 and 0x8a data: the version bytes at offset 0, then 0x18 at offset 1.
pub open spec fn encoder_firmware_data(fw: Seq<u8>) -> Seq<u8> {
    let v = fw8(fw);
    Seq::new(32, |i: int| if i == 1 { 0x18u8 } else if i < v.len() { v[i] } else { 0u8 })
}

/// Report 0x87 data: 0x01 0x00 32 0x00, then one state byte per button.
pub open spec fn button_state_data(states: Seq<bool>) -> Seq<u8> {
    Seq::new(36, |i: int| if i == 0 { 0x01u8 } else if i == 2 { 32u8 } else if i >= 4 && states[i - 4] { 1u8 } else { 0u8 })
}

/// The placeholder MAC address.
pub open spec fn mac_address() -> Seq<u8> {
    seq![0x00u8, 0x1au8, 0x2bu8, 0x3cu8, 0x4du8, 0x5eu8]
}

/// The data the Studio emulator answers a GET_REPORT with, if it answers. A
/// Studio is a primary-port device: it answers the primary port information
/// request (0x80) and not the secondary one (0x08).
pub open spec fn report_data(s: DeviceState, report_id: u8) -> Option<Seq<u8>> {
    if report_id == 0x80u8 {
        Some(primary_port_info(VENDOR_ID, STUDIO_PRODUCT_ID))
    } else if report_id == 0x83u8 {
        Some(ap2_firmware_data(utf8(s.firmware_version@)))
    } else if report_id == 0x86u8 || report_id == 0x8au8 {
        Some(encoder_firmware_data(utf8(s.firmware_version@)))
    } else if report_id == 0x84u8 {
        Some(utf8(s.serial_number@))
    } else if report_id == 0x85u8 {
        Some(mac_address())
    } else if report_id == 0x1cu8 {
        Some(device2_info(s.device2_connected, false, STUDIO_PRODUCT_ID))
    } else if report_id == 0x87u8 {
        Some(button_state_data(s.button_states@))
    } else if report_id == 0x8fu8 {
        Some(seq![0u8, 0u8, 0u8, 0u8])
    } else if report_id == 0x1au8 {
        Some(Seq::empty())
    } else {
        None
    }
}

/// Copy `src[from..to]` onto the end of `dst`.
pub fn extend_from_range(dst: &mut Vec<u8>, src: &[u8], from: usize, to: usize)
    requires
        from <= to <= src@.len(),
    ensures
        final(dst)@ == old(dst)@ + src@.subrange(from as int, to as int),
{
    let ghost start = dst@;
    let mut i = from;
    while i < to
        invariant
            from <= i <= to <= src@.len(),
            dst@ == start + src@.subrange(from as int, i as int),
        decreases to - i,
    {
        dst.push(src[i]);
        i = i + 1;
        assert(dst@ =~= start + src@.subrange(from as int, i as int));
    }
}

/// The version bytes data of report 0x83.
fn ap2_firmware_bytes(fw: &[u8]) -> (d: Vec<u8>)
    ensures
        d@ == ap2_firmware_data(fw@),
{
    let n = if fw.len() < 8 { fw.len() } else { 8 };
    let mut d = zeros(16);
    let mut i: usize = 0;
    while i < n
        invariant
            i <= n <= 8,
            n as int == fw8(fw@).len(),
            n <= fw@.len(),
            d@.len() == 16,
            forall|j: int| 0 <= j < 16 ==> #[trigger] d@[j] == (if 2 <= j < 2 + i { fw@[j - 2] } else { 0u8 }),
        decreases n - i,
    {
        d.set(2 + i, fw[i]);
        i = i + 1;
    }
    let ghost mid = d@;
    let mut k: usize = 0;
    while k < n
        invariant
            k <= n <= 8,
            n as int == fw8(fw@).len(),
            n <= fw@.len(),
            d@.len() == 16,
            forall|j: int| 0 <= j < 16 ==> #[trigger] d@[j] == (if 4 <= j < 4 + k { fw@[j - 4] } else { mid[j] }),
        decreases n - k,
    {
        d.set(4 + k, fw[k]);
        k = k + 1;
    }
    assert(d@ =~= ap2_firmware_data(fw@));
    d
}

/// The version bytes data of reports 0x86 and 0x8a.
fn encoder_firmware_bytes(fw: &[u8]) -> (d: Vec<u8>)
    ensures
        d@ == encoder_firmware_data(fw@),
{
    let n = if fw.len() < 8 { fw.len() } else { 8 };
    let mut d = zeros(32);
    let mut i: usize = 0;
    while i < n
        invariant
            i <= n <= 8,
            n as int == fw8(fw@).len(),
            n <= fw@.len(),
            d@.len() == 32,
            forall|j: int| 0 <= j < 32 ==> #[trigger] d@[j] == (if j < i { fw@[j] } else { 0u8 }),
        decreases n - i,
    {
        d.set(i, fw[i]);
        i = i + 1;
    }
    d.set(1, 0x18);
    assert(d@ =~= encoder_firmware_data(fw@));
    d
}

impl DeviceState {
    /// The data the emulator answers GET_REPORT `report_id` with, if it answers it.
    pub fn get_report_data(&self, report_id: u8) -> (r: Option<Vec<u8>>)
        ensures
            match report_data(*self, report_id) {
                Some(d) => r matches Some(v) && v@ == d,
                None => r is None,
            },
    {
        match report_id {
            0x80 => Some(build_primary_port_info_payload(VENDOR_ID, STUDIO_PRODUCT_ID)),
            0x83 => Some(ap2_firmware_bytes(self.firmware_version.as_str().as_bytes())),
            0x86 | 0x8a => Some(encoder_firmware_bytes(self.firmware_version.as_str().as_bytes())),
            0x84 => {
                let b = self.serial_number.as_str().as_bytes();
                let mut v: Vec<u8> = Vec::new();
                extend_from_range(&mut v, b, 0, b.len());
                assert(v@ =~= utf8(self.serial_number@));
                Some(v)
            },
            0x85 => {
                let mut v: Vec<u8> = Vec::new();
                v.push(0x00);
                v.push(0x1A);
                v.push(0x2B);
                v.push(0x3C);
                v.push(0x4D);
                v.push(0x5E);
                assert(v@ =~= mac_address());
                Some(v)
            },
            0x1c => Some(build_device2_info_payload(self.device2_connected, false, STUDIO_PRODUCT_ID)),
            0x87 => {
                let mut v = zeros(36);
                v.set(0, 0x01);
                v.set(1, 0x00);
                v.set(2, 32);
                v.set(3, 0x00);
                let mut i: usize = 0;
                while i < BUTTONS
                    invariant
                        i <= 32,
                        v@.len() == 36,
                        forall|j: int| 0 <= j < 36 ==> #[trigger] v@[j] == (if j == 0 { 0x01u8 } else if j == 2 {
                            32u8
                        } else if 4 <= j < 4 + i && self.button_states@[j - 4] {
                            1u8
                        } else {
                            0u8
                        }),
                    decreases 32 - i,
                {
                    v.set(4 + i, if self.button_states[i] { 1 } else { 0 });
                    i = i + 1;
                }
                assert(v@ =~= button_state_data(self.button_states@));
                Some(v)
            },
            0x8f => {
                let v = zeros(4);
                assert(v@ =~= seq![0u8, 0u8, 0u8, 0u8]);
                Some(v)
            },
            0x1a => Some(Vec::new()),
            _ => None,
        }
    }
}

/// Whether a payload acknowledges a keep-alive request (0x03 0x1a and a connection number).
pub open spec fn is_keep_alive_ack(p: Seq<u8>) -> bool {
    p.len() >= 3 && p[0] == 0x03u8 && p[1] == 0x1au8
}

/// The image bytes that a button image write carries: from offset 8, as many as
/// its length field says, within the payload.
pub open spec fn written_image_bytes(p: Seq<u8>) -> Seq<u8> {
    let end = 8 + le16(p[4], p[5]) as int;
    p.subrange(8, if end < p.len() { end } else { p.len() as int })
}

/// The stored images after a button image write `p` (a write to an unknown
/// image that does not start at page 0 is dropped).
pub open spec fn images_after_write(images: Seq<Option<Seq<u8>>>, p: Seq<u8>) -> Seq<Option<Seq<u8>>> {
    let idx = p[2] as int;
    let data = written_image_bytes(p);
    if le16(p[6], p[7]) == 0 {
        images.update(idx, Some(data))
    } else {
        match images[idx] {
            Some(b) => images.update(idx, Some(b + data)),
            None => images,
        }
    }
}

/// Whether a payload is a button image write for a known button.
pub open spec fn is_image_write(p: Seq<u8>) -> bool {
    p.len() >= 8 && p[0] == 0x02u8 && p[1] == 0x07u8 && p[2] < 32
}

/// Whether a payload sets the color of a known encoder.
pub open spec fn is_color_write(p: Seq<u8>) -> bool {
    p.len() >= 6 && p[0] == 0x02u8 && p[1] == 0x10u8 && p[2] < 2
}

/// Whether a payload sets the brightness.
pub open spec fn is_brightness_report(p: Seq<u8>) -> bool {
    p.len() >= 3 && p[0] == 0x03u8 && p[1] == 0x08u8
}

/// Whether a payload resets the device.
pub open spec fn is_reset_report(p: Seq<u8>) -> bool {
    p.len() >= 2 && p[0] == 0x03u8 && p[1] == 0x02u8
}

/// Whether `n` is `o` with only the brightness changed to `b`.
pub open spec fn with_brightness(o: DeviceState, n: DeviceState, b: u8) -> bool {
    n == DeviceState { brightness: b, ..o }
}

/// How a message that is neither a keep-alive acknowledgement nor a GET_REPORT
/// request changes the state.
pub open spec fn command_applied(o: DeviceState, n: DeviceState, m: CoraMessage, now_secs: u64) -> bool {
    let p = m.payload@;
    if m.hid_op == CoraHidOp::SendReport && is_brightness_report(p) {
        with_brightness(o, n, p[2])
    } else if m.hid_op == CoraHidOp::SendReport && is_reset_report(p) {
        n.is_fresh(now_secs)
    } else if m.hid_op == CoraHidOp::Write && is_image_write(p) {
        &&& images_view(n.button_images@) == images_after_write(images_view(o.button_images@), p)
        &&& n.serial_number == o.serial_number
        &&& n.firmware_version == o.firmware_version
        &&& n.brightness == o.brightness
        &&& n.encoder_colors == o.encoder_colors
        &&& n.device2_connected == o.device2_connected
        &&& n.button_states == o.button_states
    } else if m.hid_op == CoraHidOp::Write && is_color_write(p) {
        &&& n.encoder_colors@ == o.encoder_colors@.update(p[2] as int, (p[3], p[4], p[5]))
        &&& n.serial_number == o.serial_number
        &&& n.firmware_version == o.firmware_version
        &&& n.brightness == o.brightness
        &&& n.button_images == o.button_images
        &&& n.device2_connected == o.device2_connected
        &&& n.button_states == o.button_states
    } else {
        n == o
    }
}

/// The answer to a GET_REPORT request for `report_id`: nothing for 0x1a, the
/// report data for the reports the emulator knows, nothing for the others.
pub open spec fn report_answer(s: DeviceState, report_id: u8) -> Option<Seq<u8>> {
    if report_id == 0x1au8 { None } else { report_data(s, report_id) }
}

/// Copy of the bytes of an image.
fn image_copy(b: &Vec<u8>) -> (c: Vec<u8>)
    ensures
        c@ == b@,
{
    let mut c: Vec<u8> = Vec::new();
    extend_from_range(&mut c, b.as_slice(), 0, b.len());
    assert(c@ =~= b@);
    c
}

/// Store the image bytes of a button image write.
pub fn store_image_write(images: &mut Vec<Option<Vec<u8>>>, p: &Vec<u8>)
    requires
        old(images)@.len() == BUTTONS,
        is_image_write(p@),
    ensures
        final(images)@.len() == BUTTONS,
        images_view(final(images)@) == images_after_write(images_view(old(images)@), p@),
{
    let idx = p[2] as usize;
    let data_len = (p[4] as u16 + 256 * p[5] as u16) as usize;
    let page = p[6] as u16 + 256 * p[7] as u16;
    let end = if 8 + data_len < p.len() { 8 + data_len } else { p.len() };
    let ghost before = images_view(images@);
    if page == 0 {
        let mut data: Vec<u8> = Vec::new();
        extend_from_range(&mut data, p.as_slice(), 8, end);
        assert(data@ =~= written_image_bytes(p@));
        images.set(idx, Some(data));
        assert(images_view(images@) =~= images_after_write(before, p@));
    } else {
        let grown = match &images[idx] {
            Some(b) => {
                let mut c = image_copy(b);
                extend_from_range(&mut c, p.as_slice(), 8, end);
                assert(c@ =~= b@ + written_image_bytes(p@));
                Some(c)
            },
            None => None,
        };
        match grown {
            Some(c) => {
                images.set(idx, Some(c));
                assert(images_view(images@) =~= images_after_write(before, p@));
            },
            None => {
                assert(images_view(images@) =~= images_after_write(before, p@));
            },
        }
    }
}

impl DeviceState {
    /// Handle a message from a client at time `now_secs`; returns the message
    /// to send back, if any.
    ///
    /// A keep-alive acknowledgement (any flags) records the client's connection
    /// number. A GET_REPORT request (by payload, whatever the operation) is
    /// answered with its report; report 0x1a and unknown reports get no answer.
    /// SEND_REPORT sets the brightness or resets the device; WRITE stores button
    /// images and encoder colors. Everything else is ignored.
    pub fn handle_message(&mut self, message: &CoraMessage, connection_no: &mut u8, now_secs: u64) -> (r: Option<CoraMessage>)
        requires
            old(self).wf(),
        ensures
            final(self).wf(),
            ({
                let p = message.payload@;
                if is_keep_alive_ack(p) {
                    &&& r is None
                    &&& *final(connection_no) == p[2]
                    &&& *final(self) == *old(self)
                } else if report_request(p, message.flags) is Some {
                    let report_id = report_request(p, message.flags)->0;
                    &&& *final(connection_no) == *old(connection_no)
                    &&& *final(self) == *old(self)
                    &&& match report_answer(*old(self), report_id) {
                        Some(d) => r matches Some(m) && is_report_response(m, message.message_id, report_id, d),
                        None => r is None,
                    }
                } else {
                    &&& r is None
                    &&& *final(connection_no) == *old(connection_no)
                    &&& command_applied(*old(self), *final(self), *message, now_secs)
                }
            }),
    {
        let p = &message.payload;
        if p.len() >= 3 && p[0] == 0x03 && p[1] == 0x1a {
            *connection_no = p[2];
            return None;
        }
        if let Some(report_id) = parse_get_report_request(p.as_slice(), message.flags) {
            if report_id == 0x1a {
                return None;
            }
            return match self.get_report_data(report_id) {
                Some(data) => Some(get_report_response(message.message_id, report_id, data.as_slice())),
                None => None,
            };
        }
        match message.hid_op {
            CoraHidOp::GetReport => {},
            CoraHidOp::SendReport => {
                if p.len() >= 2 {
                    if p[0] == 0x03 && p[1] == 0x08 && p.len() >= 3 {
                        self.brightness = p[2];
                    } else if p[0] == 0x03 && p[1] == 0x02 {
                        *self = DeviceState::new_default(now_secs);
                    }
                }
            },
            CoraHidOp::Write => {
                if p.len() >= 2 {
                    if p[0] == 0x02 && p[1] == 0x07 && p.len() >= 8 {
                        if (p[2] as usize) < BUTTONS {
                            store_image_write(&mut self.button_images, p);
                        }
                    } else if p[0] == 0x02 && p[1] == 0x10 && p.len() >= 6 {
                        let encoder_index = p[2] as usize;
                        if encoder_index < 2 {
                            self.encoder_colors[encoder_index] = (p[3], p[4], p[5]);
                        }
                    }
                }
            },
        }
        None
    }
}

/// Whether a console command names only buttons that exist.
pub open spec fn buttons_in_range(command: Command) -> bool {
    match command {
        Command::Control(ControlCommand::ButtonPress(i)) => i < 32,
        Command::Control(ControlCommand::ButtonRelease(i)) => i < 32,
        _ => true,
    }
}

/// Whether a console command names only buttons that exist.
pub fn names_existing_buttons(command: &Command) -> (r: bool)
    ensures
        r == buttons_in_range(*command),
{
    match *command {
        Command::Control(ControlCommand::ButtonPress(i)) => i < 32,
        Command::Control(ControlCommand::ButtonRelease(i)) => i < 32,
        _ => true,
    }
}

impl DeviceState {
    /// Record the effect of a console command on the state and say whether the
    /// console quits: a button press or release sets that button's state (which
    /// report 0x87 then reports); `quit` ends the console.
    pub fn execute_command(&mut self, command: &Command) -> (quit: bool)
        requires
            buttons_in_range(*command),
        ensures
            quit == (*command is Quit),
            match *command {
                Command::Control(ControlCommand::ButtonPress(i)) => *final(self) == DeviceState {
                    button_states: final(self).button_states,
                    ..*old(self)
                } && final(self).button_states@ == old(self).button_states@.update(i as int, true),
                Command::Control(ControlCommand::ButtonRelease(i)) => *final(self) == DeviceState {
                    button_states: final(self).button_states,
                    ..*old(self)
                } && final(self).button_states@ == old(self).button_states@.update(i as int, false),
                _ => *final(self) == *old(self),
            },
    {
        match *command {
            Command::Control(ControlCommand::ButtonPress(i)) => {
                self.button_states[i as usize] = true;
                false
            },
            Command::Control(ControlCommand::ButtonRelease(i)) => {
                self.button_states[i as usize] = false;
                false
            },
            Command::Control(_) => false,
            Command::Help => false,
            Command::Quit => true,
        }
    }
}

impl DeviceState {
    /// Connect the child device (Device 2): when it was not connected, mark it
    /// connected and return the plug event payload to send (0x01 0x0b and the
    /// child device information); when it already was, change nothing.
    pub fn connect_device2(&mut self) -> (r: Option<Vec<u8>>)
        ensures
            old(self).device2_connected ==> r is None && *final(self) == *old(self),
            !old(self).device2_connected ==> {
                &&& r matches Some(p) && p@ == device2_info(true, true, STUDIO_PRODUCT_ID)
                &&& *final(self) == DeviceState { device2_connected: true, ..*old(self) }
            },
    {
        if self.device2_connected {
            None
        } else {
            self.device2_connected = true;
            Some(build_device2_info_payload(true, true, STUDIO_PRODUCT_ID))
        }
    }
}

} // verus!
