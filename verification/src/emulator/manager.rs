//! The manager of several emulated Stream Deck Studios: the state of each
//! device, how a device answers its clients, and the registry of devices by
//! serial number and TCP port.

use vstd::prelude::*;
use crate::emulator::report::{
    build_primary_port_info_payload, get_report_response, is_report_response, parse_get_report_request,
    primary_port_info, report_request, STUDIO_PRODUCT_ID, VENDOR_ID,
};
use crate::emulator::studio::{extend_from_range, firmware, is_brightness_report, is_keep_alive_ack, is_reset_report, utf8, BUTTONS};
use crate::protocol::cora::{CoraMessage, CoraMessageFlags, CoraHidOp};
use crate::text::{concat, string_is, string_of};

verus! {

/// The first TCP port handed to a device.
pub const BASE_PORT: u16 = 5343;

/// The state of a device of the manager.
pub struct DeviceState {
    pub serial_number: String,
    pub firmware_version: String,
    pub brightness: u8,
    /// One optional image per button (32 entries).
    pub button_images: Vec<Option<Vec<u8>>>,
    pub encoder_colors: [(u8, u8, u8); 2],
    /// Whether the child device (Device 2) is connected.
    pub device2_connected: bool,
}

impl DeviceState {
    /// Whether the state has one image slot per button.
    pub open spec fn wf(&self) -> bool {
        self.button_images@.len() == BUTTONS
    }

    /// Whether this is the state of a freshly created (or reset) device with serial number `serial`.
    pub open spec fn is_fresh(&self, serial: Seq<char>) -> bool {
        &&& self.wf()
        &&& self.serial_number@ == serial
        &&& self.firmware_version@ == firmware()
        &&& self.brightness == 100
        &&& forall|i: int| 0 <= i < BUTTONS ==> #[trigger] self.button_images@[i] is None
        &&& self.encoder_colors@ == seq![(0u8, 0u8, 0u8), (0u8, 0u8, 0u8)]
        &&& !self.device2_connected
    }

    /// The state of a new device with the given serial number.
    pub fn new(serial_number: String) -> (s: Self)
        ensures
            s.is_fresh(serial_number@),
    {
        let mut button_images: Vec<Option<Vec<u8>>> = Vec::new();
        let mut i: usize = 0;
        while i < BUTTONS
            invariant
                i <= BUTTONS,
                button_images@.len() == i,
                forall|j: int| 0 <= j < i ==> #[trigger] button_images@[j] is None,
            decreases BUTTONS - i,
        {
            button_images.push(None);
            i = i + 1;
        }
        DeviceState {
            serial_number,
            firmware_version: string_of("1.05.008"),
            brightness: 100,
            button_images,
            encoder_colors: [(0, 0, 0), (0, 0, 0)],
            device2_connected: false,
        }
    }
}

/// The answer of a managed device to a GET_REPORT request: the primary port
/// information for 0x80, nothing for 0x08 (a Studio has no secondary port),
/// the firmware version for 0x83, the serial number for 0x84, and empty data
/// for any other report.
pub open spec fn report_answer(s: DeviceState, report_id: u8) -> Option<Seq<u8>> {
    if report_id == 0x80u8 {
        Some(primary_port_info(VENDOR_ID, STUDIO_PRODUCT_ID))
    } else if report_id == 0x08u8 {
        None
    } else if report_id == 0x83u8 {
        Some(utf8(s.firmware_version@))
    } else if report_id == 0x84u8 {
        Some(utf8(s.serial_number@))
    } else {
        Some(Seq::empty())
    }
}

/// The bytes of a text.
fn text_bytes(s: &String) -> (v: Vec<u8>)
    ensures
        v@ == utf8(s@),
{
    let b = s.as_str().as_bytes();
    let mut v: Vec<u8> = Vec::new();
    extend_from_range(&mut v, b, 0, b.len());
    assert(v@ =~= utf8(s@));
    v
}

/// How a message that is neither a keep-alive acknowledgement nor a GET_REPORT
/// request changes the state: SEND_REPORT sets the brightness, or resets the
/// device keeping its serial number.
pub open spec fn command_applied(o: DeviceState, n: DeviceState, m: CoraMessage) -> bool {
    let p = m.payload@;
    if m.hid_op == CoraHidOp::SendReport && is_brightness_report(p) {
        n == DeviceState { brightness: p[2], ..o }
    } else if m.hid_op == CoraHidOp::SendReport && is_reset_report(p) {
        n.is_fresh(o.serial_number@)
    } else {
        n == o
    }
}

impl DeviceState {
    /// Handle a message from a client; returns the message to send back, if any.
    ///
    /// A keep-alive acknowledgement (ACK_NAK flags, payload 0x03 0x1a) records
    /// the client's connection number. A GET_REPORT request (by payload,
    /// whatever the operation) is answered as `report_answer` says.
    /// SEND_REPORT sets the brightness or resets the device; writes are ignored.
    pub fn handle_message(&mut self, message: &CoraMessage, connection_no: &mut u8) -> (r: Option<CoraMessage>)
        requires
            old(self).wf(),
        ensures
            final(self).wf(),
            ({
                let p = message.payload@;
                if message.flags == CoraMessageFlags::AckNak && is_keep_alive_ack(p) {
                    &&& r is None
                    &&& *final(connection_no) == p[2]
                    &&& *final(self) == *old(self)
                } else if report_request(p, message.flags) is Some {
                    let report_id = report_request(p, message.flags)->0;
                    &&& *final(connection_no) == *old(connection_no)
                    &&& *final(self) == *old(self)
                    &&& match report_answer(*old(self), report_id) {
                        Some(d) => r matches Some(m) && is_report_response(m, message.message_id, report_id, d),
                        None => r is None,
                    }
                } else {
                    &&& r is None
                    &&& *final(connection_no) == *old(connection_no)
                    &&& command_applied(*old(self), *final(self), *message)
                }
            }),
    {
        let p = &message.payload;
        if message.flags == CoraMessageFlags::AckNak && p.len() >= 3 && p[0] == 0x03 && p[1] == 0x1a {
            *connection_no = p[2];
            return None;
        }
        if let Some(report_id) = parse_get_report_request(p.as_slice(), message.flags) {
            let data = match report_id {
                0x80 => build_primary_port_info_payload(VENDOR_ID, STUDIO_PRODUCT_ID),
                0x08 => {
                    return None;
                },
                0x83 => text_bytes(&self.firmware_version),
                0x84 => text_bytes(&self.serial_number),
                _ => Vec::new(),
            };
            return Some(get_report_response(message.message_id, report_id, data.as_slice()));
        }
        if message.hid_op == CoraHidOp::SendReport && p.len() >= 2 {
            if p[0] == 0x03 && p[1] == 0x08 && p.len() >= 3 {
                self.brightness = p[2];
            } else if p[0] == 0x03 && p[1] == 0x02 {
                let serial = self.serial_number.clone();
                *self = DeviceState::new(serial);
            }
        }
        None
    }
}

/// The registry of the manager's devices: each serial number with its TCP
/// port, in the order the devices were created, and the next port to hand out.
pub struct StreamDeckManager {
    devices: Vec<(String, u16)>,
    next_port: u16,
}

/// The serial numbers and ports of registry entries.
pub open spec fn entry_views(v: Seq<(String, u16)>) -> Seq<(Seq<char>, u16)> {
    Seq::new(v.len(), |i: int| (v[i].0@, v[i].1))
}

/// Whether some entry has serial number `serial`.
pub open spec fn has_serial(e: Seq<(Seq<char>, u16)>, serial: Seq<char>) -> bool {
    exists|i: int| 0 <= i < e.len() && #[trigger] e[i].0 == serial
}

impl View for StreamDeckManager {
    type V = Seq<(Seq<char>, u16)>;

    closed spec fn view(&self) -> Seq<(Seq<char>, u16)> {
        entry_views(self.devices@)
    }
}

impl StreamDeckManager {
    /// The port the next device gets.
    pub closed spec fn next_port(&self) -> u16 {
        self.next_port
    }

    /// The registry's invariant: serial numbers and ports are unique, and every
    /// port lies between the base port and the next port.
    pub open spec fn wf(&self) -> bool {
        &&& forall|i: int, j: int| 0 <= i < j < self@.len() ==> #[trigger] self@[i].0 != #[trigger] self@[j].0
        &&& forall|i: int, j: int| 0 <= i < j < self@.len() ==> #[trigger] self@[i].1 != #[trigger] self@[j].1
        &&& forall|i: int| 0 <= i < self@.len() ==> BASE_PORT <= #[trigger] self@[i].1 < self.next_port()
        &&& BASE_PORT <= self.next_port()
    }

    /// The port the next device gets.
    pub fn next_port_number(&self) -> (p: u16)
        ensures
            p == self.next_port(),
    {
        self.next_port
    }

    /// An empty registry whose first device gets the base port.
    pub fn new() -> (m: Self)
        ensures
            m.wf(),
            m@ == Seq::<(Seq<char>, u16)>::empty(),
            m.next_port() == BASE_PORT,
    {
        let m = StreamDeckManager { devices: Vec::new(), next_port: BASE_PORT };
        assert(m@ =~= Seq::<(Seq<char>, u16)>::empty());
        m
    }

    /// The position of the device with the given serial number.
    fn position(&self, serial_number: &str) -> (r: Option<usize>)
        requires
            self.wf(),
        ensures
            match r {
                Some(i) => i < self@.len() && self@[i as int].0 == serial_number@,
                None => !has_serial(self@, serial_number@),
            },
    {
        let mut i: usize = 0;
        while i < self.devices.len()
            invariant
                i <= self.devices@.len(),
                self@ == entry_views(self.devices@),
                forall|j: int| 0 <= j < i ==> #[trigger] self@[j].0 != serial_number@,
            decreases self.devices@.len() - i,
        {
            if string_is(&self.devices[i].0, serial_number) {
                return Some(i);
            }
            i = i + 1;
        }
        None
    }

    /// Register a device with the given serial number; it gets the next port.
    /// A serial number that is already registered is refused.
    pub fn create(&mut self, serial_number: String) -> (r: Result<u16, String>)
        requires
            old(self).wf(),
            old(self).next_port() < 65535 || has_serial(old(self)@, serial_number@),
        ensures
            final(self).wf(),
            has_serial(old(self)@, serial_number@) ==> {
                &&& r matches Err(e) && e@ == "Device with serial number '"@ + serial_number@ + "' already exists"@
                &&& final(self)@ == old(self)@
                &&& final(self).next_port() == old(self).next_port()
            },
            !has_serial(old(self)@, serial_number@) ==> {
                &&& r == Ok::<u16, String>(old(self).next_port())
                &&& final(self)@ == old(self)@.push((serial_number@, old(self).next_port()))
                &&& final(self).next_port() == old(self).next_port() + 1
            },
    {
        match self.position(serial_number.as_str()) {
            Some(_) => {
                let e = concat(string_of("Device with serial number '"), serial_number.as_str());
                Err(concat(e, "' already exists"))
            },
            None => {
                let port = self.next_port;
                let ghost before = self@;
                self.devices.push((serial_number, port));
                self.next_port = port + 1;
                assert(self@ =~= before.push((self.devices@.last().0@, port)));
                Ok(port)
            },
        }
    }

    /// Remove the device with the given serial number; the others keep their
    /// order. An unknown serial number is refused.
    pub fn delete(&mut self, serial_number: &str) -> (r: Result<(), String>)
        requires
            old(self).wf(),
        ensures
            final(self).wf(),
            final(self).next_port() == old(self).next_port(),
            !has_serial(old(self)@, serial_number@) ==> {
                &&& r matches Err(e) && e@ == "Device with serial number '"@ + serial_number@ + "' not found"@
                &&& final(self)@ == old(self)@
            },
            has_serial(old(self)@, serial_number@) ==> {
                &&& r is Ok
                &&& exists|i: int| 0 <= i < old(self)@.len() && old(self)@[i].0 == serial_number@
                    && final(self)@ == old(self)@.remove(i)
            },
    {
        match self.position(serial_number) {
            Some(i) => {
                let ghost before = self@;
                self.devices.remove(i);
                assert(self@ =~= before.remove(i as int));
                Ok(())
            },
            None => {
                let e = concat(string_of("Device with serial number '"), serial_number);
                Err(concat(e, "' not found"))
            },
        }
    }

    /// The serial numbers and ports of all devices, in the order they were created.
    pub fn list(&self) -> (r: Vec<(String, u16)>)
        requires
            self.wf(),
        ensures
            entry_views(r@) == self@,
    {
        let mut r: Vec<(String, u16)> = Vec::new();
        let mut i: usize = 0;
        while i < self.devices.len()
            invariant
                i <= self.devices@.len(),
                self@ == entry_views(self.devices@),
                entry_views(r@) == self@.take(i as int),
            decreases self.devices@.len() - i,
        {
            let serial = self.devices[i].0.clone();
            let ghost prev = r@;
            r.push((serial, self.devices[i].1));
            assert(r@ == prev.push((serial, self.devices@[i as int].1)));
            assert(entry_views(prev).len() == prev.len());
            assert(entry_views(r@)[i as int] == self@[i as int]);
            i = i + 1;
            assert(entry_views(r@) =~= self@.take(i as int));
        }
        assert(self@.take(i as int) =~= self@);
        r
    }

    /// The port of the device with the given serial number; an unknown serial
    /// number is refused (the control command then goes nowhere).
    pub fn send_control(&self, serial_number: &str) -> (r: Result<u16, String>)
        requires
            self.wf(),
        ensures
            !has_serial(self@, serial_number@) ==> (r matches Err(e) && e@ == "Device with serial number '"@
                + serial_number@ + "' not found"@),
            has_serial(self@, serial_number@) ==> (r matches Ok(p) && exists|i: int|
                0 <= i < self@.len() && #[trigger] self@[i] == (serial_number@, p)),
    {
        match self.position(serial_number) {
            Some(i) => Ok(self.devices[i].1),
            None => {
                let e = concat(string_of("Device with serial number '"), serial_number);
                Err(concat(e, "' not found"))
            },
        }
    }
}

/// Control commands for a device that was just created go to the port it
/// was given: in a well-formed registry that ends with the new entry, the
/// entry found for its serial number carries that port.
pub proof fn lemma_lookup_after_create(m: StreamDeckManager, before: Seq<(Seq<char>, u16)>, serial: Seq<char>, port: u16, found: u16)
    requires
        m.wf(),
        m@ == before.push((serial, port)),
        exists|i: int| 0 <= i < m@.len() && #[trigger] m@[i] == (serial, found),
    ensures
        found == port,
        has_serial(m@, serial),
{
    let i = choose|i: int| 0 <= i < m@.len() && #[trigger] m@[i] == (serial, found);
    let last = m@.len() - 1;
    assert(m@[last] == (serial, port));
    if i != last {
        assert(m@[i].0 != m@[last].0);
    }
    assert(m@[last].0 == serial);
}

/// After a device is deleted no entry has its serial number, so the serial
/// number can be created again.
pub proof fn lemma_deleted_is_gone(m: StreamDeckManager, serial: Seq<char>, i: int)
    requires
        m.wf(),
        0 <= i < m@.len(),
        m@[i].0 == serial,
    ensures
        !has_serial(m@.remove(i), serial),
{
    let after = m@.remove(i);
    assert forall|j: int| 0 <= j < after.len() implies #[trigger] after[j].0 != serial by {
        if j < i {
            assert(after[j] == m@[j]);
        } else {
            assert(after[j] == m@[j + 1]);
        }
    }
}

} // verus!
