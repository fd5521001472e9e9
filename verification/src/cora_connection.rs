//! Cora protocol connection: handshake, keep-alive answers, message ids,
//! command framing and reassembly of received messages.

use vstd::prelude::*;
use vstd::slice::slice_subrange;
use crate::error::{Error, from_core_spec};
use crate::protocol::cora::{
    CoraMessage, CoraMessageFlags, CoraHidOp, CORA_HEADER_SIZE, find_magic, first_magic, announced_length,
    lemma_first_magic_from,
    decode_error, decoded_message, keep_alive_payload,
};
use crate::protocol::packet::be16;
use crate::text::{from_utf8_lossy, utf8_lossy, string_of};

verus! {

/// Length of the keep-alive acknowledgement payload.
pub const ACK_PAYLOAD_SIZE: usize = 32;

/// The acknowledgement payload: 0x03 0x1a, the connection number, then zeros.
pub open spec fn ack_payload(connection_no: u8) -> Seq<u8> {
    Seq::new(32, |i: int| if i == 0 { 0x03u8 } else if i == 1 { 0x1au8 } else if i == 2 { connection_no } else { 0u8 })
}

/// The connection number that a keep-alive request carries, 0 when it carries none.
pub open spec fn request_connection_no(m: CoraMessage) -> u8 {
    if keep_alive_payload(m.payload@) && m.payload@.len() > 5 { m.payload@[5] } else { 0u8 }
}

/// Whether `ack` acknowledges the keep-alive request `m`.
pub open spec fn acknowledges(m: CoraMessage, ack: CoraMessage) -> bool {
    &&& ack.flags == CoraMessageFlags::AckNak
    &&& ack.hid_op == m.hid_op
    &&& ack.message_id == m.message_id
    &&& ack.payload@ == ack_payload(request_connection_no(m))
}

/// The acknowledgement of a keep-alive request.
fn keep_alive_ack(message: &CoraMessage) -> (ack: CoraMessage)
    ensures
        acknowledges(*message, ack),
{
    let connection_no = match message.keep_alive_connection_no() {
        Some(n) => n,
        None => 0,
    };
    let mut payload: Vec<u8> = Vec::new();
    let mut i: usize = 0;
    while i < ACK_PAYLOAD_SIZE
        invariant
            i <= 32,
            payload@ == ack_payload(connection_no).take(i as int),
        decreases 32 - i,
    {
        let b = if i == 0 { 0x03 } else if i == 1 { 0x1a } else if i == 2 { connection_no } else { 0 };
        payload.push(b);
        i = i + 1;
        assert(payload@ =~= ack_payload(connection_no).take(i as int));
    }
    assert(ack_payload(connection_no).take(32) =~= ack_payload(connection_no));
    CoraMessage::new(CoraMessageFlags::AckNak, message.hid_op, message.message_id, payload)
}

/// The answer to the first message of a connection, which must be a keep-alive request.
pub fn initial_keep_alive_reply(message: &CoraMessage) -> (r: Result<CoraMessage, Error>)
    ensures
        keep_alive_payload(message.payload@) ==> (r matches Ok(ack) && acknowledges(*message, ack)),
        !keep_alive_payload(message.payload@) ==> (r matches Err(Error::Protocol(s))
            && s@ == "Expected keep-alive packet as first message"@),
{
    if message.is_keep_alive() {
        Ok(keep_alive_ack(message))
    } else {
        Err(Error::Protocol(string_of("Expected keep-alive packet as first message")))
    }
}

/// The answer to a received message: an acknowledgement when it is a keep-alive request.
pub fn keep_alive_reply(message: &CoraMessage) -> (r: Option<CoraMessage>)
    ensures
        keep_alive_payload(message.payload@) ==> (r matches Some(ack) && acknowledges(*message, ack)),
        !keep_alive_payload(message.payload@) ==> r is None,
{
    if message.is_keep_alive() {
        Some(keep_alive_ack(message))
    } else {
        None
    }
}

/// The message id after `current` (ids start at 1 and count up).
pub fn next_message_id(current: u32) -> (r: u32)
    requires
        current < u32::MAX,
    ensures
        r == current + 1,
{
    current + 1
}

/// The GET_REPORT request for the serial number (report 0x84 on the primary port).
pub fn serial_request(message_id: u32) -> (m: CoraMessage)
    ensures
        m.flags == CoraMessageFlags::NoFlags,
        m.hid_op == CoraHidOp::GetReport,
        m.message_id == message_id,
        m.payload@ == seq![0x03u8, 0x84u8],
{
    let mut payload: Vec<u8> = Vec::new();
    payload.push(0x03);
    payload.push(0x84);
    assert(payload@ =~= seq![0x03u8, 0x84u8]);
    CoraMessage::new(CoraMessageFlags::NoFlags, CoraHidOp::GetReport, message_id, payload)
}

/// The serial number bytes of a message that answers the serial number request.
pub open spec fn cora_serial_bytes(m: CoraMessage) -> Option<Seq<u8>> {
    let p = m.payload@;
    if m.hid_op == CoraHidOp::GetReport && (m.flags == CoraMessageFlags::Result || m.flags
        == CoraMessageFlags::NoFlags) && p.len() >= 4 && p[0] == 0x03u8 && p[1] == 0x84u8 {
        let length = be16(p[2], p[3]) as int;
        if p.len() >= 4 + length && length > 0 {
            Some(p.subrange(4, 4 + length))
        } else {
            None
        }
    } else {
        None
    }
}

/// The serial number a received message answers with, if it answers the
/// serial number request; the bytes are decoded as (lossy) UTF-8.
pub fn serial_from_cora_response(response: &CoraMessage) -> (r: Option<String>)
    ensures
        match cora_serial_bytes(*response) {
            Some(b) => r matches Some(s) && s@ == utf8_lossy(b),
            None => r is None,
        },
{
    let p = &response.payload;
    let op_ok = match response.hid_op {
        CoraHidOp::GetReport => true,
        _ => false,
    };
    let flags_ok = match response.flags {
        CoraMessageFlags::Result | CoraMessageFlags::NoFlags => true,
        _ => false,
    };
    if op_ok && flags_ok && p.len() >= 2 && p[0] == 0x03 && p[1] == 0x84 {
        if p.len() >= 4 {
            let length = (p[3] as u16 + 256 * p[2] as u16) as usize;
            if p.len() - 4 >= length && length > 0 {
                let bytes = slice_subrange(p.as_slice(), 4, 4 + length);
                return Some(from_utf8_lossy(bytes));
            }
        }
    }
    None
}

/// The message that carries a command payload: feature reports (0x03 prefix,
/// at least two bytes) go as SEND_REPORT, everything else as WRITE.
pub fn command_payload_message(payload: Vec<u8>, message_id: u32) -> (m: CoraMessage)
    ensures
        m.flags == CoraMessageFlags::NoFlags,
        m.hid_op == (if payload@.len() >= 2 && payload@[0] == 0x03u8 {
            CoraHidOp::SendReport
        } else {
            CoraHidOp::Write
        }),
        m.message_id == message_id,
        m.payload == payload,
{
    let hid_op = if payload.len() >= 2 && payload[0] == 0x03 {
        CoraHidOp::SendReport
    } else {
        CoraHidOp::Write
    };
    CoraMessage::new(CoraMessageFlags::NoFlags, hid_op, message_id, payload)
}

/// The receive buffer after dropping what precedes the first magic bytes
/// (or, when there are none, all but the last three bytes).
pub open spec fn resynced(b: Seq<u8>) -> Seq<u8> {
    if b.len() < 4 {
        b
    } else {
        match first_magic(b) {
            Some(pos) => b.skip(pos),
            None => b.skip(b.len() - 3),
        }
    }
}

/// Drop what precedes the first magic bytes of the receive buffer; when it
/// holds none, keep only its last three bytes (a magic may be split across reads).
pub fn resync_receive_buffer(buffer: &mut Vec<u8>)
    ensures
        final(buffer)@ == resynced(old(buffer)@),
{
    proof {
        lemma_first_magic_from(old(buffer)@, 0);
    }
    if buffer.len() >= 4 {
        match find_magic(buffer.as_slice()) {
            Some(pos) => {
                drop_front(buffer, pos);
            },
            None => {
                let n = buffer.len() - 3;
                drop_front(buffer, n);
            },
        }
    }
}

/// Remove the first `n` bytes.
pub fn drop_front(buffer: &mut Vec<u8>, n: usize)
    requires
        n <= old(buffer)@.len(),
    ensures
        final(buffer)@ == old(buffer)@.skip(n as int),
{
    let ghost orig = buffer@;
    let mut kept: Vec<u8> = Vec::new();
    let mut i = n;
    while i < buffer.len()
        invariant
            n <= i <= orig.len(),
            buffer@ == orig,
            kept@ == orig.subrange(n as int, i as int),
        decreases orig.len() - i,
    {
        kept.push(buffer[i]);
        i = i + 1;
        assert(kept@ =~= orig.subrange(n as int, i as int));
    }
    assert(kept@ =~= orig.skip(n as int));
    *buffer = kept;
}

/// Number of bytes the message at the start of a buffer (holding at least a header) needs.
pub fn frame_length(buffer: &[u8]) -> (n: u64)
    requires
        buffer@.len() >= CORA_HEADER_SIZE,
    ensures
        n == CORA_HEADER_SIZE + announced_length(buffer@),
{
    let plen = buffer[12] as u64 + 256 * buffer[13] as u64 + 65536 * buffer[14] as u64 + 16777216 * buffer[15] as u64;
    16 + plen
}

/// Whether the receive buffer holds a whole message at its start: a header and
/// the payload that the header announces.
pub open spec fn holds_frame(b: Seq<u8>) -> bool {
    b.len() >= CORA_HEADER_SIZE && b.len() >= CORA_HEADER_SIZE + announced_length(b)
}

/// The receive buffer after appending `chunks`, as they are read, until it
/// holds a whole message (or the chunks run out), and how many chunks that took.
pub open spec fn filled(b: Seq<u8>, chunks: Seq<Seq<u8>>) -> (Seq<u8>, nat)
    decreases chunks.len(),
{
    if holds_frame(b) || chunks.len() == 0 {
        (b, 0)
    } else {
        let next = filled(b + chunks[0], chunks.drop_first());
        (next.0, next.1 + 1)
    }
}

/// Whether the receive buffer holds a whole message at its start; reading
/// goes on until it does.
pub fn frame_ready(buffer: &[u8]) -> (r: bool)
    ensures
        r == holds_frame(buffer@),
{
    buffer.len() >= CORA_HEADER_SIZE && (buffer.len() as u64) >= frame_length(buffer)
}

/// Decode the message at the start of the receive buffer and remove its bytes;
/// a buffer that does not start with a valid message is left as it is.
pub fn take_message(buffer: &mut Vec<u8>) -> (r: Result<CoraMessage, Error>)
    requires
        old(buffer)@.len() >= CORA_HEADER_SIZE,
        old(buffer)@.len() >= CORA_HEADER_SIZE + announced_length(old(buffer)@),
    ensures
        ({
            let b = old(buffer)@;
            let len = CORA_HEADER_SIZE + announced_length(b);
            match decode_error(b.take(len)) {
                Some(e) => final(buffer)@ == b && r is Err && from_core_spec(e, r->Err_0),
                None => r matches Ok(m) && decoded_message(b.take(len), m) && final(buffer)@ == b.skip(len),
            }
        }),
{
    let ghost b = buffer@;
    let flen = frame_length(buffer.as_slice());
    assert(flen <= b.len());
    assert(b.len() == buffer.len());
    let len = flen as usize;
    assert(len as int == CORA_HEADER_SIZE + announced_length(b));
    let frame = slice_subrange(buffer.as_slice(), 0, len);
    assert(frame@ =~= b.take(len as int));
    match CoraMessage::decode(frame) {
        Ok(m) => {
            drop_front(buffer, len);
            Ok(m)
        },
        Err(e) => Err(Error::from_core(e)),
    }
}

} // verus!
