//! Cora protocol framing: a 16-byte header followed by a variable-length payload.

use vstd::prelude::*;
use crate::protocol::error::Error;
use crate::protocol::packet::{le16_bytes, lo_byte, hi_byte};

verus! {

/// Cora protocol magic bytes.
pub const CORA_MAGIC: [u8; 4] = [0x43, 0x93, 0x8a, 0x41];

/// Cora message header size.
pub const CORA_HEADER_SIZE: usize = 16;

/// The magic bytes as a sequence.
pub open spec fn magic() -> Seq<u8> {
    seq![0x43u8, 0x93u8, 0x8au8, 0x41u8]
}

/// Cora message flags.
#[derive(Debug, Clone, Copy, PartialEq, Eq, Structural)]
pub enum CoraMessageFlags {
    /// No flags set (0x0000).
    NoFlags,
    /// Payload for the child HID device on the secondary port (0x8000).
    Verbatim,
    /// Host requests an ACK (0x4000).
    ReqAck,
    /// Unit response to REQ_ACK (0x0200).
    AckNak,
    /// Unit response to a GET_REPORT operation (0x0100).
    Result,
}

/// The wire value of a flag.
pub open spec fn flag_bits(f: CoraMessageFlags) -> u16 {
    match f {
        CoraMessageFlags::NoFlags => 0x0000u16,
        CoraMessageFlags::Verbatim => 0x8000u16,
        CoraMessageFlags::ReqAck => 0x4000u16,
        CoraMessageFlags::AckNak => 0x0200u16,
        CoraMessageFlags::Result => 0x0100u16,
    }
}

/// The flag that a wire value reads as: the highest-priority bit that is set.
pub open spec fn flags_from_bits(value: u16) -> CoraMessageFlags {
    if value & 0x8000u16 != 0 {
        CoraMessageFlags::Verbatim
    } else if value & 0x4000u16 != 0 {
        CoraMessageFlags::ReqAck
    } else if value & 0x0200u16 != 0 {
        CoraMessageFlags::AckNak
    } else if value & 0x0100u16 != 0 {
        CoraMessageFlags::Result
    } else {
        CoraMessageFlags::NoFlags
    }
}

impl CoraMessageFlags {
    /// The wire value of this flag.
    pub fn bits(&self) -> (r: u16)
        ensures
            r == flag_bits(*self),
    {
        match self {
            CoraMessageFlags::NoFlags => 0x0000,
            CoraMessageFlags::Verbatim => 0x8000,
            CoraMessageFlags::ReqAck => 0x4000,
            CoraMessageFlags::AckNak => 0x0200,
            CoraMessageFlags::Result => 0x0100,
        }
    }

    /// The flag that a wire value reads as.
    pub fn from_bits(value: u16) -> (r: CoraMessageFlags)
        ensures
            r == flags_from_bits(value),
    {
        if value & 0x8000 != 0 {
            CoraMessageFlags::Verbatim
        } else if value & 0x4000 != 0 {
            CoraMessageFlags::ReqAck
        } else if value & 0x0200 != 0 {
            CoraMessageFlags::AckNak
        } else if value & 0x0100 != 0 {
            CoraMessageFlags::Result
        } else {
            CoraMessageFlags::NoFlags
        }
    }
}

impl From<u16> for CoraMessageFlags {
    /// The flag that a wire value reads as (see `from_bits`).
    fn from(value: u16) -> (r: Self) {
        CoraMessageFlags::from_bits(value)
    }
}

impl vstd::std_specs::convert::FromSpecImpl<u16> for CoraMessageFlags {
    open spec fn obeys_from_spec() -> bool {
        true
    }

    open spec fn from_spec(v: u16) -> Self {
        flags_from_bits(v)
    }
}

/// HID operation types of the Cora protocol.
#[derive(Debug, Clone, Copy, PartialEq, Eq, Structural)]
pub enum CoraHidOp {
    /// HID write (button images and other data), 0x00.
    Write,
    /// Feature report send (brightness and similar settings), 0x01.
    SendReport,
    /// Feature report get (device information), 0x02.
    GetReport,
}

/// The wire value of an operation.
pub open spec fn op_bits(op: CoraHidOp) -> u8 {
    match op {
        CoraHidOp::Write => 0u8,
        CoraHidOp::SendReport => 1u8,
        CoraHidOp::GetReport => 2u8,
    }
}

/// The operation a wire value reads as; unknown values read as `Write`.
pub open spec fn op_from_bits(value: u8) -> CoraHidOp {
    if value == 1u8 {
        CoraHidOp::SendReport
    } else if value == 2u8 {
        CoraHidOp::GetReport
    } else {
        CoraHidOp::Write
    }
}

impl CoraHidOp {
    /// The wire value of this operation.
    pub fn bits(&self) -> (r: u8)
        ensures
            r == op_bits(*self),
    {
        match self {
            CoraHidOp::Write => 0,
            CoraHidOp::SendReport => 1,
            CoraHidOp::GetReport => 2,
        }
    }

    /// The operation a wire value reads as; unknown values read as `Write`.
    pub fn from_bits(value: u8) -> (r: CoraHidOp)
        ensures
            r == op_from_bits(value),
    {
        match value {
            0x00 => CoraHidOp::Write,
            0x01 => CoraHidOp::SendReport,
            0x02 => CoraHidOp::GetReport,
            _ => CoraHidOp::Write,
        }
    }
}

impl From<u8> for CoraHidOp {
    /// The operation a wire value reads as (see `from_bits`).
    fn from(value: u8) -> (r: Self) {
        CoraHidOp::from_bits(value)
    }
}

impl vstd::std_specs::convert::FromSpecImpl<u8> for CoraHidOp {
    open spec fn obeys_from_spec() -> bool {
        true
    }

    open spec fn from_spec(v: u8) -> Self {
        op_from_bits(v)
    }
}

/// A Cora protocol message.
#[derive(Debug, Clone)]
pub struct CoraMessage {
    pub flags: CoraMessageFlags,
    pub hid_op: CoraHidOp,
    pub message_id: u32,
    pub payload: Vec<u8>,
}

/// The four little-endian bytes of a `u32`.
pub open spec fn le32_bytes(v: u32) -> Seq<u8> {
    seq![(v % 256) as u8, ((v / 256) % 256) as u8, ((v / 65536) % 256) as u8, (v / 16777216) as u8]
}

/// The `u32` that four little-endian bytes hold.
pub open spec fn le32(b0: u8, b1: u8, b2: u8, b3: u8) -> u32 {
    (b0 as int + 256 * b1 as int + 65536 * b2 as int + 16777216 * b3 as int) as u32
}

/// The header of a message with the given fields and payload length.
pub open spec fn header_bytes(flags: CoraMessageFlags, hid_op: CoraHidOp, message_id: u32, payload_len: nat) -> Seq<u8> {
    magic() + le16_bytes(flag_bits(flags)) + seq![op_bits(hid_op), 0u8] + le32_bytes(message_id)
        + le32_bytes(payload_len as u32)
}

/// The bytes a message encodes to.
pub open spec fn encoded(m: CoraMessage) -> Seq<u8> {
    header_bytes(m.flags, m.hid_op, m.message_id, m.payload@.len()) + m.payload@
}

/// The payload length that a header announces.
pub open spec fn announced_length(b: Seq<u8>) -> int {
    le32(b[12], b[13], b[14], b[15]) as int
}

/// Whether `b` starts with the magic bytes.
pub open spec fn starts_with_magic(b: Seq<u8>) -> bool {
    b.len() >= 4 && b.take(4) == magic()
}

/// The result of decoding, apart from the payload.
pub open spec fn decode_error(b: Seq<u8>) -> Option<Error> {
    if b.len() < CORA_HEADER_SIZE {
        Some(Error::Protocol("Cora message too short"))
    } else if !starts_with_magic(b) {
        Some(Error::Protocol("Invalid Cora magic bytes"))
    } else if b.len() < CORA_HEADER_SIZE + announced_length(b) {
        Some(Error::Protocol("Cora message incomplete"))
    } else {
        None
    }
}

/// Whether `m` is the message that the bytes `b` (which decode without error) hold.
pub open spec fn decoded_message(b: Seq<u8>, m: CoraMessage) -> bool {
    &&& m.flags == flags_from_bits((b[4] as int + 256 * b[5] as int) as u16)
    &&& m.hid_op == op_from_bits(b[6])
    &&& m.message_id == le32(b[8], b[9], b[10], b[11])
    &&& m.payload@ == b.subrange(CORA_HEADER_SIZE as int, CORA_HEADER_SIZE + announced_length(b))
}

/// Whether a payload is a keep-alive request: more than four bytes, starting 0x01 0x0a.
pub open spec fn keep_alive_payload(p: Seq<u8>) -> bool {
    p.len() > 4 && p[0] == 0x01u8 && p[1] == 0x0au8
}

fn push_u32_le(out: &mut Vec<u8>, v: u32)
    ensures
        final(out)@ == old(out)@ + le32_bytes(v),
{
    out.push((v % 256) as u8);
    out.push(((v / 256) % 256) as u8);
    out.push(((v / 65536) % 256) as u8);
    out.push((v / 16777216) as u8);
    assert(final(out)@ =~= old(out)@ + le32_bytes(v));
}

impl CoraMessage {
    /// Create a new Cora message.
    pub fn new(flags: CoraMessageFlags, hid_op: CoraHidOp, message_id: u32, payload: Vec<u8>) -> (m: Self)
        ensures
            m.flags == flags,
            m.hid_op == hid_op,
            m.message_id == message_id,
            m.payload == payload,
    {
        Self { flags, hid_op, message_id, payload }
    }

    /// Encode the message: header, then payload.
    pub fn encode(&self) -> (buffer: Vec<u8>)
        ensures
            buffer@ == encoded(*self),
    {
        let mut buffer: Vec<u8> = Vec::new();
        buffer.push(0x43);
        buffer.push(0x93);
        buffer.push(0x8a);
        buffer.push(0x41);
        let flags = self.flags.bits();
        buffer.push((flags % 256) as u8);
        buffer.push((flags / 256) as u8);
        buffer.push(self.hid_op.bits());
        buffer.push(0x00);
        push_u32_le(&mut buffer, self.message_id);
        push_u32_le(&mut buffer, self.payload.len() as u32);
        let ghost header = buffer@;
        assert(header =~= header_bytes(self.flags, self.hid_op, self.message_id, self.payload@.len()));
        let mut i: usize = 0;
        while i < self.payload.len()
            invariant
                i <= self.payload@.len(),
                buffer@ == header + self.payload@.take(i as int),
            decreases self.payload@.len() - i,
        {
            buffer.push(self.payload[i]);
            i = i + 1;
            assert(buffer@ =~= header + self.payload@.take(i as int));
        }
        assert(self.payload@.take(i as int) =~= self.payload@);
        buffer
    }

    /// Decode a message from the start of `buffer`.
    pub fn decode(buffer: &[u8]) -> (r: Result<Self, Error>)
        ensures
            match decode_error(buffer@) {
                Some(e) => r == Err::<CoraMessage, Error>(e),
                None => r matches Ok(m) && decoded_message(buffer@, m),
            },
    {
        if buffer.len() < CORA_HEADER_SIZE {
            return Err(Error::Protocol("Cora message too short"));
        }
        if !(buffer[0] == 0x43 && buffer[1] == 0x93 && buffer[2] == 0x8a && buffer[3] == 0x41) {
            assert(!starts_with_magic(buffer@)) by {
                if starts_with_magic(buffer@) {
                    assert(buffer@.take(4)[0] == buffer@[0]);
                    assert(buffer@.take(4)[1] == buffer@[1]);
                    assert(buffer@.take(4)[2] == buffer@[2]);
                    assert(buffer@.take(4)[3] == buffer@[3]);
                }
            }
            return Err(Error::Protocol("Invalid Cora magic bytes"));
        }
        assert(buffer@.take(4) =~= magic());
        let flags = CoraMessageFlags::from_bits(buffer[4] as u16 + 256 * buffer[5] as u16);
        let hid_op = CoraHidOp::from_bits(buffer[6]);
        let message_id = buffer[8] as u32 + 256 * buffer[9] as u32 + 65536 * buffer[10] as u32
            + 16777216 * buffer[11] as u32;
        let payload_length = (buffer[12] as u32 + 256 * buffer[13] as u32 + 65536 * buffer[14] as u32
            + 16777216 * buffer[15] as u32) as usize;
        if buffer.len() - CORA_HEADER_SIZE < payload_length {
            return Err(Error::Protocol("Cora message incomplete"));
        }
        let mut payload: Vec<u8> = Vec::new();
        let mut i: usize = 0;
        while i < payload_length
            invariant
                i <= payload_length,
                CORA_HEADER_SIZE + payload_length <= buffer@.len(),
                buffer@.len() <= usize::MAX,
                payload@ == buffer@.subrange(CORA_HEADER_SIZE as int, CORA_HEADER_SIZE + i),
            decreases payload_length - i,
        {
            payload.push(buffer[CORA_HEADER_SIZE + i]);
            i = i + 1;
            assert(payload@ =~= buffer@.subrange(CORA_HEADER_SIZE as int, CORA_HEADER_SIZE + i));
        }
        Ok(Self { flags, hid_op, message_id, payload })
    }

    /// Whether this message is a keep-alive request.
    pub fn is_keep_alive(&self) -> (r: bool)
        ensures
            r == keep_alive_payload(self.payload@),
    {
        self.payload.len() > 4 && self.payload[0] == 0x01 && self.payload[1] == 0x0a
    }

    /// The connection number of a keep-alive request (payload byte 5).
    pub fn keep_alive_connection_no(&self) -> (r: Option<u8>)
        ensures
            r == (if keep_alive_payload(self.payload@) && self.payload@.len() > 5 {
                Some(self.payload@[5])
            } else {
                None
            }),
    {
        if self.is_keep_alive() && self.payload.len() > 5 {
            Some(self.payload[5])
        } else {
            None
        }
    }
}

/// Whether the magic bytes start at position `i` of `b`.
pub open spec fn magic_at(b: Seq<u8>, i: int) -> bool {
    0 <= i && i + 4 <= b.len() && b.subrange(i, i + 4) == magic()
}

/// The first position at or after `i` where the magic bytes start.
pub open spec fn first_magic_from(b: Seq<u8>, i: int) -> Option<int>
    decreases b.len() - i,
{
    if i < 0 || i + 4 > b.len() {
        None
    } else if magic_at(b, i) {
        Some(i)
    } else {
        first_magic_from(b, i + 1)
    }
}

/// The first position where the magic bytes start.
pub open spec fn first_magic(b: Seq<u8>) -> Option<int> {
    first_magic_from(b, 0)
}

/// Where the magic bytes are first found, they are found.
pub proof fn lemma_first_magic_from(b: Seq<u8>, i: int)
    ensures
        first_magic_from(b, i) matches Some(p) ==> i <= p && magic_at(b, p),
        first_magic_from(b, i) is None && i >= 0 ==> forall|j: int| i <= j ==> !#[trigger] magic_at(b, j),
    decreases b.len() - i,
{
    if i < 0 || i + 4 > b.len() {
        if i >= 0 {
            assert forall|j: int| i <= j implies !#[trigger] magic_at(b, j) by {}
        } else {
        }
    } else if magic_at(b, i) {
    } else {
        lemma_first_magic_from(b, i + 1);
    }
}

/// The first position where the magic bytes start, if any.
pub fn find_magic(b: &[u8]) -> (r: Option<usize>)
    ensures
        first_magic(b@) == (match r {
            Some(p) => Some(p as int),
            None => None::<int>,
        }),
{
    if b.len() < 4 {
        return None;
    }
    let mut i: usize = 0;
    while i <= b.len() - 4
        invariant
            i <= b@.len() - 3,
            b@.len() >= 4,
            first_magic(b@) == first_magic_from(b@, i as int),
        decreases b@.len() - i,
    {
        if b[i] == 0x43 && b[i + 1] == 0x93 && b[i + 2] == 0x8a && b[i + 3] == 0x41 {
            assert(b@.subrange(i as int, i + 4) =~= magic());
            return Some(i);
        }
        assert(!magic_at(b@, i as int)) by {
            if magic_at(b@, i as int) {
                assert(b@.subrange(i as int, i + 4)[0] == b@[i as int]);
                assert(b@.subrange(i as int, i + 4)[1] == b@[i + 1]);
                assert(b@.subrange(i as int, i + 4)[2] == b@[i + 2]);
                assert(b@.subrange(i as int, i + 4)[3] == b@[i + 3]);
            }
        }
        i = i + 1;
    }
    None
}

/// Whether `buffer` starts with the Cora magic bytes.
pub fn is_cora_magic(buffer: &[u8]) -> (r: bool)
    ensures
        r == starts_with_magic(buffer@),
{
    if buffer.len() >= 4 && buffer[0] == 0x43 && buffer[1] == 0x93 && buffer[2] == 0x8a && buffer[3] == 0x41 {
        assert(buffer@.take(4) =~= magic());
        true
    } else {
        assert(!starts_with_magic(buffer@)) by {
            if starts_with_magic(buffer@) {
                assert(buffer@.take(4)[0] == buffer@[0]);
                assert(buffer@.take(4)[1] == buffer@[1]);
                assert(buffer@.take(4)[2] == buffer@[2]);
                assert(buffer@.take(4)[3] == buffer@[3]);
            }
        }
        false
    }
}

/// Whether `buffer` starts with a raw-panel keep-alive packet (0x01 0x0a).
pub fn is_legacy_keep_alive(buffer: &[u8]) -> (r: bool)
    ensures
        r == (buffer@.len() >= 2 && buffer@[0] == 0x01u8 && buffer@[1] == 0x0au8),
{
    buffer.len() >= 2 && buffer[0] == 0x01 && buffer[1] == 0x0a
}

proof fn lemma_le32_bytes(v: u32)
    ensures
        ({
            let b = le32_bytes(v);
            le32(b[0], b[1], b[2], b[3]) == v
        }),
{
    let x = v as int;
    assert(x == x % 256 + 256 * ((x / 256) % 256) + 65536 * ((x / 65536) % 256) + 16777216 * (x / 16777216))
        by (nonlinear_arith)
        requires
            0 <= x < 0x1_0000_0000,
    {
        assert(x == 256 * (x / 256) + x % 256);
        assert(x / 256 == 256 * (x / 65536) + (x / 256) % 256);
        assert(x / 65536 == 256 * (x / 16777216) + (x / 65536) % 256);
    }
}

proof fn lemma_flag_bits_roundtrip(f: CoraMessageFlags)
    ensures
        flags_from_bits((lo_byte(flag_bits(f)) as int + 256 * hi_byte(flag_bits(f)) as int) as u16) == f,
{
    assert(0x8000u16 & 0x8000u16 != 0) by (bit_vector);
    assert(0x4000u16 & 0x8000u16 == 0 && 0x4000u16 & 0x4000u16 != 0) by (bit_vector);
    assert(0x0200u16 & 0x8000u16 == 0 && 0x0200u16 & 0x4000u16 == 0 && 0x0200u16 & 0x0200u16 != 0) by (bit_vector);
    assert(0x0100u16 & 0x8000u16 == 0 && 0x0100u16 & 0x4000u16 == 0 && 0x0100u16 & 0x0200u16 == 0
        && 0x0100u16 & 0x0100u16 != 0) by (bit_vector);
    assert(0u16 & 0x8000u16 == 0 && 0u16 & 0x4000u16 == 0 && 0u16 & 0x0200u16 == 0 && 0u16 & 0x0100u16 == 0)
        by (bit_vector);
}

/// Decoding gives back what encoding wrote: the bytes of an encoded message
/// decode without error to a message with the same flags, operation,
/// message id and payload (for payloads whose length fits the 32-bit length field).
pub proof fn lemma_decode_encode(m: CoraMessage)
    requires
        m.payload@.len() <= u32::MAX,
    ensures
        decode_error(encoded(m)) is None,
        forall|d: CoraMessage| #[trigger] decoded_message(encoded(m), d) ==> {
            &&& d.flags == m.flags
            &&& d.hid_op == m.hid_op
            &&& d.message_id == m.message_id
            &&& d.payload@ == m.payload@
        },
{
    let b = encoded(m);
    let h = header_bytes(m.flags, m.hid_op, m.message_id, m.payload@.len());
    assert(h.len() == 16);
    assert(b.take(4) =~= magic());
    lemma_le32_bytes(m.message_id);
    lemma_le32_bytes(m.payload@.len() as u32);
    lemma_flag_bits_roundtrip(m.flags);
    assert(announced_length(b) == m.payload@.len());
    assert(b.subrange(16, 16 + announced_length(b)) =~= m.payload@);
    assert(op_from_bits(op_bits(m.hid_op)) == m.hid_op);
}

/// Every encoded message starts with the magic bytes and is its payload plus a 16-byte header.
pub proof fn lemma_encoded_shape(m: CoraMessage)
    ensures
        starts_with_magic(encoded(m)),
        encoded(m).len() == CORA_HEADER_SIZE + m.payload@.len(),
{
    assert(encoded(m).take(4) =~= magic());
}

} // verus!
