//! Fixed-size packet helpers: zero padding and little/big-endian reads.

use vstd::prelude::*;
use vstd::slice::slice_subrange;
use crate::protocol::error::Error;

verus! {

/// Size of every raw panel packet.
pub const PACKET_SIZE: usize = 1024;

/// The packet whose first bytes are `prefix` and whose other bytes are zero
/// (bytes of `prefix` past the packet size are dropped).
pub open spec fn padded(prefix: Seq<u8>) -> Seq<u8> {
    Seq::new(PACKET_SIZE as nat, |i: int| if i < prefix.len() { prefix[i] } else { 0u8 })
}

/// The value of two bytes read as a little-endian `u16`.
pub open spec fn le16(lo: u8, hi: u8) -> u16 {
    (lo as int + 256 * hi as int) as u16
}

/// The value of two bytes read as a big-endian `u16`.
pub open spec fn be16(hi: u8, lo: u8) -> u16 {
    (lo as int + 256 * hi as int) as u16
}

/// Low byte of a `u16`.
pub open spec fn lo_byte(v: u16) -> u8 {
    (v % 256) as u8
}

/// High byte of a `u16`.
pub open spec fn hi_byte(v: u16) -> u8 {
    (v / 256) as u8
}

/// The two bytes of `v` in little-endian order.
pub open spec fn le16_bytes(v: u16) -> Seq<u8> {
    seq![lo_byte(v), hi_byte(v)]
}

/// The two bytes of `v` in big-endian order.
pub open spec fn be16_bytes(v: u16) -> Seq<u8> {
    seq![hi_byte(v), lo_byte(v)]
}

/// Writes of zero-padded packets.
pub struct PacketWriter;

impl PacketWriter {
    /// Create a packet holding `data` (at most `PACKET_SIZE` bytes of it) followed by zeros.
    pub fn create_packet(data: &[u8]) -> (packet: [u8; PACKET_SIZE])
        ensures
            packet@ == padded(data@),
    {
        let mut packet = [0u8; 1024];
        let len = if data.len() < PACKET_SIZE { data.len() } else { PACKET_SIZE };
        let mut i: usize = 0;
        while i < len
            invariant
                i <= len,
                len <= PACKET_SIZE,
                len <= data@.len(),
                len == data@.len() || len == PACKET_SIZE,
                packet@.len() == PACKET_SIZE,
                forall|j: int| 0 <= j < i ==> packet@[j] == data@[j],
                forall|j: int| i <= j < PACKET_SIZE ==> packet@[j] == 0u8,
            decreases len - i,
        {
            packet[i] = data[i];
            i = i + 1;
        }
        assert(packet@ =~= padded(data@));
        packet
    }

    /// Pad (with zeros) or truncate `data` to exactly `PACKET_SIZE` bytes.
    pub fn pad_to_packet_size(data: Vec<u8>) -> (r: Vec<u8>)
        ensures
            r@ == padded(data@),
    {
        let mut data = data;
        let ghost orig = data@;
        while data.len() < PACKET_SIZE
            invariant
                orig.len() <= data@.len() <= PACKET_SIZE || data@ == orig,
                data@.len() >= orig.len(),
                forall|j: int| 0 <= j < orig.len() ==> data@[j] == orig[j],
                forall|j: int| orig.len() <= j < data@.len() ==> data@[j] == 0u8,
            decreases PACKET_SIZE - data@.len(),
        {
            data.push(0u8);
        }
        data.truncate(PACKET_SIZE);
        assert(data@ =~= padded(orig));
        data
    }
}

/// Reads of fixed-width values out of packets.
pub struct PacketReader;

impl PacketReader {
    /// Read a `u16` (little endian) at `offset`.
    pub fn read_u16_le(packet: &[u8], offset: usize) -> (r: Result<u16, Error>)
        requires
            offset + 2 <= usize::MAX,
        ensures
            offset + 2 <= packet@.len() ==> r == Ok::<u16, Error>(
                le16(packet@[offset as int], packet@[offset + 1]),
            ),
            offset + 2 > packet@.len() ==> r == Err::<u16, Error>(
                Error::Protocol("Cannot read u16: packet too short"),
            ),
    {
        if offset + 2 > packet.len() {
            return Err(Error::Protocol("Cannot read u16: packet too short"));
        }
        let lo = packet[offset];
        let hi = packet[offset + 1];
        Ok(lo as u16 + 256 * hi as u16)
    }

    /// Read a `u16` (big endian) at `offset`.
    pub fn read_u16_be(packet: &[u8], offset: usize) -> (r: Result<u16, Error>)
        requires
            offset + 2 <= usize::MAX,
        ensures
            offset + 2 <= packet@.len() ==> r == Ok::<u16, Error>(
                be16(packet@[offset as int], packet@[offset + 1]),
            ),
            offset + 2 > packet@.len() ==> r == Err::<u16, Error>(
                Error::Protocol("Cannot read u16: packet too short"),
            ),
    {
        if offset + 2 > packet.len() {
            return Err(Error::Protocol("Cannot read u16: packet too short"));
        }
        let hi = packet[offset];
        let lo = packet[offset + 1];
        Ok(lo as u16 + 256 * hi as u16)
    }

    /// Read the `length` bytes at `offset`.
    pub fn read_slice<'a>(packet: &'a [u8], offset: usize, length: usize) -> (r: Result<&'a [u8], Error>)
        requires
            offset + length <= usize::MAX,
        ensures
            offset + length <= packet@.len() ==> (r matches Ok(s) && s@ == packet@.subrange(
                offset as int,
                offset + length,
            )),
            offset + length > packet@.len() ==> r == Err::<&'a [u8], Error>(
                Error::Protocol("Cannot read slice: packet too short"),
            ),
    {
        if offset + length > packet.len() {
            return Err(Error::Protocol("Cannot read slice: packet too short"));
        }
        Ok(slice_subrange(packet, offset, offset + length))
    }
}

} // verus!
