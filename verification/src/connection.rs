//! Raw panel connection (1024-byte packets): the serial number handshake.

use vstd::prelude::*;
use vstd::slice::slice_subrange;
use crate::protocol::command::{Command, CommandEncoder, command_packet};
use crate::protocol::packet::{PACKET_SIZE, be16};
use crate::text::{from_utf8_lossy, utf8_lossy};

verus! {

/// How long a connection may stay without data before it counts as gone:
/// five seconds, in nanoseconds.
pub const KEEP_ALIVE_TIMEOUT_NANOS: u128 = 5_000_000_000;

/// Whether a connection whose last data arrived at `last_data` has been without
/// data for longer than the keep-alive timeout at `now` (both in nanoseconds on
/// one monotonic clock; a reading of `now` before `last_data` counts as no time
/// passed).
pub fn keep_alive_expired(last_data: u128, now: u128) -> (r: bool)
    ensures
        r == (now > last_data && now - last_data > KEEP_ALIVE_TIMEOUT_NANOS),
{
    now > last_data && now - last_data > KEEP_ALIVE_TIMEOUT_NANOS
}

/// The serial number bytes that a serial number response carries, if it is one:
/// 0x03 0x84, a big-endian length, then that many bytes (at least one, within the packet).
pub open spec fn serial_response_bytes(p: Seq<u8>) -> Option<Seq<u8>> {
    if p.len() >= 4 && p[0] == 0x03u8 && p[1] == 0x84u8 {
        let length = be16(p[2], p[3]) as int;
        if length > 0 && p.len() >= 4 + length {
            Some(p.subrange(4, 4 + length))
        } else {
            None
        }
    } else {
        None
    }
}

/// The packet that asks for the serial number (0x03 0x84, zero padded).
pub fn serial_request_packet() -> (p: [u8; PACKET_SIZE])
    ensures
        p@ == command_packet(Command::GetSerial),
{
    match CommandEncoder::encode(&Command::GetSerial) {
        Ok(p) => p,
        Err(_) => [0u8; 1024],
    }
}

/// The serial number that a received packet answers with, if it is a serial
/// number response; the bytes are decoded as (lossy) UTF-8.
pub fn serial_from_response(response: &[u8; PACKET_SIZE]) -> (r: Option<String>)
    ensures
        match serial_response_bytes(response@) {
            Some(b) => r matches Some(s) && s@ == utf8_lossy(b),
            None => r is None,
        },
{
    if response[0] == 0x03 && response[1] == 0x84 {
        let length = (response[3] as u16 + 256 * response[2] as u16) as usize;
        if length > 0 && PACKET_SIZE >= 4 + length {
            let bytes = slice_subrange(response.as_slice(), 4, 4 + length);
            return Some(from_utf8_lossy(bytes));
        }
    }
    None
}

} // verus!
