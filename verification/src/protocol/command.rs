//! Command encoding: commands sent to a Stream Deck Studio as 1024-byte packets.

use vstd::prelude::*;
use crate::protocol::error::Error;
use crate::protocol::packet::{PACKET_SIZE, PacketWriter, padded, le16_bytes};

verus! {

/// Commands that can be sent to the device.
#[derive(Debug, Clone)]
pub enum Command {
    /// Request serial number (0x03 0x84).
    GetSerial,
    /// Set brightness (0x03 0x08 <value>).
    SetBrightness(u8),
    /// Set button image (0x02 0x07 <button_index> <last_page_flag> <length> <page_number> <image_data>).
    SetButtonImage { button_index: u8, is_last_page: bool, page_number: u16, data: Vec<u8> },
    /// Set encoder LED color (0x02 0x10 <encoder_index> <R> <G> <B>).
    SetEncoderColor { encoder_index: u8, r: u8, g: u8, b: u8 },
    /// Set encoder ring LED colors (0x02 0x0f <encoder_index> <RGB data...>), up to 24 colors.
    SetEncoderRing { encoder_index: u8, colors: Vec<(u8, u8, u8)> },
    /// Set display area image
    /// (0x02 0x0c <x> <y> <width> <height> <last_page> <page> <length> <pad> <image_data>).
    SetDisplayAreaImage {
        x: u16,
        y: u16,
        width: u16,
        height: u16,
        is_last_page: bool,
        page_number: u16,
        data: Vec<u8>,
    },
    /// Keep-alive response (0x03 0x1a).
    KeepAlive,
    /// Reset device (0x03 0x02).
    Reset,
}

/// Image bytes that fit in one button image packet (1024 - 8 header bytes).
pub const BUTTON_PAGE_PAYLOAD: usize = 1016;

/// Image bytes that fit in one display area packet (1024 - 16 header bytes).
pub const DISPLAY_PAGE_PAYLOAD: usize = 1008;

/// Most encoder ring colors one packet carries.
pub const MAX_RING_COLORS: usize = 24;

/// `1` for the last page, `0` otherwise.
pub open spec fn flag_byte(b: bool) -> u8 {
    if b { 1u8 } else { 0u8 }
}

/// The smaller of two integers.
pub open spec fn min_int(a: int, b: int) -> int {
    if a < b { a } else { b }
}

/// The RGB triples laid out as consecutive bytes.
pub open spec fn rgb_bytes(colors: Seq<(u8, u8, u8)>) -> Seq<u8>
    decreases colors.len(),
{
    if colors.len() == 0 {
        Seq::empty()
    } else {
        let c = colors.last();
        rgb_bytes(colors.drop_last()) + seq![c.0, c.1, c.2]
    }
}

/// The first bytes of a button image page carrying `data`.
pub open spec fn button_image_prefix(button_index: u8, is_last_page: bool, page_number: u16, data: Seq<u8>) -> Seq<u8> {
    let len = min_int(data.len() as int, BUTTON_PAGE_PAYLOAD as int);
    seq![0x02u8, 0x07u8, button_index, flag_byte(is_last_page)] + le16_bytes(len as u16)
        + le16_bytes(page_number) + data.take(len)
}

/// The first bytes of a display area image page carrying `data`.
pub open spec fn display_area_prefix(
    x: u16,
    y: u16,
    width: u16,
    height: u16,
    is_last_page: bool,
    page_number: u16,
    data: Seq<u8>,
) -> Seq<u8> {
    let len = min_int(data.len() as int, DISPLAY_PAGE_PAYLOAD as int);
    seq![0x02u8, 0x0cu8] + le16_bytes(x) + le16_bytes(y) + le16_bytes(width) + le16_bytes(height)
        + seq![flag_byte(is_last_page)] + le16_bytes(page_number) + le16_bytes(len as u16) + seq![0u8]
        + data.take(len)
}

/// The first bytes of an encoder ring command (at most 24 colors are sent).
pub open spec fn encoder_ring_prefix(encoder_index: u8, colors: Seq<(u8, u8, u8)>) -> Seq<u8> {
    let n = min_int(colors.len() as int, MAX_RING_COLORS as int);
    seq![0x02u8, 0x0fu8, encoder_index] + rgb_bytes(colors.take(n))
}

/// The bytes a command starts with; the rest of its packet is zero.
pub open spec fn command_prefix(c: Command) -> Seq<u8> {
    match c {
        Command::GetSerial => seq![0x03u8, 0x84u8],
        Command::SetBrightness(b) => seq![0x03u8, 0x08u8, b],
        Command::SetButtonImage { button_index, is_last_page, page_number, data } =>
            button_image_prefix(button_index, is_last_page, page_number, data@),
        Command::SetEncoderColor { encoder_index, r, g, b } => seq![0x02u8, 0x10u8, encoder_index, r, g, b],
        Command::SetEncoderRing { encoder_index, colors } => encoder_ring_prefix(encoder_index, colors@),
        Command::SetDisplayAreaImage { x, y, width, height, is_last_page, page_number, data } =>
            display_area_prefix(x, y, width, height, is_last_page, page_number, data@),
        Command::KeepAlive => seq![0x03u8, 0x1au8],
        Command::Reset => seq![0x03u8, 0x02u8],
    }
}

/// The packet a command is encoded as.
pub open spec fn command_packet(c: Command) -> Seq<u8> {
    padded(command_prefix(c))
}

/// Whether a command carries a variable amount of data (image pages, ring colors).
pub open spec fn needs_allocation(c: Command) -> bool {
    match c {
        Command::SetButtonImage { .. } | Command::SetEncoderRing { .. } | Command::SetDisplayAreaImage { .. } => true,
        _ => false,
    }
}

fn push_le16(out: &mut Vec<u8>, v: u16)
    ensures
        final(out)@ == old(out)@ + le16_bytes(v),
{
    out.push((v % 256) as u8);
    out.push((v / 256) as u8);
    assert(final(out)@ =~= old(out)@ + le16_bytes(v));
}

fn push_prefix(out: &mut Vec<u8>, data: &Vec<u8>, len: usize)
    requires
        len <= data@.len(),
    ensures
        final(out)@ == old(out)@ + data@.take(len as int),
{
    let ghost start = out@;
    let mut i: usize = 0;
    while i < len
        invariant
            i <= len <= data@.len(),
            out@ == start + data@.take(i as int),
        decreases len - i,
    {
        out.push(data[i]);
        i = i + 1;
        assert(out@ =~= start + data@.take(i as int));
    }
}

fn push_colors(out: &mut Vec<u8>, colors: &Vec<(u8, u8, u8)>, n: usize)
    requires
        n <= colors@.len(),
    ensures
        final(out)@ == old(out)@ + rgb_bytes(colors@.take(n as int)),
{
    let ghost start = out@;
    let mut i: usize = 0;
    assert(colors@.take(0) =~= Seq::<(u8, u8, u8)>::empty());
    while i < n
        invariant
            i <= n <= colors@.len(),
            out@ == start + rgb_bytes(colors@.take(i as int)),
        decreases n - i,
    {
        let (r, g, b) = colors[i];
        out.push(r);
        out.push(g);
        out.push(b);
        assert(colors@.take(i + 1).drop_last() =~= colors@.take(i as int));
        i = i + 1;
        assert(out@ =~= start + rgb_bytes(colors@.take(i as int)));
    }
}

/// Builds the bytes a command starts with.
fn command_prefix_bytes(command: &Command) -> (out: Vec<u8>)
    ensures
        out@ == command_prefix(*command),
{
    let mut out: Vec<u8> = Vec::new();
    match command {
        Command::GetSerial => {
            out.push(0x03);
            out.push(0x84);
        },
        Command::SetBrightness(brightness) => {
            out.push(0x03);
            out.push(0x08);
            out.push(*brightness);
        },
        Command::SetButtonImage { button_index, is_last_page, page_number, data } => {
            let len = if data.len() < BUTTON_PAGE_PAYLOAD { data.len() } else { BUTTON_PAGE_PAYLOAD };
            out.push(0x02);
            out.push(0x07);
            out.push(*button_index);
            out.push(if *is_last_page { 0x01 } else { 0x00 });
            push_le16(&mut out, len as u16);
            push_le16(&mut out, *page_number);
            push_prefix(&mut out, data, len);
        },
        Command::SetEncoderColor { encoder_index, r, g, b } => {
            out.push(0x02);
            out.push(0x10);
            out.push(*encoder_index);
            out.push(*r);
            out.push(*g);
            out.push(*b);
        },
        Command::SetEncoderRing { encoder_index, colors } => {
            let n = if colors.len() < MAX_RING_COLORS { colors.len() } else { MAX_RING_COLORS };
            out.push(0x02);
            out.push(0x0f);
            out.push(*encoder_index);
            push_colors(&mut out, colors, n);
        },
        Command::SetDisplayAreaImage { x, y, width, height, is_last_page, page_number, data } => {
            let len = if data.len() < DISPLAY_PAGE_PAYLOAD { data.len() } else { DISPLAY_PAGE_PAYLOAD };
            out.push(0x02);
            out.push(0x0c);
            push_le16(&mut out, *x);
            push_le16(&mut out, *y);
            push_le16(&mut out, *width);
            push_le16(&mut out, *height);
            out.push(if *is_last_page { 0x01 } else { 0x00 });
            push_le16(&mut out, *page_number);
            push_le16(&mut out, len as u16);
            out.push(0x00);
            push_prefix(&mut out, data, len);
        },
        Command::KeepAlive => {
            out.push(0x03);
            out.push(0x1a);
        },
        Command::Reset => {
            out.push(0x03);
            out.push(0x02);
        },
    }
    assert(out@ =~= command_prefix(*command));
    out
}

/// Encoder for converting commands to packet format.
pub struct CommandEncoder;

impl CommandEncoder {
    /// Encode a command into a 1024-byte packet; every command encodes.
    pub fn encode(command: &Command) -> (r: Result<[u8; PACKET_SIZE], Error>)
        ensures
            r matches Ok(p) && p@ == command_packet(*command),
    {
        let prefix = command_prefix_bytes(command);
        Ok(PacketWriter::create_packet(prefix.as_slice()))
    }

    /// Encode a command into `buffer` without allocation.
    ///
    /// The buffer is cleared first. Commands that carry image pages or ring
    /// colors are refused and leave the buffer all zeros.
    pub fn encode_to_buffer(command: &Command, buffer: &mut [u8; PACKET_SIZE]) -> (r: Result<(), Error>)
        ensures
            !needs_allocation(*command) ==> r is Ok && final(buffer)@ == command_packet(*command),
            needs_allocation(*command) ==> r == Err::<(), Error>(
                Error::InvalidParameter("This command requires allocation, use encode() instead"),
            ) && final(buffer)@ == padded(Seq::empty()),
    {
        let mut i: usize = 0;
        while i < PACKET_SIZE
            invariant
                i <= PACKET_SIZE,
                buffer@.len() == PACKET_SIZE,
                forall|j: int| 0 <= j < i ==> buffer@[j] == 0u8,
            decreases PACKET_SIZE - i,
        {
            buffer[i] = 0;
            i = i + 1;
        }
        assert(buffer@ =~= padded(Seq::empty()));
        match command {
            Command::GetSerial => {
                buffer[0] = 0x03;
                buffer[1] = 0x84;
            },
            Command::SetBrightness(brightness) => {
                buffer[0] = 0x03;
                buffer[1] = 0x08;
                buffer[2] = *brightness;
            },
            Command::SetEncoderColor { encoder_index, r, g, b } => {
                buffer[0] = 0x02;
                buffer[1] = 0x10;
                buffer[2] = *encoder_index;
                buffer[3] = *r;
                buffer[4] = *g;
                buffer[5] = *b;
            },
            Command::KeepAlive => {
                buffer[0] = 0x03;
                buffer[1] = 0x1a;
            },
            Command::Reset => {
                buffer[0] = 0x03;
                buffer[1] = 0x02;
            },
            _ => {
                return Err(Error::InvalidParameter("This command requires allocation, use encode() instead"));
            },
        }
        assert(buffer@ =~= command_packet(*command));
        Ok(())
    }
}

} // verus!
