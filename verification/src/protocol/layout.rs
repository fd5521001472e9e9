//! The byte layout of every command packet, stated byte by byte over the
//! command's fields: what a device reads at each offset.

use vstd::prelude::*;
use crate::protocol::command::{
    Command, command_packet, button_image_prefix, display_area_prefix, encoder_ring_prefix, rgb_bytes,
};
use crate::protocol::packet::padded;
use crate::protocol::cora::{encoded, CoraHidOp, CoraMessage, CoraMessageFlags};

verus! {

/// The fixed commands: the serial number request is 0x03 0x84, brightness is
/// 0x03 0x08 and the value, an encoder color is 0x02 0x10, the encoder index
/// and red, green, blue; keep-alive is 0x03 0x1a and reset 0x03 0x02. Every
/// packet is 1024 bytes, zero after these.
pub proof fn lemma_fixed_command_bytes(brightness: u8, encoder_index: u8, r: u8, g: u8, b: u8)
    ensures
        command_packet(Command::GetSerial).len() == 1024,
        command_packet(Command::SetBrightness(brightness)).len() == 1024,
        command_packet(Command::SetEncoderColor { encoder_index, r, g, b }).len() == 1024,
        command_packet(Command::KeepAlive).len() == 1024,
        command_packet(Command::Reset).len() == 1024,
        forall|i: int| 0 <= i < 1024 ==> #[trigger] command_packet(Command::GetSerial)[i] == (if i == 0 {
            0x03u8
        } else if i == 1 {
            0x84u8
        } else {
            0u8
        }),
        forall|i: int| 0 <= i < 1024 ==> #[trigger] command_packet(Command::SetBrightness(brightness))[i] == (if i
            == 0 {
            0x03u8
        } else if i == 1 {
            0x08u8
        } else if i == 2 {
            brightness
        } else {
            0u8
        }),
        forall|i: int| 0 <= i < 1024 ==> #[trigger] command_packet(Command::SetEncoderColor { encoder_index, r, g, b })[i]
            == (if i == 0 {
            0x02u8
        } else if i == 1 {
            0x10u8
        } else if i == 2 {
            encoder_index
        } else if i == 3 {
            r
        } else if i == 4 {
            g
        } else if i == 5 {
            b
        } else {
            0u8
        }),
        forall|i: int| 0 <= i < 1024 ==> #[trigger] command_packet(Command::KeepAlive)[i] == (if i == 0 {
            0x03u8
        } else if i == 1 {
            0x1au8
        } else {
            0u8
        }),
        forall|i: int| 0 <= i < 1024 ==> #[trigger] command_packet(Command::Reset)[i] == (if i == 0 {
            0x03u8
        } else if i == 1 {
            0x02u8
        } else {
            0u8
        }),
{
}

/// An encoder ring packet is 0x02 0x0f and the encoder index, then the red,
/// green and blue bytes of each color in order (the first 24 colors, all of
/// them when there are at most 24), then zeros.
pub proof fn lemma_ring_command_bytes(encoder_index: u8, colors: Vec<(u8, u8, u8)>)
    ensures
        ({
            let p = command_packet(Command::SetEncoderRing { encoder_index, colors });
            let n = if colors@.len() < 24 { colors@.len() as int } else { 24int };
            &&& p.len() == 1024
            &&& p[0] == 0x02u8
            &&& p[1] == 0x0fu8
            &&& p[2] == encoder_index
            &&& forall|k: int| 0 <= k < n ==> {
                &&& p[3 + 3 * k] == (#[trigger] colors@[k]).0
                &&& p[4 + 3 * k] == colors@[k].1
                &&& p[5 + 3 * k] == colors@[k].2
            }
            &&& forall|i: int| 3 + 3 * n <= i < 1024 ==> #[trigger] p[i] == 0u8
        }),
{
    let n = if colors@.len() < 24 { colors@.len() as int } else { 24int };
    let cs = colors@.take(n);
    lemma_rgb_bytes(cs);
    let prefix = encoder_ring_prefix(encoder_index, colors@);
    assert(prefix == seq![0x02u8, 0x0fu8, encoder_index] + rgb_bytes(cs));
    assert(prefix.len() == 3 + 3 * n);
    let p = command_packet(Command::SetEncoderRing { encoder_index, colors });
    assert(p == padded(prefix));
    assert forall|k: int| 0 <= k < n implies {
        &&& p[3 + 3 * k] == (#[trigger] colors@[k]).0
        &&& p[4 + 3 * k] == colors@[k].1
        &&& p[5 + 3 * k] == colors@[k].2
    } by {
        assert(cs[k] == colors@[k]);
        assert(prefix[3 + 3 * k] == rgb_bytes(cs)[3 * k]);
        assert(prefix[4 + 3 * k] == rgb_bytes(cs)[3 * k + 1]);
        assert(prefix[5 + 3 * k] == rgb_bytes(cs)[3 * k + 2]);
    }
}

/// The bytes of a button image page carrying `data`, by offset.
pub open spec fn button_page_layout(p: Seq<u8>, button_index: u8, is_last_page: bool, page_number: u16, data: Seq<u8>) -> bool {
    let len = if data.len() < 1016 { data.len() as int } else { 1016int };
    &&& p.len() == 1024
    &&& p[0] == 0x02u8
    &&& p[1] == 0x07u8
    &&& p[2] == button_index
    &&& p[3] == (if is_last_page { 1u8 } else { 0u8 })
    &&& p[4] as int + 256 * p[5] as int == len
    &&& p[6] as int + 256 * p[7] as int == page_number as int
    &&& forall|j: int| 0 <= j < len ==> #[trigger] p[8 + j] == data[j]
    &&& forall|i: int| 8 + len <= i < 1024 ==> #[trigger] p[i] == 0u8
}

/// The bytes of a display area page carrying `data`, by offset.
pub open spec fn display_page_layout(
    p: Seq<u8>,
    x: u16,
    y: u16,
    width: u16,
    height: u16,
    is_last_page: bool,
    page_number: u16,
    data: Seq<u8>,
) -> bool {
    let len = if data.len() < 1008 { data.len() as int } else { 1008int };
    &&& p.len() == 1024
    &&& p[0] == 0x02u8
    &&& p[1] == 0x0cu8
    &&& p[2] as int + 256 * p[3] as int == x as int
    &&& p[4] as int + 256 * p[5] as int == y as int
    &&& p[6] as int + 256 * p[7] as int == width as int
    &&& p[8] as int + 256 * p[9] as int == height as int
    &&& p[10] == (if is_last_page { 1u8 } else { 0u8 })
    &&& p[11] as int + 256 * p[12] as int == page_number as int
    &&& p[13] as int + 256 * p[14] as int == len
    &&& p[15] == 0u8
    &&& forall|j: int| 0 <= j < len ==> #[trigger] p[16 + j] == data[j]
    &&& forall|i: int| 16 + len <= i < 1024 ==> #[trigger] p[i] == 0u8
}

/// A button image page is laid out as `button_page_layout` says.
pub proof fn lemma_button_prefix_bytes(button_index: u8, is_last_page: bool, page_number: u16, data: Seq<u8>)
    ensures
        button_page_layout(
            padded(button_image_prefix(button_index, is_last_page, page_number, data)),
            button_index,
            is_last_page,
            page_number,
            data,
        ),
{
    let len = if data.len() < 1016 { data.len() as int } else { 1016int };
    let prefix = button_image_prefix(button_index, is_last_page, page_number, data);
    let p = padded(prefix);
    assert(prefix.len() == 8 + len);
    assert((len % 256) as u8 as int + 256 * (len / 256) as u8 as int == len) by (nonlinear_arith)
        requires
            0 <= len <= 1016,
    ;
    lemma_le16_parts(page_number);
    assert forall|j: int| 0 <= j < len implies #[trigger] p[8 + j] == data[j] by {
        assert(prefix[8 + j] == data.take(len)[j]);
    }
}

/// A display area page is laid out as `display_page_layout` says.
pub proof fn lemma_display_prefix_bytes(
    x: u16,
    y: u16,
    width: u16,
    height: u16,
    is_last_page: bool,
    page_number: u16,
    data: Seq<u8>,
)
    ensures
        display_page_layout(
            padded(display_area_prefix(x, y, width, height, is_last_page, page_number, data)),
            x,
            y,
            width,
            height,
            is_last_page,
            page_number,
            data,
        ),
{
    let len = if data.len() < 1008 { data.len() as int } else { 1008int };
    let prefix = display_area_prefix(x, y, width, height, is_last_page, page_number, data);
    let p = padded(prefix);
    assert(prefix.len() == 16 + len);
    assert((len % 256) as u8 as int + 256 * (len / 256) as u8 as int == len) by (nonlinear_arith)
        requires
            0 <= len <= 1008,
    ;
    lemma_le16_parts(x);
    lemma_le16_parts(y);
    lemma_le16_parts(width);
    lemma_le16_parts(height);
    lemma_le16_parts(page_number);
    assert forall|j: int| 0 <= j < len implies #[trigger] p[16 + j] == data[j] by {
        assert(prefix[16 + j] == data.take(len)[j]);
    }
}

/// A button image packet is 0x02 0x07, the button index, 1 for the last page
/// (0 otherwise), the number of image bytes it carries (little endian), the
/// page number (little endian), then those image bytes (the first 1016 of
/// `data`, all of it when it is shorter), then zeros.
pub proof fn lemma_button_command_bytes(button_index: u8, is_last_page: bool, page_number: u16, data: Vec<u8>)
    ensures
        button_page_layout(
            command_packet(Command::SetButtonImage { button_index, is_last_page, page_number, data }),
            button_index,
            is_last_page,
            page_number,
            data@,
        ),
{
    lemma_button_prefix_bytes(button_index, is_last_page, page_number, data@);
}

/// A display area packet is 0x02 0x0c, then x, y, width and height (each
/// little endian), 1 for the last page (0 otherwise), the page number (little
/// endian), the number of image bytes it carries (little endian), a zero byte,
/// then those image bytes (the first 1008 of `data`, all of it when it is
/// shorter), then zeros.
pub proof fn lemma_display_command_bytes(
    x: u16,
    y: u16,
    width: u16,
    height: u16,
    is_last_page: bool,
    page_number: u16,
    data: Vec<u8>,
)
    ensures
        display_page_layout(
            command_packet(Command::SetDisplayAreaImage { x, y, width, height, is_last_page, page_number, data }),
            x,
            y,
            width,
            height,
            is_last_page,
            page_number,
            data@,
        ),
{
    lemma_display_prefix_bytes(x, y, width, height, is_last_page, page_number, data@);
}

/// A 16-bit value is its low byte plus 256 times its high byte.
proof fn lemma_le16_parts(v: u16)
    ensures
        (v % 256) as u8 as int + 256 * (v / 256) as u8 as int == v as int,
{
}

/// The bytes of RGB triples: three per color, in order.
proof fn lemma_rgb_bytes(colors: Seq<(u8, u8, u8)>)
    ensures
        rgb_bytes(colors).len() == 3 * colors.len(),
        forall|k: int| 0 <= k < colors.len() ==> {
            &&& rgb_bytes(colors)[3 * k] == (#[trigger] colors[k]).0
            &&& rgb_bytes(colors)[3 * k + 1] == colors[k].1
            &&& rgb_bytes(colors)[3 * k + 2] == colors[k].2
        },
    decreases colors.len(),
{
    if colors.len() > 0 {
        let front = colors.drop_last();
        lemma_rgb_bytes(front);
        let c = colors.last();
        assert(rgb_bytes(colors) == rgb_bytes(front) + seq![c.0, c.1, c.2]);
        assert forall|k: int| 0 <= k < colors.len() implies {
            &&& rgb_bytes(colors)[3 * k] == (#[trigger] colors[k]).0
            &&& rgb_bytes(colors)[3 * k + 1] == colors[k].1
            &&& rgb_bytes(colors)[3 * k + 2] == colors[k].2
        } by {
            if k < colors.len() - 1 {
                assert(front[k] == colors[k]);
            }
        }
    }
}

/// The four bytes of a `u32`, least significant first, make it up again.
proof fn lemma_le32_parts(v: u32)
    ensures
        (v % 256) as u8 as int + 256 * ((v / 256) % 256) as u8 as int + 65536 * ((v / 65536) % 256) as u8 as int
            + 16777216 * (v / 16777216) as u8 as int == v as int,
{
    let a = v as int;
    assert(a % 256 + 256 * ((a / 256) % 256) + 65536 * ((a / 65536) % 256) + 16777216 * (a / 16777216) == a)
        by (nonlinear_arith)
        requires
            0 <= a,
    {
        vstd::arithmetic::div_mod::lemma_fundamental_div_mod(a, 256);
        vstd::arithmetic::div_mod::lemma_fundamental_div_mod(a / 256, 256);
        vstd::arithmetic::div_mod::lemma_fundamental_div_mod(a / 65536, 256);
        vstd::arithmetic::div_mod::lemma_div_denominator(a, 256, 256);
        vstd::arithmetic::div_mod::lemma_div_denominator(a, 65536, 256);
    }
}

/// A Cora message is sent as the magic bytes 43 93 8a 41, the flags (0x0000,
/// 0x8000 verbatim, 0x4000 request-ack, 0x0200 ack/nak, 0x0100 result; little
/// endian), the operation (0 write, 1 send report, 2 get report), a zero
/// byte, the message id and the payload length (each little endian over four
/// bytes), then the payload.
pub proof fn lemma_encoded_bytes(m: CoraMessage)
    requires
        m.payload@.len() <= u32::MAX,
    ensures
        ({
            let e = encoded(m);
            let p = m.payload@;
            &&& e.len() == 16 + p.len()
            &&& e[0] == 0x43u8 && e[1] == 0x93u8 && e[2] == 0x8au8 && e[3] == 0x41u8
            &&& e[4] as int + 256 * e[5] as int == match m.flags {
                CoraMessageFlags::NoFlags => 0int,
                CoraMessageFlags::Verbatim => 0x8000int,
                CoraMessageFlags::ReqAck => 0x4000int,
                CoraMessageFlags::AckNak => 0x0200int,
                CoraMessageFlags::Result => 0x0100int,
            }
            &&& e[6] == match m.hid_op {
                CoraHidOp::Write => 0u8,
                CoraHidOp::SendReport => 1u8,
                CoraHidOp::GetReport => 2u8,
            }
            &&& e[7] == 0u8
            &&& e[8] as int + 256 * e[9] as int + 65536 * e[10] as int + 16777216 * e[11] as int == m.message_id as int
            &&& e[12] as int + 256 * e[13] as int + 65536 * e[14] as int + 16777216 * e[15] as int == p.len()
            &&& forall|j: int| 0 <= j < p.len() ==> #[trigger] e[16 + j] == p[j]
        }),
{
    let e = encoded(m);
    lemma_le32_parts(m.message_id);
    lemma_le32_parts(m.payload@.len() as u32);
    let f = crate::protocol::cora::flag_bits(m.flags);
    lemma_le16_parts(f);
    assert forall|j: int| 0 <= j < m.payload@.len() implies #[trigger] e[16 + j] == m.payload@[j] by {}
}

} // verus!
