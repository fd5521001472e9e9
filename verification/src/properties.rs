//! Properties that span the two sides of the protocol: what an emulated device
//! sends is what a client reads, and what a client sends is what an emulated
//! device takes in.

use vstd::prelude::*;
use crate::cora_connection::{
    acknowledges, ack_payload, cora_serial_bytes, filled, holds_frame, request_connection_no, resynced,
};
use crate::emulator::framing::frame_step;
use crate::emulator::{manager, networkdock, studio};
use crate::emulator::payload::keep_alive_request;
use crate::emulator::report::{
    report_request,
    is_report_response, primary_port_info, report_response, NETWORKDOCK_PORT_PRODUCT_ID, STUDIO_PRODUCT_ID, VENDOR_ID,
};
use crate::emulator::studio::{images_after_write, is_image_write, is_keep_alive_ack, utf8, written_image_bytes};
use crate::device::{button_pages, display_pages};
use crate::image::{chunk, chunk_count, lemma_chunk_bounds, lemma_split_joins, BUTTON_CHUNK, DISPLAY_CHUNK};
use crate::protocol::command::{button_image_prefix, command_packet, display_area_prefix, Command};
use crate::protocol::layout::{lemma_button_prefix_bytes, lemma_display_prefix_bytes, lemma_fixed_command_bytes};
use crate::protocol::cora::{
    CoraHidOp, CoraMessage, CoraMessageFlags, CORA_HEADER_SIZE, announced_length, decode_error, decoded_message, encoded,
    first_magic, keep_alive_payload, lemma_decode_encode, lemma_encoded_shape, magic_at,
};
use crate::protocol::packet::{be16, hi_byte, le16, le16_bytes, lo_byte, padded, PACKET_SIZE};
use crate::protocol::event::{Event, TouchType, decode_plain, first_pressed_button};
use crate::emulator::payload::{button_payload, press_payload, rotate_payload, touch_payload_spec};

verus! {

/// A keep-alive request of an emulated device carrying connection number `c`
/// is recognized by the client as a keep-alive request for `c`, and the
/// client's acknowledgement is one that every emulated device takes as a
/// keep-alive acknowledgement for `c` (its `handle_message` records `c`).
pub proof fn lemma_keep_alive_round_trip(c: u8, request: CoraMessage, ack: CoraMessage)
    requires
        request.payload@ == keep_alive_request(c),
        acknowledges(request, ack),
    ensures
        keep_alive_payload(request.payload@),
        request_connection_no(request) == c,
        ack.flags == CoraMessageFlags::AckNak,
        is_keep_alive_ack(ack.payload@),
        ack.payload@[2] == c,
{
    assert(ack_payload(c)[2] == c);
}

/// In a buffer that starts with an encoded message (whatever follows it), the
/// first magic bytes are at position 0.
proof fn lemma_encoded_first_magic(m: CoraMessage, rest: Seq<u8>)
    ensures
        first_magic(encoded(m) + rest) == Some(0int),
{
    lemma_encoded_shape(m);
    let b = encoded(m) + rest;
    assert(b.subrange(0, 4) =~= encoded(m).take(4));
    assert(magic_at(b, 0));
}

/// The server-side framing takes an encoded message off the front of the
/// receive buffer whole: one step leaves exactly the bytes after it, and the
/// message it decodes has the flags, operation, id and payload that were encoded.
pub proof fn lemma_server_frames_encoded(m: CoraMessage, rest: Seq<u8>)
    requires
        m.payload@.len() <= u32::MAX,
    ensures
        frame_step(encoded(m) + rest) == (rest, true),
        forall|d: CoraMessage| #[trigger]
            decoded_message((encoded(m) + rest).take(CORA_HEADER_SIZE + announced_length(encoded(m) + rest)), d)
                ==> {
                &&& d.flags == m.flags
                &&& d.hid_op == m.hid_op
                &&& d.message_id == m.message_id
                &&& d.payload@ == m.payload@
            },
{
    let e = encoded(m);
    let b = e + rest;
    lemma_encoded_shape(m);
    lemma_encoded_first_magic(m, rest);
    lemma_decode_encode(m);
    assert(b.skip(0) =~= b);
    assert(b.subrange(12, 16) =~= e.subrange(12, 16));
    assert(announced_length(b) == announced_length(e));
    assert(announced_length(e) == m.payload@.len());
    assert(b.take(CORA_HEADER_SIZE + announced_length(b)) =~= e);
    assert(b.skip(CORA_HEADER_SIZE + announced_length(b)) =~= rest);
}

/// The client's resynchronisation leaves a buffer that starts with an encoded
/// message unchanged; the message taken off its front is exactly the encoded
/// bytes, and they decode to what was encoded.
pub proof fn lemma_client_frames_encoded(m: CoraMessage, rest: Seq<u8>)
    requires
        m.payload@.len() <= u32::MAX,
    ensures
        resynced(encoded(m) + rest) == encoded(m) + rest,
        (encoded(m) + rest).take(CORA_HEADER_SIZE + announced_length(encoded(m) + rest)) == encoded(m),
        decode_error(encoded(m)) is None,
        forall|d: CoraMessage| #[trigger] decoded_message(encoded(m), d) ==> {
            &&& d.flags == m.flags
            &&& d.hid_op == m.hid_op
            &&& d.message_id == m.message_id
            &&& d.payload@ == m.payload@
        },
{
    let e = encoded(m);
    let b = e + rest;
    lemma_encoded_shape(m);
    lemma_encoded_first_magic(m, rest);
    lemma_decode_encode(m);
    assert(b.skip(0) =~= b);
    assert(b.subrange(12, 16) =~= e.subrange(12, 16));
    assert(announced_length(e) == m.payload@.len());
    assert(b.take(CORA_HEADER_SIZE + announced_length(b)) =~= e);
}

/// No proper prefix of an encoded message holds a whole message.
proof fn lemma_prefix_holds_no_frame(m: CoraMessage, q: Seq<u8>)
    requires
        m.payload@.len() <= u32::MAX,
        q.len() < encoded(m).len(),
        q == encoded(m).take(q.len() as int),
    ensures
        !holds_frame(q),
{
    lemma_encoded_shape(m);
    let e = encoded(m);
    if q.len() >= CORA_HEADER_SIZE {
        assert(q[12] == e[12] && q[13] == e[13] && q[14] == e[14] && q[15] == e[15]);
        assert(announced_length(q) == announced_length(e));
    }
}

/// A buffer that starts with an encoded message holds a whole message, the
/// encoded one.
proof fn lemma_frame_at_front(m: CoraMessage, b: Seq<u8>)
    requires
        m.payload@.len() <= u32::MAX,
        b.len() >= encoded(m).len(),
        b.take(encoded(m).len() as int) == encoded(m),
    ensures
        holds_frame(b),
        CORA_HEADER_SIZE + announced_length(b) == encoded(m).len(),
        b.take(CORA_HEADER_SIZE + announced_length(b)) == encoded(m),
{
    lemma_encoded_shape(m);
    let e = encoded(m);
    assert(b[12] == e[12] && b[13] == e[13] && b[14] == e[14] && b[15] == e[15]);
    assert(announced_length(b) == announced_length(e));
}

/// Reading chunks into a buffer that, with the chunks, starts with an encoded
/// message stops exactly when the buffer holds it: the buffer then starts with
/// it, and no byte is lost.
proof fn lemma_fill_reaches_frame(m: CoraMessage, b: Seq<u8>, chunks: Seq<Seq<u8>>)
    requires
        m.payload@.len() <= u32::MAX,
        (b + chunks.flatten()).len() >= encoded(m).len(),
        (b + chunks.flatten()).take(encoded(m).len() as int) == encoded(m),
    ensures
        filled(b, chunks).1 <= chunks.len(),
        filled(b, chunks).0 + chunks.skip(filled(b, chunks).1 as int).flatten() == b + chunks.flatten(),
        filled(b, chunks).0.len() >= encoded(m).len(),
        filled(b, chunks).0.take(encoded(m).len() as int) == encoded(m),
        holds_frame(filled(b, chunks).0),
    decreases chunks.len(),
{
    let e = encoded(m);
    let all = b + chunks.flatten();
    if b.len() >= e.len() {
        assert(b.take(e.len() as int) =~= all.take(e.len() as int));
        lemma_frame_at_front(m, b);
        assert(chunks.skip(0) =~= chunks);
    } else {
        assert(b =~= all.take(b.len() as int));
        assert(b =~= e.take(b.len() as int));
        lemma_prefix_holds_no_frame(m, b);
        if chunks.len() == 0 {
            assert(chunks.flatten() =~= Seq::<u8>::empty());
            assert(all =~= b);
        } else {
            let c = chunks[0];
            let rest = chunks.drop_first();
            assert(chunks.flatten() == c + rest.flatten());
            assert((b + c) + rest.flatten() =~= all);
            lemma_fill_reaches_frame(m, b + c, rest);
            let n = filled(b + c, rest).1;
            assert(rest.skip(n as int) =~= chunks.skip(n + 1int));
        }
    }
}

/// A non-empty sequence of non-empty chunks flattens to a non-empty sequence.
proof fn lemma_nonempty_chunks_flatten(chunks: Seq<Seq<u8>>)
    requires
        chunks.len() > 0,
        forall|i: int| 0 <= i < chunks.len() ==> #[trigger] chunks[i].len() > 0,
    ensures
        chunks.flatten().len() > 0,
{
    assert(chunks.flatten() == chunks[0] + chunks.drop_first().flatten());
}

/// Two messages sent one after the other reach a client intact however the
/// stream cuts them into chunks. Starting from an empty receive buffer, one
/// read (resynchronise, read chunks until a whole message is held, take the
/// message off the front) takes exactly the first encoded message and keeps
/// the bytes read past it; the next read takes exactly the second, uses up
/// every chunk and leaves the buffer empty. Each taken message decodes to the
/// flags, operation, id and payload that were encoded.
pub proof fn lemma_two_reads(m1: CoraMessage, m2: CoraMessage, chunks: Seq<Seq<u8>>)
    requires
        m1.payload@.len() <= u32::MAX,
        m2.payload@.len() <= u32::MAX,
        chunks.flatten() == encoded(m1) + encoded(m2),
        forall|i: int| 0 <= i < chunks.len() ==> #[trigger] chunks[i].len() > 0,
    ensures
        ({
            let (b1, n1) = filled(resynced(Seq::empty()), chunks);
            let len1 = CORA_HEADER_SIZE + announced_length(b1);
            let (b2, n2) = filled(resynced(b1.skip(len1)), chunks.skip(n1 as int));
            let len2 = CORA_HEADER_SIZE + announced_length(b2);
            &&& holds_frame(b1)
            &&& b1.take(len1) == encoded(m1)
            &&& holds_frame(b2)
            &&& b2.take(len2) == encoded(m2)
            &&& b2.skip(len2) == Seq::<u8>::empty()
            &&& n1 + n2 == chunks.len()
        }),
        decode_error(encoded(m1)) is None,
        decode_error(encoded(m2)) is None,
        forall|d: CoraMessage| #[trigger] decoded_message(encoded(m1), d) ==> {
            &&& d.flags == m1.flags
            &&& d.hid_op == m1.hid_op
            &&& d.message_id == m1.message_id
            &&& d.payload@ == m1.payload@
        },
        forall|d: CoraMessage| #[trigger] decoded_message(encoded(m2), d) ==> {
            &&& d.flags == m2.flags
            &&& d.hid_op == m2.hid_op
            &&& d.message_id == m2.message_id
            &&& d.payload@ == m2.payload@
        },
{
    let e1 = encoded(m1);
    let e2 = encoded(m2);
    let empty = Seq::<u8>::empty();
    assert(resynced(empty) == empty);
    assert(empty + chunks.flatten() =~= e1 + e2);
    assert((e1 + e2).take(e1.len() as int) =~= e1);
    lemma_fill_reaches_frame(m1, empty, chunks);
    let (b1, n1) = filled(empty, chunks);
    lemma_frame_at_front(m1, b1);
    let len1 = CORA_HEADER_SIZE + announced_length(b1);
    let r1 = b1.skip(len1);
    let later = chunks.skip(n1 as int);
    assert(b1 + later.flatten() == empty + chunks.flatten());
    assert(b1 =~= e1 + r1);
    assert(r1 + later.flatten() =~= e2) by {
        assert((e1 + r1) + later.flatten() =~= e1 + (r1 + later.flatten()));
        assert((e1 + (r1 + later.flatten())).skip(e1.len() as int) =~= r1 + later.flatten());
        assert((e1 + e2).skip(e1.len() as int) =~= e2);
    }
    lemma_encoded_shape(m2);
    if r1.len() >= 4 {
        assert(r1.subrange(0, 4) =~= e2.take(4)) by {
            assert(r1 =~= (r1 + later.flatten()).take(r1.len() as int));
        }
        assert(magic_at(r1, 0));
        assert(first_magic(r1) == Some(0int));
        assert(r1.skip(0) =~= r1);
    }
    assert(resynced(r1) == r1);
    assert((r1 + later.flatten()).take(e2.len() as int) =~= e2);
    lemma_fill_reaches_frame(m2, r1, later);
    let (b2, n2) = filled(r1, later);
    lemma_frame_at_front(m2, b2);
    let len2 = CORA_HEADER_SIZE + announced_length(b2);
    let tail = later.skip(n2 as int);
    assert(b2 + tail.flatten() == e2);
    assert(b2 =~= e2) by {
        assert(b2 =~= (b2 + tail.flatten()).take(b2.len() as int));
    }
    assert(tail.flatten() =~= Seq::<u8>::empty()) by {
        assert((b2 + tail.flatten()).len() == e2.len());
    }
    if tail.len() > 0 {
        assert forall|i: int| 0 <= i < tail.len() implies #[trigger] tail[i].len() > 0 by {
            assert(tail[i] == chunks[i + n1 + n2]);
        }
        lemma_nonempty_chunks_flatten(tail);
    }
    assert(b2.skip(len2) =~= empty);
    lemma_client_frames_encoded(m1, r1);
    lemma_client_frames_encoded(m2, empty);
}

/// The serial number an emulated device reports (report 0x84, the UTF-8 bytes
/// of its serial number) is read back by the client as exactly that serial
/// number, when it is not empty and its bytes fit the 16-bit length field.
pub proof fn lemma_serial_report_round_trip(serial: Seq<char>, message_id: u32, response: CoraMessage)
    requires
        is_report_response(response, message_id, 0x84u8, utf8(serial)),
        0 < utf8(serial).len() <= 65535,
    ensures
        cora_serial_bytes(response) == Some(utf8(serial)),
        vstd::utf8::valid_utf8(utf8(serial)),
        vstd::utf8::decode_utf8(utf8(serial)) == serial,
{
    let d = utf8(serial);
    let p = response.payload@;
    assert(p == report_response(0x84u8, d));
    assert(d.take(d.len() as int) =~= d);
    assert(be16(p[2], p[3]) == d.len()) by {
        let n = d.len() as u16;
        assert(n as int == d.len());
    }
    assert(p.subrange(4, 4 + d.len() as int) =~= d);
    vstd::utf8::encode_utf8_valid_utf8(serial);
    vstd::utf8::encode_utf8_decode_utf8(serial);
}

/// No button before `i` is pressed in a button event payload for button `i`.
proof fn lemma_first_pressed(index: u8, pressed: bool, j: nat)
    requires
        index < 32,
        j <= index,
    ensures
        first_pressed_button(padded(button_payload(index, pressed)), j) == (if pressed {
            Some(index)
        } else {
            None::<u8>
        }),
    decreases 32 - j,
{
    let p = padded(button_payload(index, pressed));
    if j < index {
        lemma_first_pressed(index, pressed, j + 1);
    } else if !pressed {
        lemma_none_pressed(p, j);
    }
}

/// No button at or after `j` is pressed when their state bytes are not 1.
proof fn lemma_none_pressed(p: Seq<u8>, j: nat)
    requires
        forall|k: int| 4 + j <= k < 36 && k < p.len() ==> p[k] != 1u8,
    ensures
        first_pressed_button(p, j) is None,
    decreases 32 - j,
{
    if j < 32 {
        lemma_none_pressed(p, j + 1);
    }
}

/// The button event an emulated device sends (zero padded to a raw packet)
/// decodes to a press of that button; a release decodes to no event (the
/// decoder reports pressed buttons only).
pub proof fn lemma_button_event_decodes(index: u8, pressed: bool)
    requires
        index < 32,
    ensures
        decode_plain(padded(button_payload(index, pressed))) == Ok::<Option<Event>, crate::protocol::error::Error>(
            if pressed { Some(Event::Button { index, pressed: true }) } else { None },
        ),
{
    lemma_first_pressed(index, pressed, 0);
}

/// An encoder rotation event decodes to the rotation by the same delta (no
/// event for a zero delta), and an encoder press event to the press (no event
/// for a release).
pub proof fn lemma_encoder_events_decode(index: u8, delta: i8, pressed: bool)
    requires
        index < 2,
    ensures
        decode_plain(padded(rotate_payload(index, delta))) == Ok::<Option<Event>, crate::protocol::error::Error>(
            if delta != 0 { Some(Event::EncoderRotate { encoder_index: index, delta }) } else { None },
        ),
        decode_plain(padded(press_payload(index, pressed))) == Ok::<Option<Event>, crate::protocol::error::Error>(
            if pressed { Some(Event::EncoderPress { encoder_index: index, pressed: true }) } else { None },
        ),
{
    assert((delta as u8) as i8 == delta) by (bit_vector);
    assert(delta != 0 ==> (delta as u8) != 0u8) by (bit_vector);
}

/// A coordinate written as two little-endian bytes reads back unchanged.
proof fn lemma_le16_bytes(v: u16)
    ensures
        le16(lo_byte(v), hi_byte(v)) == v,
{
}

/// A tap or press touch event decodes to that touch at the same point, and a
/// swipe with an end point decodes to the swipe between the same points.
pub proof fn lemma_touch_event_decodes(touch_type: u8, x: u16, y: u16, end_x: Option<u16>, end_y: Option<u16>)
    requires
        touch_type == 1 || touch_type == 2 || (touch_type == 3 && end_x is Some && end_y is Some),
    ensures
        decode_plain(padded(touch_payload_spec(touch_type, x, y, end_x, end_y))) == Ok::<
            Option<Event>,
            crate::protocol::error::Error,
        >(
            Some(
                if touch_type == 1 {
                    Event::Touch { touch_type: TouchType::Tap, x, y, end_x: None, end_y: None }
                } else if touch_type == 2 {
                    Event::Touch { touch_type: TouchType::Press, x, y, end_x: None, end_y: None }
                } else {
                    Event::Touch { touch_type: TouchType::Swipe, x, y, end_x, end_y }
                },
            ),
        ),
{
    lemma_le16_bytes(x);
    lemma_le16_bytes(y);
    if touch_type == 3 {
        lemma_le16_bytes(end_x->0);
        lemma_le16_bytes(end_y->0);
    }
}

/// The button images an emulated device holds after it receives the given
/// write payloads in order.
pub open spec fn stored_after(images: Seq<Option<Seq<u8>>>, payloads: Seq<Seq<u8>>) -> Seq<Option<Seq<u8>>>
    decreases payloads.len(),
{
    if payloads.len() == 0 {
        images
    } else {
        images_after_write(stored_after(images, payloads.drop_last()), payloads.last())
    }
}

/// The bytes of each packet.
pub open spec fn packet_views(pages: Seq<[u8; PACKET_SIZE]>) -> Seq<Seq<u8>> {
    Seq::new(pages.len(), |i: int| pages[i]@)
}

/// What a button image page holds, read the way an emulated device reads it.
proof fn lemma_button_page_fields(button_index: u8, is_last: bool, page: int, data: Seq<u8>)
    requires
        0 <= page < 65536,
        data.len() <= BUTTON_CHUNK,
    ensures
        ({
            let p = padded(button_image_prefix(button_index, is_last, page as u16, data));
            &&& is_image_write(p) <== button_index < 32
            &&& p[2] == button_index
            &&& le16(p[6], p[7]) == page
            &&& written_image_bytes(p) == data
        }),
{
    let p = padded(button_image_prefix(button_index, is_last, page as u16, data));
    let pre = button_image_prefix(button_index, is_last, page as u16, data);
    assert(data.take(data.len() as int) =~= data);
    assert(pre.len() == 8 + data.len());
    assert(le16(lo_byte(data.len() as u16), hi_byte(data.len() as u16)) == data.len());
    assert(le16(lo_byte(page as u16), hi_byte(page as u16)) == page);
    assert(p.subrange(8, 8 + data.len() as int) =~= data);
}

/// Whether `payloads` write the chunks of `jpeg` to a button, page by page.
pub open spec fn writes_chunks(button_index: u8, jpeg: Seq<u8>, payloads: Seq<Seq<u8>>) -> bool {
    &&& payloads.len() == chunk_count(jpeg.len(), BUTTON_CHUNK as nat)
    &&& forall|i: int|
        0 <= i < payloads.len() ==> {
            &&& is_image_write(#[trigger] payloads[i])
            &&& payloads[i][2] == button_index
            &&& le16(payloads[i][6], payloads[i][7]) == i
            &&& written_image_bytes(payloads[i]) == chunk(jpeg, BUTTON_CHUNK as nat, i)
        }
}

/// After the first `k` pages of an image are written to a button, the button
/// holds the first `k` chunks of the image.
proof fn lemma_pages_stored_prefix(
    images: Seq<Option<Seq<u8>>>,
    button_index: u8,
    jpeg: Seq<u8>,
    payloads: Seq<Seq<u8>>,
    k: int,
)
    requires
        images.len() == 32,
        button_index < 32,
        writes_chunks(button_index, jpeg, payloads),
        1 <= k <= payloads.len(),
    ensures
        stored_after(images, payloads.take(k)) == images.update(
            button_index as int,
            Some(jpeg.take(if k * BUTTON_CHUNK < jpeg.len() { k * BUTTON_CHUNK } else { jpeg.len() as int })),
        ),
    decreases k,
{
    let size = BUTTON_CHUNK as nat;
    let i = k - 1;
    lemma_chunk_bounds(jpeg.len(), size, i);
    let p = payloads[i];
    assert(is_image_write(p));
    assert(payloads.take(k).last() == p);
    assert(payloads.take(k).drop_last() =~= payloads.take(i));
    assert(i * size + size == k * size) by (nonlinear_arith)
        requires
            i == k - 1,
    ;
    let end = if k * BUTTON_CHUNK < jpeg.len() { k * BUTTON_CHUNK } else { jpeg.len() as int };
    let prev = stored_after(images, payloads.take(i));
    assert(stored_after(images, payloads.take(k)) == images_after_write(prev, p));
    assert(written_image_bytes(p) == chunk(jpeg, size, i));
    assert(p[2] == button_index);
    assert(le16(p[6], p[7]) == i);
    if k == 1 {
        assert(payloads.take(0) =~= Seq::<Seq<u8>>::empty());
        assert(prev == images);
        assert(chunk(jpeg, size, 0) =~= jpeg.take(end));
    } else {
        lemma_pages_stored_prefix(images, button_index, jpeg, payloads, i);
        let before = i * BUTTON_CHUNK;
        assert(prev[button_index as int] == Some(jpeg.take(before)));
        assert(chunk(jpeg, size, i) =~= jpeg.subrange(before, end));
        assert(jpeg.take(before) + jpeg.subrange(before, end) =~= jpeg.take(end));
        assert(images.update(button_index as int, Some(jpeg.take(before))).update(
            button_index as int,
            Some(jpeg.take(end)),
        ) =~= images.update(button_index as int, Some(jpeg.take(end))));
    }
}

/// The pages that send a JPEG to a button write its chunks in order.
proof fn lemma_button_pages_write_chunks(button_index: u8, jpeg: Seq<u8>, pages: Seq<[u8; PACKET_SIZE]>)
    requires
        button_index < 32,
        chunk_count(jpeg.len(), BUTTON_CHUNK as nat) <= 65536,
        button_pages(button_index, jpeg, pages),
    ensures
        writes_chunks(button_index, jpeg, packet_views(pages)),
{
    let n = pages.len();
    let size = BUTTON_CHUNK as nat;
    let views = packet_views(pages);
    assert forall|i: int| 0 <= i < views.len() implies {
        &&& is_image_write(#[trigger] views[i])
        &&& views[i][2] == button_index
        &&& le16(views[i][6], views[i][7]) == i
        &&& written_image_bytes(views[i]) == chunk(jpeg, size, i)
    } by {
        lemma_chunk_bounds(jpeg.len(), size, i);
        lemma_button_page_fields(button_index, i == n - 1, i, chunk(jpeg, size, i));
    }
}

/// A button image sent in pages is stored whole: when an emulated device
/// receives, in order, the pages that send a (non-empty) JPEG to a button, that
/// button then holds exactly the JPEG and every other button is unchanged,
/// whatever the button held before (for images of at most 65536 pages, whose
/// page numbers fit the 16-bit field).
pub proof fn lemma_button_image_stored(
    images: Seq<Option<Seq<u8>>>,
    button_index: u8,
    jpeg: Seq<u8>,
    pages: Seq<[u8; PACKET_SIZE]>,
)
    requires
        images.len() == 32,
        button_index < 32,
        jpeg.len() > 0,
        chunk_count(jpeg.len(), BUTTON_CHUNK as nat) <= 65536,
        button_pages(button_index, jpeg, pages),
    ensures
        forall|i: int| 0 <= i < pages.len() ==> is_image_write(#[trigger] pages[i]@),
        stored_after(images, packet_views(pages)) == images.update(button_index as int, Some(jpeg)),
{
    let n = pages.len();
    let size = BUTTON_CHUNK as nat;
    let views = packet_views(pages);
    lemma_button_pages_write_chunks(button_index, jpeg, pages);
    assert forall|i: int| 0 <= i < pages.len() implies is_image_write(#[trigger] pages[i]@) by {
        assert(views[i] == pages[i]@);
    }
    lemma_chunk_bounds(jpeg.len(), size, 0);
    lemma_pages_stored_prefix(images, button_index, jpeg, views, n as int);
    assert(views.take(n as int) =~= views);
    lemma_chunk_bounds(jpeg.len(), size, n - 1);
    assert(jpeg.take(jpeg.len() as int) =~= jpeg);
}

/// The image bytes that a display area page announces and carries: from
/// offset 16, as many as its length field (bytes 13-14) says.
pub open spec fn display_page_data(p: Seq<u8>) -> Seq<u8> {
    p.subrange(16, 16 + le16(p[13], p[14]) as int)
}

/// What a display area page holds.
proof fn lemma_display_page_data(
    x: u16,
    y: u16,
    width: u16,
    height: u16,
    is_last: bool,
    page: int,
    data: Seq<u8>,
)
    requires
        data.len() <= DISPLAY_CHUNK,
    ensures
        display_page_data(padded(display_area_prefix(x, y, width, height, is_last, page as u16, data))) == data,
{
    let p = padded(display_area_prefix(x, y, width, height, is_last, page as u16, data));
    assert(data.take(data.len() as int) =~= data);
    assert(le16(lo_byte(data.len() as u16), hi_byte(data.len() as u16)) == data.len());
    assert(p.subrange(16, 16 + data.len() as int) =~= data);
}

/// The pages that send a JPEG to a display area region carry it whole and in
/// order: the data that the pages announce, joined, is the JPEG.
pub proof fn lemma_display_pages_carry_image(
    x: u16,
    y: u16,
    width: u16,
    height: u16,
    jpeg: Seq<u8>,
    pages: Seq<[u8; PACKET_SIZE]>,
)
    requires
        display_pages(x, y, width, height, jpeg, pages),
    ensures
        Seq::new(pages.len(), |i: int| display_page_data(pages[i]@)).flatten() == jpeg,
{
    let n = pages.len();
    let size = DISPLAY_CHUNK as nat;
    let carried = Seq::new(n, |i: int| display_page_data(pages[i]@));
    assert forall|i: int| 0 <= i < n implies #[trigger] carried[i] == chunk(jpeg, size, i) by {
        lemma_chunk_bounds(jpeg.len(), size, i);
        lemma_display_page_data(x, y, width, height, i == n - 1, i, chunk(jpeg, size, i));
    }
    lemma_split_joins(jpeg, size, carried);
}

/// Every button image page names its button and its place: page `i` of `n`
/// holds 0x02 0x07, the button index, 1 exactly on the last page, a full
/// 1016 image bytes on every page but the last, and its page number `i`
/// little endian at bytes 6-7 (the page number is 16 bits wide: below 65536
/// pages it is `i` itself).
pub proof fn lemma_button_page_numbers(button_index: u8, jpeg: Seq<u8>, pages: Seq<[u8; PACKET_SIZE]>)
    requires
        button_pages(button_index, jpeg, pages),
    ensures
        forall|i: int| 0 <= i < pages.len() ==> {
            &&& (#[trigger] pages[i])@[0] == 0x02u8
            &&& pages[i]@[1] == 0x07u8
            &&& pages[i]@[2] == button_index
            &&& pages[i]@[3] == (if i == pages.len() - 1 { 1u8 } else { 0u8 })
            &&& i < 65536 ==> pages[i]@[6] as int + 256 * pages[i]@[7] as int == i
            &&& i < pages.len() - 1 ==> pages[i]@[4] as int + 256 * pages[i]@[5] as int == 1016
        },
{
    let n = pages.len();
    assert forall|i: int| 0 <= i < n implies {
        &&& (#[trigger] pages[i])@[0] == 0x02u8
        &&& pages[i]@[1] == 0x07u8
        &&& pages[i]@[2] == button_index
        &&& pages[i]@[3] == (if i == n - 1 { 1u8 } else { 0u8 })
        &&& i < 65536 ==> pages[i]@[6] as int + 256 * pages[i]@[7] as int == i
        &&& i < n - 1 ==> pages[i]@[4] as int + 256 * pages[i]@[5] as int == 1016
    } by {
        if i < n - 1 {
            lemma_chunk_bounds(jpeg.len(), BUTTON_CHUNK as nat, i + 1);
            assert((i + 1) * 1016 == i * 1016 + 1016) by (nonlinear_arith);
        }
        lemma_button_prefix_bytes(button_index, i == n - 1, i as u16, chunk(jpeg, BUTTON_CHUNK as nat, i));
        assert(pages[i]@ == padded(
            button_image_prefix(button_index, i == n - 1, i as u16, chunk(jpeg, BUTTON_CHUNK as nat, i)),
        ));
    }
}

/// Every display area page names its region and its place: page `i` of `n`
/// holds 0x02 0x0c, x, y, width and height little endian, 1 exactly on the
/// last page, a full 1008 image bytes on every page but the last, and its
/// page number `i` little endian at bytes 11-12 (the page number is 16 bits
/// wide: below 65536 pages it is `i` itself).
pub proof fn lemma_display_page_numbers(
    x: u16,
    y: u16,
    width: u16,
    height: u16,
    jpeg: Seq<u8>,
    pages: Seq<[u8; PACKET_SIZE]>,
)
    requires
        display_pages(x, y, width, height, jpeg, pages),
    ensures
        forall|i: int| 0 <= i < pages.len() ==> {
            &&& (#[trigger] pages[i])@[0] == 0x02u8
            &&& pages[i]@[1] == 0x0cu8
            &&& pages[i]@[2] as int + 256 * pages[i]@[3] as int == x as int
            &&& pages[i]@[4] as int + 256 * pages[i]@[5] as int == y as int
            &&& pages[i]@[6] as int + 256 * pages[i]@[7] as int == width as int
            &&& pages[i]@[8] as int + 256 * pages[i]@[9] as int == height as int
            &&& pages[i]@[10] == (if i == pages.len() - 1 { 1u8 } else { 0u8 })
            &&& i < 65536 ==> pages[i]@[11] as int + 256 * pages[i]@[12] as int == i
            &&& i < pages.len() - 1 ==> pages[i]@[13] as int + 256 * pages[i]@[14] as int == 1008
        },
{
    let n = pages.len();
    assert forall|i: int| 0 <= i < n implies {
        &&& (#[trigger] pages[i])@[0] == 0x02u8
        &&& pages[i]@[1] == 0x0cu8
        &&& pages[i]@[2] as int + 256 * pages[i]@[3] as int == x as int
        &&& pages[i]@[4] as int + 256 * pages[i]@[5] as int == y as int
        &&& pages[i]@[6] as int + 256 * pages[i]@[7] as int == width as int
        &&& pages[i]@[8] as int + 256 * pages[i]@[9] as int == height as int
        &&& pages[i]@[10] == (if i == n - 1 { 1u8 } else { 0u8 })
        &&& i < 65536 ==> pages[i]@[11] as int + 256 * pages[i]@[12] as int == i
        &&& i < n - 1 ==> pages[i]@[13] as int + 256 * pages[i]@[14] as int == 1008
    } by {
        if i < n - 1 {
            lemma_chunk_bounds(jpeg.len(), DISPLAY_CHUNK as nat, i + 1);
            assert((i + 1) * 1008 == i * 1008 + 1008) by (nonlinear_arith);
        }
        lemma_display_prefix_bytes(x, y, width, height, i == n - 1, i as u16, chunk(jpeg, DISPLAY_CHUNK as nat, i));
        assert(pages[i]@ == padded(
            display_area_prefix(x, y, width, height, i == n - 1, i as u16, chunk(jpeg, DISPLAY_CHUNK as nat, i)),
        ));
    }
}

/// An encoder color packet that a client sends (as a WRITE without flags) is
/// neither a report request nor a keep-alive acknowledgement to an emulated
/// Studio or NetworkDock, and sets the color of the encoder it names to its red,
/// green and blue, leaving the other encoder and the rest of the state as they were.
pub proof fn lemma_encoder_color_applied(
    encoder_index: u8,
    r: u8,
    g: u8,
    b: u8,
    m: CoraMessage,
    so: studio::DeviceState,
    sn: studio::DeviceState,
    now_secs: u64,
    o: networkdock::DeviceState,
    n: networkdock::DeviceState,
)
    requires
        encoder_index < 2,
        m.flags == CoraMessageFlags::NoFlags,
        m.hid_op == CoraHidOp::Write,
        m.payload@ == command_packet(Command::SetEncoderColor { encoder_index, r, g, b }),
    ensures
        report_request(m.payload@, m.flags) is None,
        !is_keep_alive_ack(m.payload@),
        networkdock::answered_request(o, m.payload@) is None,
        studio::command_applied(so, sn, m, now_secs) ==> {
            &&& sn.encoder_colors@[encoder_index as int] == (r, g, b)
            &&& sn.encoder_colors@[1 - encoder_index] == so.encoder_colors@[1 - encoder_index]
            &&& sn.button_images == so.button_images
            &&& sn.brightness == so.brightness
            &&& sn.serial_number == so.serial_number
            &&& sn.button_states == so.button_states
            &&& sn.device2_connected == so.device2_connected
        },
        networkdock::command_applied(o, n, m) ==> {
            &&& n.encoder_colors@[encoder_index as int] == (r, g, b)
            &&& n.encoder_colors@[1 - encoder_index] == o.encoder_colors@[1 - encoder_index]
            &&& n.button_images == o.button_images
            &&& n.brightness == o.brightness
            &&& n.serial_number == o.serial_number
            &&& n.device2_connected == o.device2_connected
        },
{
    lemma_fixed_command_bytes(0, encoder_index, r, g, b);
    let p = m.payload@;
    assert(p[0] == 0x02u8 && p[1] == 0x10u8 && p[2] == encoder_index && p[3] == r && p[4] == g && p[5] == b);
}

/// Every emulated device identifies as a primary-port device: it answers the
/// primary port information request (0x80) with Elgato's vendor id and its
/// product id (0x00aa for a Studio, 0xffff for a NetworkDock) and does not
/// answer the secondary port request (0x08).
pub proof fn lemma_primary_port_identification(
    studio_state: studio::DeviceState,
    dock_state: networkdock::DeviceState,
    managed_state: manager::DeviceState,
)
    ensures
        studio::report_answer(studio_state, 0x80) == Some(
            primary_port_info(VENDOR_ID, STUDIO_PRODUCT_ID),
        ),
        studio::report_answer(studio_state, 0x08) is None,
        networkdock::report_data(dock_state, 0x80) == Some(
            primary_port_info(VENDOR_ID, NETWORKDOCK_PORT_PRODUCT_ID),
        ),
        networkdock::report_data(dock_state, 0x08) is None,
        manager::report_answer(managed_state, 0x80) == Some(
            primary_port_info(VENDOR_ID, STUDIO_PRODUCT_ID),
        ),
        manager::report_answer(managed_state, 0x08) is None,
        forall|v: u16, p: u16| #[trigger] primary_port_info(v, p).subrange(8, 12) == le16_bytes(v) + le16_bytes(p),
{
    assert forall|v: u16, p: u16| #[trigger] primary_port_info(v, p).subrange(8, 12) == le16_bytes(v) + le16_bytes(p) by {
        assert(primary_port_info(v, p).subrange(8, 12) =~= le16_bytes(v) + le16_bytes(p));
    }
}

} // verus!
