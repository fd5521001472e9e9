//! Event decoding: packets received from a Stream Deck Studio.

use vstd::prelude::*;
use crate::protocol::error::Error;
use crate::protocol::packet::{PacketReader, le16};

verus! {

/// Events that the device reports.
#[derive(Debug, Clone, PartialEq)]
pub enum Event {
    /// Button press event (0x01 0x00); `index` is 0-31.
    Button { index: u8, pressed: bool },
    /// Encoder rotation event (0x01 0x03, subtype 0x01); `delta` is signed.
    EncoderRotate { encoder_index: u8, delta: i8 },
    /// Encoder press event (0x01 0x03, subtype 0x00).
    EncoderPress { encoder_index: u8, pressed: bool },
    /// Touch event (0x01 0x02); swipes carry an end point.
    Touch { touch_type: TouchType, x: u16, y: u16, end_x: Option<u16>, end_y: Option<u16> },
    /// NFC event (0x01 0x04) with the tag data.
    Nfc { data: Vec<u8> },
    /// Keep-alive request from the device (0x01 0x0a).
    KeepAlive,
}

/// Touch gestures.
#[derive(Debug, Clone, Copy, PartialEq, Eq, Structural)]
pub enum TouchType {
    /// Single tap.
    Tap,
    /// Press and hold.
    Press,
    /// Swipe gesture.
    Swipe,
}

/// Number of button state bytes in a button event.
pub const BUTTON_COUNT: u8 = 32;

/// The first button at or after `i` whose state byte is `1`.
pub open spec fn first_pressed_button(p: Seq<u8>, i: nat) -> Option<u8>
    decreases 32 - i,
{
    if i >= 32 {
        None
    } else if 4 + i < p.len() && p[4 + i as int] == 1u8 {
        Some(i as u8)
    } else {
        first_pressed_button(p, i + 1)
    }
}

/// The event a button packet reports: the first pressed button, if any.
pub open spec fn button_event(p: Seq<u8>) -> Option<Event> {
    match first_pressed_button(p, 0) {
        Some(i) => Some(Event::Button { index: i, pressed: true }),
        None => None,
    }
}

/// The event an encoder packet (at least 9 bytes) reports.
pub open spec fn encoder_event(p: Seq<u8>) -> Result<Option<Event>, Error> {
    if p[4] == 0u8 {
        if p[5] == 1u8 {
            Ok(Some(Event::EncoderPress { encoder_index: 0, pressed: true }))
        } else if p[6] == 1u8 {
            Ok(Some(Event::EncoderPress { encoder_index: 1, pressed: true }))
        } else {
            Ok(None)
        }
    } else if p[4] == 1u8 {
        if p[5] != 0u8 {
            Ok(Some(Event::EncoderRotate { encoder_index: 0, delta: p[5] as i8 }))
        } else if p[6] != 0u8 {
            Ok(Some(Event::EncoderRotate { encoder_index: 1, delta: p[6] as i8 }))
        } else {
            Ok(None)
        }
    } else {
        Err(Error::Protocol("Unknown encoder event subtype"))
    }
}

/// The event a touch packet reports.
pub open spec fn touch_event(p: Seq<u8>) -> Result<Option<Event>, Error> {
    if p.len() < 10 {
        Err(Error::Protocol("Touch event packet too short"))
    } else if p[4] != 1u8 && p[4] != 2u8 && p[4] != 3u8 {
        Err(Error::Protocol("Unknown touch type"))
    } else {
        let x = le16(p[6], p[7]);
        let y = le16(p[8], p[9]);
        if p[4] == 1u8 {
            Ok(Some(Event::Touch { touch_type: TouchType::Tap, x, y, end_x: None, end_y: None }))
        } else if p[4] == 2u8 {
            Ok(Some(Event::Touch { touch_type: TouchType::Press, x, y, end_x: None, end_y: None }))
        } else if p.len() < 14 {
            Err(Error::Protocol("Swipe event packet too short"))
        } else {
            Ok(Some(Event::Touch {
                touch_type: TouchType::Swipe,
                x,
                y,
                end_x: Some(le16(p[10], p[11])),
                end_y: Some(le16(p[12], p[13])),
            }))
        }
    }
}

/// Whether a packet is an NFC event (these carry data and are described apart).
pub open spec fn is_nfc_packet(p: Seq<u8>) -> bool {
    p.len() >= 2 && p[0] == 1u8 && p[1] == 4u8
}

/// The result of decoding a packet that is not an NFC event.
pub open spec fn decode_plain(p: Seq<u8>) -> Result<Option<Event>, Error> {
    if p.len() < 2 {
        Err(Error::Protocol("Packet too short"))
    } else if p[0] != 1u8 {
        Ok(None)
    } else if p[1] == 0u8 {
        Ok(button_event(p))
    } else if p[1] == 2u8 {
        touch_event(p)
    } else if p[1] == 3u8 {
        if p.len() < 9 {
            Err(Error::Protocol("Encoder event packet too short"))
        } else {
            encoder_event(p)
        }
    } else if p[1] == 0x0au8 {
        Ok(Some(Event::KeepAlive))
    } else {
        Ok(None)
    }
}

/// Length of the NFC data that an NFC packet (at least 4 bytes) announces.
pub open spec fn nfc_length(p: Seq<u8>) -> int {
    le16(p[2], p[3]) as int
}

/// Whether `r` is what decoding packet `p` gives.
pub open spec fn decodes_to(p: Seq<u8>, r: Result<Option<Event>, Error>) -> bool {
    if is_nfc_packet(p) {
        if p.len() < 4 {
            r == Err::<Option<Event>, Error>(Error::Protocol("Cannot read u16: packet too short"))
        } else if p.len() < 4 + nfc_length(p) {
            r == Err::<Option<Event>, Error>(Error::Protocol("NFC event packet too short"))
        } else {
            r matches Ok(Some(Event::Nfc { data })) && data@ == p.subrange(4, 4 + nfc_length(p))
        }
    } else {
        r == decode_plain(p)
    }
}

/// Decoder for converting packets to events.
pub struct EventDecoder;

impl EventDecoder {
    /// Decode a packet into an event.
    ///
    /// `Ok(None)` means the packet is not an event (it does not start with 0x01),
    /// or is an event kind that carries nothing to report.
    pub fn decode(packet: &[u8]) -> (r: Result<Option<Event>, Error>)
        ensures
            decodes_to(packet@, r),
    {
        let ghost p = packet@;
        if packet.len() < 2 {
            return Err(Error::Protocol("Packet too short"));
        }
        if packet[0] != 0x01 {
            return Ok(None);
        }
        match packet[1] {
            0x00 => {
                let mut i: u8 = 0;
                while i < BUTTON_COUNT
                    invariant
                        i <= 32,
                        p == packet@,
                        p.len() >= 2,
                        p[0] == 1u8,
                        p[1] == 0u8,
                        first_pressed_button(p, 0) == first_pressed_button(p, i as nat),
                    decreases 32 - i,
                {
                    let offset = 4 + i as usize;
                    if offset < packet.len() && packet[offset] == 1 {
                        return Ok(Some(Event::Button { index: i, pressed: true }));
                    }
                    i = i + 1;
                }
                assert(first_pressed_button(p, 32) == None::<u8>);
                Ok(None)
            },
            0x02 => {
                if packet.len() < 10 {
                    return Err(Error::Protocol("Touch event packet too short"));
                }
                let touch_type = match packet[4] {
                    0x01 => TouchType::Tap,
                    0x02 => TouchType::Press,
                    0x03 => TouchType::Swipe,
                    _ => {
                        return Err(Error::Protocol("Unknown touch type"));
                    },
                };
                let x = match PacketReader::read_u16_le(packet, 6) {
                    Ok(v) => v,
                    Err(e) => return Err(e),
                };
                let y = match PacketReader::read_u16_le(packet, 8) {
                    Ok(v) => v,
                    Err(e) => return Err(e),
                };
                let (end_x, end_y) = match touch_type {
                    TouchType::Swipe => {
                        if packet.len() < 14 {
                            return Err(Error::Protocol("Swipe event packet too short"));
                        }
                        let ex = match PacketReader::read_u16_le(packet, 10) {
                            Ok(v) => v,
                            Err(e) => return Err(e),
                        };
                        let ey = match PacketReader::read_u16_le(packet, 12) {
                            Ok(v) => v,
                            Err(e) => return Err(e),
                        };
                        (Some(ex), Some(ey))
                    },
                    _ => (None, None),
                };
                assert(touch_event(p) == Ok::<Option<Event>, Error>(Some(Event::Touch { touch_type, x, y, end_x, end_y })));
                Ok(Some(Event::Touch { touch_type, x, y, end_x, end_y }))
            },
            0x03 => {
                if packet.len() < 9 {
                    return Err(Error::Protocol("Encoder event packet too short"));
                }
                match packet[4] {
                    0x00 => {
                        let mut i: u8 = 0;
                        while i < 2
                            invariant
                                i <= 2,
                                p == packet@,
                                p.len() >= 9,
                                p[0] == 1u8,
                                p[1] == 3u8,
                                p[4] == 0u8,
                                i >= 1 ==> p[5] != 1u8,
                                i >= 2 ==> p[6] != 1u8,
                            decreases 2 - i,
                        {
                            let offset = 5 + i as usize;
                            if packet[offset] == 1 {
                                assert(encoder_event(p) == Ok::<Option<Event>, Error>(Some(Event::EncoderPress { encoder_index: i, pressed: true })));
                                return Ok(Some(Event::EncoderPress { encoder_index: i, pressed: true }));
                            }
                            i = i + 1;
                        }
                        Ok(None)
                    },
                    0x01 => {
                        let mut i: u8 = 0;
                        while i < 2
                            invariant
                                i <= 2,
                                p == packet@,
                                p.len() >= 9,
                                p[0] == 1u8,
                                p[1] == 3u8,
                                p[4] == 1u8,
                                i >= 1 ==> p[5] == 0u8,
                                i >= 2 ==> p[6] == 0u8,
                            decreases 2 - i,
                        {
                            let offset = 5 + i as usize;
                            let value = packet[offset];
                            if value != 0 {
                                assert(encoder_event(p) == Ok::<Option<Event>, Error>(Some(Event::EncoderRotate { encoder_index: i, delta: value as i8 })));
                                return Ok(Some(Event::EncoderRotate { encoder_index: i, delta: value as i8 }));
                            }
                            i = i + 1;
                        }
                        Ok(None)
                    },
                    _ => Err(Error::Protocol("Unknown encoder event subtype")),
                }
            },
            0x04 => {
                let length = match PacketReader::read_u16_le(packet, 2) {
                    Ok(v) => v as usize,
                    Err(e) => return Err(e),
                };
                if packet.len() < 4 + length {
                    return Err(Error::Protocol("NFC event packet too short"));
                }
                let data = slice_to_vec_range(packet, 4, 4 + length);
                assert(data@ == p.subrange(4, 4 + nfc_length(p)));
                Ok(Some(Event::Nfc { data }))
            },
            0x0a => Ok(Some(Event::KeepAlive)),
            _ => Ok(None),
        }
    }

    /// Decode a packet, copying NFC data into `nfc_buffer` instead of allocating.
    ///
    /// For an NFC packet the data goes to the start of `nfc_buffer` and the
    /// result is an NFC event with no data of its own (nothing is allocated)
    /// paired with `Some(length)`; a missing buffer or one shorter than the
    /// data is an error. Other packets decode as `decode` does,
    /// paired with `None`.
    pub fn decode_to_buffer(packet: &[u8], nfc_buffer: Option<&mut [u8]>) -> (r: Result<Option<(Event, Option<usize>)>, Error>)
        ensures
            is_nfc_packet(packet@) && packet@.len() < 4 ==> r == Err::<Option<(Event, Option<usize>)>, Error>(
                Error::Protocol("Cannot read u16: packet too short"),
            ),
            is_nfc_packet(packet@) && packet@.len() >= 4 && packet@.len() < 4 + nfc_length(packet@)
                ==> r == Err::<Option<(Event, Option<usize>)>, Error>(Error::Protocol("NFC event packet too short")),
            is_nfc_packet(packet@) && packet@.len() >= 4 + nfc_length(packet@) ==> {
                match nfc_buffer {
                    None => r == Err::<Option<(Event, Option<usize>)>, Error>(
                        Error::InvalidParameter("NFC buffer required for NFC event"),
                    ),
                    Some(b) => if b@.len() < nfc_length(packet@) {
                        r == Err::<Option<(Event, Option<usize>)>, Error>(Error::BufferTooSmall)
                            && final(b)@ == b@
                    } else {
                        &&& r matches Ok(Some((Event::Nfc { data }, Some(n))))
                        &&& data@.len() == 0
                        &&& n == nfc_length(packet@)
                        &&& final(b)@ == packet@.subrange(4, 4 + nfc_length(packet@)) + b@.skip(
                            nfc_length(packet@),
                        )
                    },
                }
            },
            !is_nfc_packet(packet@) ==> match r {
                Ok(Some((e, n))) => n is None && decode_plain(packet@) == Ok::<Option<Event>, Error>(Some(e)),
                Ok(None) => decode_plain(packet@) == Ok::<Option<Event>, Error>(None),
                Err(e) => decode_plain(packet@) == Err::<Option<Event>, Error>(e),
            },
            !is_nfc_packet(packet@) ==> (nfc_buffer matches Some(b) ==> final(b)@ == b@),
    {
        if packet.len() < 2 {
            return Err(Error::Protocol("Packet too short"));
        }
        if packet[0] != 0x01 {
            return Ok(None);
        }
        if packet[1] == 0x04 {
            let length = match PacketReader::read_u16_le(packet, 2) {
                Ok(v) => v as usize,
                Err(e) => return Err(e),
            };
            if packet.len() < 4 + length {
                return Err(Error::Protocol("NFC event packet too short"));
            }
            match nfc_buffer {
                Some(buffer) => {
                    if buffer.len() < length {
                        return Err(Error::BufferTooSmall);
                    }
                    let ghost start = buffer@;
                    let mut i: usize = 0;
                    while i < length
                        invariant
                            i <= length,
                            length <= buffer@.len(),
                            4 + length <= packet@.len(),
                            packet@.len() <= usize::MAX,
                            buffer@.len() == start.len(),
                            forall|j: int| 0 <= j < i ==> buffer@[j] == packet@[4 + j],
                            forall|j: int| i <= j < buffer@.len() ==> buffer@[j] == start[j],
                        decreases length - i,
                    {
                        buffer[i] = packet[4 + i];
                        i = i + 1;
                    }
                    assert(buffer@ =~= packet@.subrange(4, 4 + length as int) + start.skip(length as int));
                    Ok(Some((Event::Nfc { data: Vec::new() }, Some(length))))
                },
                None => Err(Error::InvalidParameter("NFC buffer required for NFC event")),
            }
        } else {
            match EventDecoder::decode(packet) {
                Ok(Some(e)) => Ok(Some((e, None))),
                Ok(None) => Ok(None),
                Err(e) => Err(e),
            }
        }
    }
}

/// A copy of `s[from..to]`.
fn slice_to_vec_range(s: &[u8], from: usize, to: usize) -> (out: Vec<u8>)
    requires
        from <= to <= s@.len(),
    ensures
        out@ == s@.subrange(from as int, to as int),
{
    let mut out: Vec<u8> = Vec::new();
    let mut i = from;
    while i < to
        invariant
            from <= i <= to <= s@.len(),
            out@ == s@.subrange(from as int, i as int),
        decreases to - i,
    {
        out.push(s[i]);
        i = i + 1;
        assert(out@ =~= s@.subrange(from as int, i as int));
    }
    out
}

} // verus!
