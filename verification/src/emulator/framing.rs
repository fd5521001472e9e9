//! Reassembly of the messages that an emulated device receives.

use vstd::prelude::*;
use vstd::slice::slice_subrange;
use crate::cora_connection::{drop_front, frame_length};
use crate::protocol::cora::{
    CoraMessage, CORA_HEADER_SIZE, find_magic, first_magic, announced_length, decoded_message, decode_error,
    lemma_first_magic_from,
};

verus! {

/// What the receive buffer looks like after one framing step, and the message taken, if any.
pub open spec fn frame_step(b: Seq<u8>) -> (Seq<u8>, bool) {
    match first_magic(b) {
        None => (b.skip(b.len() - 3), false),
        Some(pos) => {
            let rest = b.skip(pos);
            if rest.len() < CORA_HEADER_SIZE || rest.len() < CORA_HEADER_SIZE + announced_length(rest) {
                (rest, false)
            } else {
                (rest.skip(CORA_HEADER_SIZE + announced_length(rest)), true)
            }
        },
    }
}

/// One framing step on a receive buffer holding at least a header's worth of bytes.
///
/// Bytes before the first magic are dropped (all but the last three when there
/// is no magic). When a whole message then starts the buffer, it is decoded,
/// removed and returned; otherwise `None` says that more bytes are needed.
pub fn next_frame(buffer: &mut Vec<u8>) -> (r: Option<CoraMessage>)
    requires
        old(buffer)@.len() >= CORA_HEADER_SIZE,
    ensures
        final(buffer)@ == frame_step(old(buffer)@).0,
        r is Some == frame_step(old(buffer)@).1,
        r matches Some(m) ==> ({
            let rest = old(buffer)@.skip(first_magic(old(buffer)@)->0);
            decoded_message(rest.take(CORA_HEADER_SIZE + announced_length(rest)), m)
        }),
{
    proof {
        lemma_first_magic_from(old(buffer)@, 0);
    }
    let pos = match find_magic(buffer.as_slice()) {
        Some(pos) => pos,
        None => {
            let n = buffer.len() - 3;
            drop_front(buffer, n);
            return None;
        },
    };
    drop_front(buffer, pos);
    if buffer.len() < CORA_HEADER_SIZE {
        return None;
    }
    let ghost rest = buffer@;
    let flen = frame_length(buffer.as_slice());
    if (buffer.len() as u64) < flen {
        return None;
    }
    let len = flen as usize;
    let frame = slice_subrange(buffer.as_slice(), 0, len);
    proof {
        assert(frame@ =~= rest.take(len as int));
        assert(rest.subrange(0, 4) =~= old(buffer)@.subrange(pos as int, pos + 4));
        assert(frame@.take(4) =~= rest.subrange(0, 4));
        assert(announced_length(frame@) == announced_length(rest));
        assert(decode_error(frame@) is None);
    }
    match CoraMessage::decode(frame) {
        Ok(m) => {
            drop_front(buffer, len);
            Some(m)
        },
        Err(_) => {
            // A frame that starts with the magic bytes and holds its whole
            // payload always decodes, so this arm is never taken.
            proof {
                assert(false);
            }
            None
        },
    }
}

} // verus!
