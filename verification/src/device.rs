//! Stream Deck Studio device operations over the raw 1024-byte packet protocol:
//! what each operation checks and which packets it sends.

use vstd::prelude::*;
use vstd::slice::slice_to_vec;
use crate::error::Error;
use crate::image::{
    ImageConverter, BUTTON_CHUNK, BUTTON_HEIGHT, BUTTON_WIDTH, DISPLAY_CHUNK, chunk, chunk_count, image_decodes, jpeg_of, jpeg_size, resample_fits,
    image_error_with_prefix, slice_views,
};
use crate::protocol::command::{
    Command, CommandEncoder, command_packet, button_image_prefix, display_area_prefix,
};
use crate::protocol::error::Error as CoreError;
use crate::protocol::event::{Event, EventDecoder, decodes_to};
use crate::protocol::packet::{PACKET_SIZE, padded};
use crate::text::{decimal, with_decimal};

verus! {

/// Number of buttons.
pub const BUTTON_COUNT: u8 = 32;
/// Number of encoders.
pub const ENCODER_COUNT: u8 = 2;
/// Highest brightness.
pub const MAX_BRIGHTNESS: u8 = 100;
/// Most colors of an encoder ring.
pub const RING_SIZE: usize = 24;

/// Whether `e` is an invalid-parameter error with text `text`.
pub open spec fn invalid_parameter(e: Error, text: Seq<char>) -> bool {
    e matches Error::InvalidParameter(s) && s@ == text
}

/// Whether `pages` are the button image packets that send `jpeg` to a button.
pub open spec fn button_pages(button_index: u8, jpeg: Seq<u8>, pages: Seq<[u8; PACKET_SIZE]>) -> bool {
    let n = chunk_count(jpeg.len(), BUTTON_CHUNK as nat);
    &&& pages.len() == n
    &&& forall|i: int| 0 <= i < n ==> #[trigger] pages[i]@ == padded(
        button_image_prefix(button_index, i == n - 1, i as u16, chunk(jpeg, BUTTON_CHUNK as nat, i)),
    )
}

/// Whether `pages` are the display area packets that send `jpeg` to a region.
pub open spec fn display_pages(
    x: u16,
    y: u16,
    width: u16,
    height: u16,
    jpeg: Seq<u8>,
    pages: Seq<[u8; PACKET_SIZE]>,
) -> bool {
    let n = chunk_count(jpeg.len(), DISPLAY_CHUNK as nat);
    &&& pages.len() == n
    &&& forall|i: int| 0 <= i < n ==> #[trigger] pages[i]@ == padded(
        display_area_prefix(x, y, width, height, i == n - 1, i as u16, chunk(jpeg, DISPLAY_CHUNK as nat, i)),
    )
}

/// The packet that sets the brightness (0-100).
pub fn brightness_packet(brightness: u8) -> (r: Result<[u8; PACKET_SIZE], Error>)
    ensures
        brightness > 100 ==> r is Err && invalid_parameter(
            r->Err_0,
            "Brightness must be 0-100, got "@ + decimal(brightness as nat),
        ),
        brightness <= 100 ==> (r matches Ok(p) && p@ == command_packet(Command::SetBrightness(brightness))),
{
    if brightness > MAX_BRIGHTNESS {
        return Err(Error::InvalidParameter(with_decimal("Brightness must be 0-100, got ", brightness as u64)));
    }
    match CommandEncoder::encode(&Command::SetBrightness(brightness)) {
        Ok(p) => Ok(p),
        Err(e) => Err(Error::from_core(e)),
    }
}

/// The packets that send an already encoded JPEG to a button, one page per chunk.
pub fn button_image_pages(button_index: u8, jpeg: &[u8]) -> (pages: Vec<[u8; PACKET_SIZE]>)
    ensures
        button_pages(button_index, jpeg@, pages@),
{
    let chunks = ImageConverter::split_button_image_data(jpeg);
    let n = chunks.len();
    assert forall|i: int| 0 <= i < n implies #[trigger] chunks@[i]@ == chunk(jpeg@, BUTTON_CHUNK as nat, i) by {
        assert(slice_views(chunks@)[i] == chunks@[i]@);
    }
    let mut pages: Vec<[u8; PACKET_SIZE]> = Vec::new();
    let mut page: usize = 0;
    while page < n
        invariant
            n == chunks@.len(),
            n == chunk_count(jpeg@.len(), BUTTON_CHUNK as nat),
            forall|i: int| 0 <= i < n ==> #[trigger] chunks@[i]@ == chunk(jpeg@, BUTTON_CHUNK as nat, i),
            page <= n,
            pages@.len() == page,
            forall|i: int| 0 <= i < page ==> #[trigger] pages@[i]@ == padded(
                button_image_prefix(button_index, i == n - 1, i as u16, chunk(jpeg@, BUTTON_CHUNK as nat, i)),
            ),
        decreases n - page,
    {
        let data = slice_to_vec(chunks[page]);
        let command = Command::SetButtonImage {
            button_index,
            is_last_page: page == n - 1,
            page_number: page as u16,
            data,
        };
        let packet = match CommandEncoder::encode(&command) {
            Ok(p) => p,
            Err(_) => [0u8; 1024],
        };
        pages.push(packet);
        page = page + 1;
    }
    assert(slice_views(chunks@).len() == n);
    pages
}

/// The packets that set a button image: the image is re-encoded as a 144 x 112
/// JPEG, and the pages carry that JPEG.
///
/// A button index above 31 is refused before any conversion.
pub fn button_image_packets(button_index: u8, image_data: &[u8]) -> (r: Result<Vec<[u8; PACKET_SIZE]>, Error>)
    ensures
        button_index >= 32 ==> r is Err && invalid_parameter(
            r->Err_0,
            "Button index must be 0-31, got "@ + decimal(button_index as nat),
        ),
        button_index < 32 && !image_decodes(image_data@) ==> r is Err && image_error_with_prefix(
            r->Err_0,
            "Failed to load image: "@,
        ),
        button_index < 32 && image_decodes(image_data@) ==> r is Ok && exists|jpeg: Seq<u8>|
            #[trigger] button_pages(button_index, jpeg, r->Ok_0@) && jpeg_of(
                image_data@,
                BUTTON_WIDTH,
                BUTTON_HEIGHT,
                jpeg,
            ) && jpeg_size(jpeg) == Some((BUTTON_WIDTH, BUTTON_HEIGHT)),
{
    if button_index >= BUTTON_COUNT {
        return Err(Error::InvalidParameter(with_decimal("Button index must be 0-31, got ", button_index as u64)));
    }
    let jpeg = match ImageConverter::convert_button_image(image_data) {
        Ok(j) => j,
        Err(e) => return Err(e),
    };
    let pages = button_image_pages(button_index, jpeg.as_slice());
    let r: Result<Vec<[u8; PACKET_SIZE]>, Error> = Ok(pages);
    assert(button_pages(button_index, jpeg@, r->Ok_0@) && jpeg_of(image_data@, BUTTON_WIDTH, BUTTON_HEIGHT, jpeg@)
        && jpeg_size(jpeg@) == Some((BUTTON_WIDTH, BUTTON_HEIGHT)));
    r
}

/// The packets that send an already encoded JPEG to a display area region, one page per chunk.
pub fn display_area_pages(x: u16, y: u16, width: u16, height: u16, jpeg: &[u8]) -> (pages: Vec<[u8; PACKET_SIZE]>)
    ensures
        display_pages(x, y, width, height, jpeg@, pages@),
{
    let chunks = ImageConverter::split_display_area_image_data(jpeg);
    let n = chunks.len();
    assert forall|i: int| 0 <= i < n implies #[trigger] chunks@[i]@ == chunk(jpeg@, DISPLAY_CHUNK as nat, i) by {
        assert(slice_views(chunks@)[i] == chunks@[i]@);
    }
    let mut pages: Vec<[u8; PACKET_SIZE]> = Vec::new();
    let mut page: usize = 0;
    while page < n
        invariant
            n == chunks@.len(),
            n == chunk_count(jpeg@.len(), DISPLAY_CHUNK as nat),
            forall|i: int| 0 <= i < n ==> #[trigger] chunks@[i]@ == chunk(jpeg@, DISPLAY_CHUNK as nat, i),
            page <= n,
            pages@.len() == page,
            forall|i: int| 0 <= i < page ==> #[trigger] pages@[i]@ == padded(
                display_area_prefix(x, y, width, height, i == n - 1, i as u16, chunk(jpeg@, DISPLAY_CHUNK as nat, i)),
            ),
        decreases n - page,
    {
        let data = slice_to_vec(chunks[page]);
        let command = Command::SetDisplayAreaImage {
            x,
            y,
            width,
            height,
            is_last_page: page == n - 1,
            page_number: page as u16,
            data,
        };
        let packet = match CommandEncoder::encode(&command) {
            Ok(p) => p,
            Err(_) => [0u8; 1024],
        };
        pages.push(packet);
        page = page + 1;
    }
    assert(slice_views(chunks@).len() == n);
    pages
}

/// The packets that set a display area image: the image is re-encoded as a
/// `width` x `height` JPEG, and the pages carry that JPEG. A side of 0, which no JPEG holds,
/// is an encoding error.
pub fn display_area_image_packets(x: u16, y: u16, width: u16, height: u16, image_data: &[u8]) -> (r: Result<Vec<[u8; PACKET_SIZE]>, Error>)
    ensures
        !image_decodes(image_data@) ==> r is Err && image_error_with_prefix(r->Err_0, "Failed to load image: "@),
        image_decodes(image_data@) && width >= 1 && height >= 1 ==> r is Ok && exists|jpeg: Seq<u8>|
            #[trigger] display_pages(x, y, width, height, jpeg, r->Ok_0@) && jpeg_of(
                image_data@,
                width as u32,
                height as u32,
                jpeg,
            ) && jpeg_size(jpeg) == Some((width as u32, height as u32)),
        image_decodes(image_data@) && (width == 0 || height == 0) ==> r is Err && image_error_with_prefix(
            r->Err_0,
            "Failed to encode JPEG: "@,
        ),
{
    assert(resample_fits(width as u32, height as u32)) by (nonlinear_arith)
        requires
            width <= 65535,
            height <= 65535,
    {
        assert((width as int) * (height as int) <= 65535 * 65535);
    }
    let jpeg = match ImageConverter::convert_display_area_image(image_data, width as u32, height as u32) {
        Ok(j) => j,
        Err(e) => return Err(e),
    };
    let pages = display_area_pages(x, y, width, height, jpeg.as_slice());
    let r: Result<Vec<[u8; PACKET_SIZE]>, Error> = Ok(pages);
    assert(display_pages(x, y, width, height, jpeg@, r->Ok_0@) && jpeg_of(image_data@, width as u32, height as u32, jpeg@)
        && jpeg_size(jpeg@) == Some(
        (width as u32, height as u32),
    ));
    r
}

/// The packet that sets an encoder LED color (encoder 0 or 1).
pub fn encoder_color_packet(encoder_index: u8, r: u8, g: u8, b: u8) -> (res: Result<[u8; PACKET_SIZE], Error>)
    ensures
        encoder_index >= 2 ==> res is Err && invalid_parameter(
            res->Err_0,
            "Encoder index must be 0 or 1, got "@ + decimal(encoder_index as nat),
        ),
        encoder_index < 2 ==> (res matches Ok(p) && p@ == command_packet(
            Command::SetEncoderColor { encoder_index, r, g, b },
        )),
{
    if encoder_index >= ENCODER_COUNT {
        return Err(Error::InvalidParameter(with_decimal("Encoder index must be 0 or 1, got ", encoder_index as u64)));
    }
    match CommandEncoder::encode(&Command::SetEncoderColor { encoder_index, r, g, b }) {
        Ok(p) => Ok(p),
        Err(e) => Err(Error::from_core(e)),
    }
}

/// The packet that sets the colors of an encoder ring (at most 24 colors).
pub fn encoder_ring_packet(encoder_index: u8, colors: Vec<(u8, u8, u8)>) -> (res: Result<[u8; PACKET_SIZE], Error>)
    ensures
        encoder_index >= 2 ==> res is Err && invalid_parameter(
            res->Err_0,
            "Encoder index must be 0 or 1, got "@ + decimal(encoder_index as nat),
        ),
        encoder_index < 2 && colors@.len() > 24 ==> res is Err && invalid_parameter(
            res->Err_0,
            "Too many colors: max 24, got "@ + decimal(colors@.len()),
        ),
        encoder_index < 2 && colors@.len() <= 24 ==> (res matches Ok(p) && p@ == command_packet(
            Command::SetEncoderRing { encoder_index, colors },
        )),
{
    if encoder_index >= ENCODER_COUNT {
        return Err(Error::InvalidParameter(with_decimal("Encoder index must be 0 or 1, got ", encoder_index as u64)));
    }
    if colors.len() > RING_SIZE {
        return Err(Error::InvalidParameter(with_decimal("Too many colors: max 24, got ", colors.len() as u64)));
    }
    let command = Command::SetEncoderRing { encoder_index, colors };
    match CommandEncoder::encode(&command) {
        Ok(p) => Ok(p),
        Err(e) => Err(Error::from_core(e)),
    }
}

/// The packet that resets the device.
pub fn reset_packet() -> (p: [u8; PACKET_SIZE])
    ensures
        p@ == command_packet(Command::Reset),
{
    match CommandEncoder::encode(&Command::Reset) {
        Ok(p) => p,
        Err(_) => [0u8; 1024],
    }
}

/// What the event loop does with a received packet.
#[derive(Debug)]
pub enum IncomingAction {
    /// The packet is a keep-alive request: send this response.
    Respond([u8; PACKET_SIZE]),
    /// The packet reports an event.
    Deliver(Event),
    /// The packet is not an event.
    Ignore,
    /// The packet could not be decoded.
    DecodeFailed(CoreError),
}

/// Whether a packet is a keep-alive request (0x01 0x0a).
pub open spec fn is_keep_alive_request(p: Seq<u8>) -> bool {
    p[0] == 0x01u8 && p[1] == 0x0au8
}

/// Decide what the event loop does with a received packet: answer keep-alive
/// requests with 0x03 0x1a, deliver decoded events, and skip the rest.
pub fn incoming_packet_action(packet: &[u8; PACKET_SIZE]) -> (a: IncomingAction)
    ensures
        is_keep_alive_request(packet@) ==> (a matches IncomingAction::Respond(p) && p@ == command_packet(
            Command::KeepAlive,
        )),
        !is_keep_alive_request(packet@) ==> match a {
            IncomingAction::Deliver(e) => decodes_to(packet@, Ok::<Option<Event>, CoreError>(Some(e))),
            IncomingAction::Ignore => decodes_to(packet@, Ok::<Option<Event>, CoreError>(None)),
            IncomingAction::DecodeFailed(e) => decodes_to(packet@, Err::<Option<Event>, CoreError>(e)),
            IncomingAction::Respond(_) => false,
        },
{
    if packet[0] == 0x01 && packet[1] == 0x0a {
        return IncomingAction::Respond(keep_alive_response());
    }
    match EventDecoder::decode(packet.as_slice()) {
        Ok(Some(e)) => IncomingAction::Deliver(e),
        Ok(None) => IncomingAction::Ignore,
        Err(e) => IncomingAction::DecodeFailed(e),
    }
}

/// The response to a keep-alive request (0x03 0x1a, zero padded).
pub fn keep_alive_response() -> (p: [u8; PACKET_SIZE])
    ensures
        p@ == command_packet(Command::KeepAlive),
{
    match CommandEncoder::encode(&Command::KeepAlive) {
        Ok(p) => p,
        Err(_) => [0u8; 1024],
    }
}

} // verus!
