//! Image conversion for Stream Deck Studio: JPEG re-encoding and page splitting.

use vstd::prelude::*;
use vstd::slice::slice_subrange;
use crate::error::Error;
use crate::text::{string_of, concat};

verus! {

/// Stream Deck Studio button image width.
pub const BUTTON_WIDTH: u32 = 144;
/// Stream Deck Studio button image height.
pub const BUTTON_HEIGHT: u32 = 112;
/// Stream Deck Studio display area width.
pub const DISPLAY_WIDTH: u32 = 800;
/// Stream Deck Studio display area height.
pub const DISPLAY_HEIGHT: u32 = 100;

/// Largest width or height that a JPEG frame holds.
pub const MAX_JPEG_SIDE: u32 = 65535;

/// Whether resampling a decoded image to `width` x `height` keeps every buffer
/// that the image crate allocates for it below 2^63 bytes, the largest
/// allocation on a 64-bit target. Resampling works through a buffer of four
/// 32-bit floats per pixel, of the target's size and of the source's width by
/// the target's height; a decoded source holds at most 2^29 bytes (the image
/// crate's default allocation limit), so it is at most 2^29 pixels wide.
pub open spec fn resample_fits(width: u32, height: u32) -> bool {
    &&& 16 * (width as int) * (height as int) < 0x8000_0000_0000_0000
    &&& 16 * 0x2000_0000 * (height as int) < 0x8000_0000_0000_0000
}

/// Image bytes per button image packet (1024 - 8 header bytes).
pub const BUTTON_CHUNK: usize = 1016;
/// Image bytes per display area packet (1024 - 16 header bytes).
pub const DISPLAY_CHUNK: usize = 1008;

#[verifier::external_type_specification]
#[verifier::external_body]
pub struct ExImageError(image::ImageError);

/// Whether the image crate decodes `data` (in a format it recognizes from the bytes).
pub uninterp spec fn image_decodes(data: Seq<u8>) -> bool;

/// The width and height that the image crate's JPEG decoder reads from the
/// frame header of `bytes`, if it reads one.
pub uninterp spec fn jpeg_size(bytes: Seq<u8>) -> Option<(u32, u32)>;

/// Whether `jpeg` is a JPEG that the image crate writes for the image it
/// decodes from `data`, resampled to `width` x `height` with the Lanczos3
/// filter. Resampling computes with `f32` sines, whose last bits may differ
/// from one machine to another, so the bytes are related to what they were
/// made from and not named.
pub uninterp spec fn jpeg_of(data: Seq<u8>, width: u32, height: u32, jpeg: Seq<u8>) -> bool;

/// The stage at which the image crate gave up on a conversion.
enum JpegFailure {
    /// `load_from_memory` could not decode the bytes.
    Load(image::ImageError),
    /// The JPEG encoder refused the resampled image.
    Encode(image::ImageError),
}

/// Decode an image, resample it to exactly `width` x `height` and encode it as JPEG.
///
/// Calls `image::load_from_memory` on `data`, `DynamicImage::resize_exact`
/// with `width`, `height` and the Lanczos3 filter, and `DynamicImage::write_to`
/// with `ImageFormat::Jpeg` into an in-memory cursor. The contract claims:
/// decoding fails exactly when `image_decodes` does not hold of the bytes;
/// resampling gives an image of exactly the requested size (an empty source
/// an empty image of that size), and does not panic on the sizes that
/// `resample_fits` admits (above them the length computation of a buffer
/// overflows, and the crate panics); every colour type is converted to one
/// the JPEG encoder takes and writes to memory do not fail, so encoding fails
/// exactly on the sizes a JPEG frame cannot hold (a side of 0 or above 65535);
/// and the JPEG written carries the image's size in its frame header. That
/// every enabled decoder returns, rather than panics, on every malformed input
/// is assumed here and not established. The pixels are not described.
#[verifier::external_body]
fn jpeg_from(data: &[u8], width: u32, height: u32) -> (r: Result<Vec<u8>, JpegFailure>)
    requires
        resample_fits(width, height),
    ensures
        r matches Err(JpegFailure::Load(_)) <==> !image_decodes(data@),
        r is Ok <==> (image_decodes(data@) && 1 <= width <= MAX_JPEG_SIDE && 1 <= height <= MAX_JPEG_SIDE),
        r matches Ok(j) ==> jpeg_of(data@, width, height, j@) && jpeg_size(j@) == Some((width, height)),
{
    let img = match image::load_from_memory(data) {
        Ok(img) => img,
        Err(e) => return Err(JpegFailure::Load(e)),
    };
    let resized = img.resize_exact(width, height, image::imageops::FilterType::Lanczos3);
    let mut jpeg = Vec::new();
    match resized.write_to(&mut std::io::Cursor::new(&mut jpeg), image::ImageFormat::Jpeg) {
        Ok(()) => Ok(jpeg),
        Err(e) => Err(JpegFailure::Encode(e)),
    }
}

/// The text of an image error.
///
/// Calls the `Display` impl of `image::ImageError` through `to_string`; the text is not described.
#[verifier::external_body]
fn image_error_text(e: &image::ImageError) -> String {
    e.to_string()
}

/// Whether `e` is an image error whose text starts with `prefix`.
pub open spec fn image_error_with_prefix(e: Error, prefix: Seq<char>) -> bool {
    e matches Error::Image(s) && s@.len() >= prefix.len() && s@.take(prefix.len() as int) == prefix
}

/// Number of chunks of at most `size` bytes that `len` bytes split into.
pub open spec fn chunk_count(len: nat, size: nat) -> nat {
    if len == 0 { 0 } else { (((len - 1) as int) / (size as int) + 1) as nat }
}

/// The `i`-th chunk of at most `size` bytes of `data`.
pub open spec fn chunk(data: Seq<u8>, size: nat, i: int) -> Seq<u8> {
    let start = i * size;
    let end = if start + size < data.len() { start + size } else { data.len() as int };
    data.subrange(start, end)
}

/// Whether `chunks` are the consecutive pieces of at most `size` bytes of `data`.
pub open spec fn is_split(data: Seq<u8>, size: nat, chunks: Seq<Seq<u8>>) -> bool {
    &&& chunks.len() == chunk_count(data.len(), size)
    &&& forall|i: int| 0 <= i < chunks.len() ==> #[trigger] chunks[i] == chunk(data, size, i)
}

/// The views of a vector of slices.
pub open spec fn slice_views(v: Seq<&[u8]>) -> Seq<Seq<u8>> {
    Seq::new(v.len(), |i: int| v[i]@)
}

proof fn lemma_chunk_count(len: nat, size: nat, n: nat)
    requires
        size > 0,
        n > 0,
        (n - 1) * size < len <= n * size,
    ensures
        chunk_count(len, size) == n,
{
    let q = ((len - 1) as int) / (size as int);
    assert(q == n - 1) by (nonlinear_arith)
        requires
            size > 0,
            n > 0,
            (n - 1) * size < len <= n * size,
            q == ((len - 1) as int) / (size as int),
    {
        vstd::arithmetic::div_mod::lemma_fundamental_div_mod((len - 1) as int, size as int);
        let r = ((len - 1) as int) % (size as int);
        assert(0 <= r < size);
        assert((len - 1) as int == size * q + r);
        if q < n - 1 {
            assert(q <= n - 2);
            assert(size * q <= size * (n - 2));
        }
        if q > n - 1 {
            assert(q >= n);
            assert(size * q >= size * n);
        }
    }
}

/// The start of chunk `i` lies within the data for every chunk, and the chunks
/// together reach the end of the data.
pub proof fn lemma_chunk_bounds(len: nat, size: nat, i: int)
    requires
        size > 0,
        0 <= i < chunk_count(len, size),
    ensures
        i * size < len,
        len <= chunk_count(len, size) * size,
{
    let q = ((len - 1) as int) / (size as int);
    assert(i * size < len && len <= (q + 1) * size) by (nonlinear_arith)
        requires
            size > 0,
            len > 0,
            0 <= i <= q,
            q == ((len - 1) as int) / (size as int),
    {
        vstd::arithmetic::div_mod::lemma_fundamental_div_mod((len - 1) as int, size as int);
        assert(i * size <= q * size);
    }
}

proof fn lemma_split_prefix(data: Seq<u8>, size: nat, chunks: Seq<Seq<u8>>, k: int)
    requires
        size > 0,
        is_split(data, size, chunks),
        0 <= k <= chunks.len(),
    ensures
        chunks.take(k).flatten_alt() == data.take(if k * size < data.len() { k * size } else { data.len() as int }),
    decreases k,
{
    if k == 0 {
        assert(chunks.take(0).flatten_alt() =~= Seq::<u8>::empty());
        assert(data.take(0) =~= Seq::<u8>::empty());
    } else {
        lemma_split_prefix(data, size, chunks, k - 1);
        lemma_chunk_bounds(data.len(), size, k - 1);
        let t = chunks.take(k);
        assert(t.drop_last() =~= chunks.take(k - 1));
        assert(t.last() == chunk(data, size, k - 1));
        assert((k - 1) * size + size == k * size) by (nonlinear_arith);
        let prev = (k - 1) * size;
        let end = if k * size < data.len() { k * size } else { data.len() as int };
        assert(data.take(prev) + data.subrange(prev, end) =~= data.take(end));
    }
}

/// The chunks of a split, joined in order, give back the data; each chunk
/// holds at least one and at most `size` bytes.
pub proof fn lemma_split_joins(data: Seq<u8>, size: nat, chunks: Seq<Seq<u8>>)
    requires
        size > 0,
        is_split(data, size, chunks),
    ensures
        chunks.flatten() == data,
        forall|i: int| 0 <= i < chunks.len() ==> 0 < #[trigger] chunks[i].len() <= size,
{
    lemma_split_prefix(data, size, chunks, chunks.len() as int);
    assert(chunks.take(chunks.len() as int) =~= chunks);
    chunks.lemma_flatten_and_flatten_alt_are_equivalent();
    if chunks.len() > 0 {
        lemma_chunk_bounds(data.len(), size, 0);
    }
    assert(data.take(data.len() as int) =~= data);
    assert forall|i: int| 0 <= i < chunks.len() implies 0 < #[trigger] chunks[i].len() <= size by {
        lemma_chunk_bounds(data.len(), size, i);
    }
}

/// Split `data` into consecutive chunks of at most `size` bytes.
fn split_chunks<'a>(data: &'a [u8], size: usize) -> (chunks: Vec<&'a [u8]>)
    requires
        size > 0,
    ensures
        is_split(data@, size as nat, slice_views(chunks@)),
{
    let mut chunks: Vec<&'a [u8]> = Vec::new();
    let mut offset: usize = 0;
    assert(chunks@.len() * size == 0);
    while offset < data.len()
        invariant
            size > 0,
            offset <= data@.len(),
            offset < data@.len() ==> offset == chunks@.len() * size,
            offset == data@.len() && chunks@.len() > 0 ==> (chunks@.len() - 1) * size < data@.len() <= chunks@.len() * size,
            chunks@.len() == 0 ==> offset == 0,
            forall|i: int| 0 <= i < chunks@.len() ==> #[trigger] chunks@[i]@ == chunk(data@, size as nat, i),
        decreases data@.len() - offset,
    {
        let end = if data.len() - offset > size { offset + size } else { data.len() };
        let piece = slice_subrange(data, offset, end);
        let ghost n = chunks@.len();
        assert(piece@ == chunk(data@, size as nat, n as int));
        chunks.push(piece);
        proof {
            assert((n + 1) * size == n * size + size) by (nonlinear_arith);
        }
        offset = end;
    }
    proof {
        let n = chunks@.len();
        if n > 0 {
            lemma_chunk_count(data@.len(), size as nat, n);
        }
        assert(slice_views(chunks@).len() == chunks@.len());
    }
    chunks
}

/// The side a conversion targets: the one given, or the default.
pub open spec fn target_side(side: Option<u32>, default: u32) -> u32 {
    match side {
        Some(v) => v,
        None => default,
    }
}

/// Whether `r` is what converting `data` to a `width` x `height` JPEG gives:
/// an "Failed to load image: " error for undecodable input; for a decodable
/// image, a JPEG that the image crate makes of it at exactly that size, or an
/// "Failed to encode JPEG: " error
/// when a side is 0 or larger than a JPEG frame holds.
pub open spec fn converted(data: Seq<u8>, width: u32, height: u32, r: Result<Vec<u8>, Error>) -> bool {
    if !image_decodes(data) {
        r is Err && image_error_with_prefix(r->Err_0, "Failed to load image: "@)
    } else if 1 <= width <= MAX_JPEG_SIDE && 1 <= height <= MAX_JPEG_SIDE {
        r matches Ok(j) && jpeg_of(data, width, height, j@) && jpeg_size(j@) == Some((width, height))
    } else {
        r is Err && image_error_with_prefix(r->Err_0, "Failed to encode JPEG: "@)
    }
}

/// Image conversion for Stream Deck Studio.
pub struct ImageConverter;

impl ImageConverter {
    /// Re-encode an image as JPEG at `width` x `height` (144 x 112 when absent).
    ///
    /// Undecodable input is an `Image` error whose text starts with
    /// "Failed to load image: ". A decodable image becomes a JPEG that the
    /// image crate makes of it, resampled to exactly the target size; a target with a side of 0 or above 65535, which no
    /// JPEG holds, is an `Image` error whose text starts with "Failed to encode JPEG: ".
    pub fn convert_to_jpeg(image_data: &[u8], width: Option<u32>, height: Option<u32>) -> (r: Result<Vec<u8>, Error>)
        requires
            resample_fits(target_side(width, BUTTON_WIDTH), target_side(height, BUTTON_HEIGHT)),
        ensures
            converted(image_data@, target_side(width, BUTTON_WIDTH), target_side(height, BUTTON_HEIGHT), r),
    {
        let width = match width { Some(w) => w, None => BUTTON_WIDTH };
        let height = match height { Some(h) => h, None => BUTTON_HEIGHT };
        match jpeg_from(image_data, width, height) {
            Ok(jpeg) => Ok(jpeg),
            Err(JpegFailure::Load(e)) => {
                let msg = concat(string_of("Failed to load image: "), image_error_text(&e).as_str());
                assert(msg@.take("Failed to load image: "@.len() as int) =~= "Failed to load image: "@);
                Err(Error::Image(msg))
            },
            Err(JpegFailure::Encode(e)) => {
                let msg = concat(string_of("Failed to encode JPEG: "), image_error_text(&e).as_str());
                assert(msg@.take("Failed to encode JPEG: "@.len() as int) =~= "Failed to encode JPEG: "@);
                Err(Error::Image(msg))
            },
        }
    }

    /// Re-encode an image as a 144 x 112 JPEG for a button.
    pub fn convert_button_image(image_data: &[u8]) -> (r: Result<Vec<u8>, Error>)
        ensures
            converted(image_data@, BUTTON_WIDTH, BUTTON_HEIGHT, r),
    {
        Self::convert_to_jpeg(image_data, Some(BUTTON_WIDTH), Some(BUTTON_HEIGHT))
    }

    /// Re-encode an image as a `width` x `height` JPEG for the display area.
    pub fn convert_display_area_image(image_data: &[u8], width: u32, height: u32) -> (r: Result<Vec<u8>, Error>)
        requires
            resample_fits(width, height),
        ensures
            converted(image_data@, width, height, r),
    {
        Self::convert_to_jpeg(image_data, Some(width), Some(height))
    }

    /// Split image data into the chunks of consecutive button image packets
    /// (at most 1016 bytes each).
    pub fn split_button_image_data(data: &[u8]) -> (chunks: Vec<&[u8]>)
        ensures
            is_split(data@, BUTTON_CHUNK as nat, slice_views(chunks@)),
    {
        split_chunks(data, BUTTON_CHUNK)
    }

    /// Split image data into the chunks of consecutive display area packets
    /// (at most 1008 bytes each).
    pub fn split_display_area_image_data(data: &[u8]) -> (chunks: Vec<&[u8]>)
        ensures
            is_split(data@, DISPLAY_CHUNK as nat, slice_views(chunks@)),
    {
        split_chunks(data, DISPLAY_CHUNK)
    }
}

} // verus!
