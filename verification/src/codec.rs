//! The encoder adapter: raw RGBA framebuffers to text-safe image data.
//!
//! A captured frame is encoded to JPEG (via an opaque RGB conversion,
//! at fixed quality) or to lossless PNG, and the encoded bytes are then
//! carried as standard base64 so they can cross a text-only transport.
//! The codecs themselves are outside code; each is called through one
//! trusted wrapper whose result is named and whose acceptance condition
//! is stated exactly, so everything around the calls — including when
//! an encode succeeds — is verified.

use vstd::prelude::*;

use base64::Engine;

use crate::error::SessionError;
use crate::model::{Frame, FrameView};
use crate::state::format_is_supported;

verus! {

/// The fixed quality every JPEG encode uses.
pub const JPEG_QUALITY: u8 = 85;

/// The largest encoded byte count the base64 step accepts: for any
/// count up to this bound the padded base64 length still fits in
/// `usize`.
pub const BASE64_SAFE_LEN: usize = usize::MAX / 4 * 3;

/// The JPEG bytes for a `width` x `height` RGBA buffer at the given
/// quality, as image's encoder produces them; a function of its
/// arguments alone.
pub uninterp spec fn jpeg_bytes_of(width: u32, height: u32, rgba: Seq<u8>, quality: u8) -> Seq<u8>;

/// The PNG bytes for a `width` x `height` RGBA buffer, as image's
/// encoder produces them; a function of its arguments alone.
pub uninterp spec fn png_bytes_of(width: u32, height: u32, rgba: Seq<u8>) -> Seq<u8>;

/// The standard, padded base64 text for a byte sequence; a function of
/// its argument alone.
pub uninterp spec fn base64_of(bytes: Seq<u8>) -> Seq<char>;

/// When the JPEG pipeline accepts a frame: the buffer holds at least
/// `width * height` RGBA pixels, and both dimensions lie in the JPEG
/// range `1..=65535`.
pub open spec fn jpeg_accepts(width: u32, height: u32, rgba: Seq<u8>) -> bool {
    &&& 4 * width * height <= rgba.len()
    &&& 1 <= width <= 65535
    &&& 1 <= height <= 65535
}

/// When the PNG pipeline accepts a frame: the buffer holds at least
/// `width * height` RGBA pixels and neither dimension is zero.
pub open spec fn png_accepts(width: u32, height: u32, rgba: Seq<u8>) -> bool {
    &&& 4 * width * height <= rgba.len()
    &&& width >= 1
    &&& height >= 1
}

/// Relies on image's `RgbaImage::from_raw`, `DynamicImage::to_rgb8` and
/// `JpegEncoder::encode_image`: `from_raw` succeeds exactly when the
/// buffer holds at least `width * height` RGBA pixels (a buffer longer
/// than that is accepted, the tail ignored), `encode_image` rejects
/// exactly the dimensions outside `1..=65535`, and the in-memory writer
/// cannot fail — so the call succeeds exactly on `jpeg_accepts`.  For
/// fixed dimensions, pixels and quality the encoded bytes depend on
/// nothing else.
#[verifier::external_body]
fn encode_jpeg(width: u32, height: u32, rgba: &Vec<u8>, quality: u8) -> (r: Option<Vec<u8>>)
    ensures
        r is Some <==> jpeg_accepts(width, height, rgba@),
        r matches Some(b) ==> b@ == jpeg_bytes_of(width, height, rgba@, quality),
{
    let img = image::RgbaImage::from_raw(width, height, rgba.clone())?;
    let rgb = image::DynamicImage::ImageRgba8(img).to_rgb8();
    let mut buf = std::io::Cursor::new(Vec::new());
    let mut encoder = image::codecs::jpeg::JpegEncoder::new_with_quality(&mut buf, quality);
    encoder.encode_image(&rgb).ok()?;
    Some(buf.into_inner())
}

/// Relies on image's `RgbaImage::from_raw` and `write_to` with the PNG
/// format: `from_raw` succeeds exactly when the buffer holds at least
/// `width * height` RGBA pixels (a longer buffer is accepted, the tail
/// ignored and not written), the PNG encoder rejects exactly a zero
/// width or height, and the in-memory writer cannot fail — so the call
/// succeeds exactly on `png_accepts`.  For fixed dimensions and pixels
/// the encoded bytes depend on nothing else.
#[verifier::external_body]
fn encode_png(width: u32, height: u32, rgba: &Vec<u8>) -> (r: Option<Vec<u8>>)
    ensures
        r is Some <==> png_accepts(width, height, rgba@),
        r matches Some(b) ==> b@ == png_bytes_of(width, height, rgba@),
{
    let img = image::RgbaImage::from_raw(width, height, rgba.clone())?;
    let mut buf = std::io::Cursor::new(Vec::new());
    img.write_to(&mut buf, image::ImageFormat::Png).ok()?;
    Some(buf.into_inner())
}

/// Relies on base64's `STANDARD` engine (padded): the text depends on
/// the bytes alone, four characters for every started group of three
/// bytes, and the encoder panics only when that length cannot fit in
/// `usize`, which the precondition rules out.
#[verifier::external_body]
fn base64_encode(bytes: &Vec<u8>) -> (r: String)
    requires
        4 * ((bytes@.len() + 2) / 3) <= usize::MAX,
    ensures
        r@ == base64_of(bytes@),
        r@.len() == 4 * ((bytes@.len() + 2) / 3),
{
    base64::engine::general_purpose::STANDARD.encode(bytes)
}

/// The encoded bytes of one captured frame under a supported format.
pub open spec fn encoded_bytes(frame: FrameView, format: Seq<char>) -> Seq<u8>
    recommends
        format_is_supported(format),
{
    if format == "jpeg"@ {
        jpeg_bytes_of(frame.width, frame.height, frame.rgba, JPEG_QUALITY)
    } else {
        png_bytes_of(frame.width, frame.height, frame.rgba)
    }
}

/// Whether the codec for `format` accepts the frame.
pub open spec fn frame_accepted(frame: FrameView, format: Seq<char>) -> bool
    recommends
        format_is_supported(format),
{
    if format == "jpeg"@ {
        jpeg_accepts(frame.width, frame.height, frame.rgba)
    } else {
        png_accepts(frame.width, frame.height, frame.rgba)
    }
}

/// Whether the whole encode of one frame succeeds: the codec accepts
/// the frame and the encoded bytes fit the base64 step.
pub open spec fn frame_encodes(frame: FrameView, format: Seq<char>) -> bool
    recommends
        format_is_supported(format),
{
    frame_accepted(frame, format) && encoded_bytes(frame, format).len() <= BASE64_SAFE_LEN
}

/// The text-safe encoding of one captured frame under a supported
/// format.
pub open spec fn encoded_image(frame: FrameView, format: Seq<char>) -> Seq<char>
    recommends
        format_is_supported(format),
{
    base64_of(encoded_bytes(frame, format))
}

/// Encodes one captured frame: to JPEG at the fixed quality or to
/// lossless PNG, then to base64.  Any other format is rejected with
/// `UnsupportedFormat`; a frame the codec refuses, or whose encoded
/// bytes outgrow the base64 step, gives `EncodeFailed`; everything else
/// succeeds, and the result is pinned down exactly.
pub fn encode_frame(frame: &Frame, format: &String) -> (r: Result<String, SessionError>)
    ensures
        !format_is_supported(format@) ==> r == Err::<String, SessionError>(
            SessionError::UnsupportedFormat,
        ),
        format_is_supported(format@) && !frame_encodes(frame@, format@) ==> r == Err::<
            String,
            SessionError,
        >(SessionError::EncodeFailed),
        format_is_supported(format@) && frame_encodes(frame@, format@) ==> (r matches Ok(data)
            && data@ == encoded_image(frame@, format@)),
{
    let jpeg: String = "jpeg".to_owned();
    let png: String = "png".to_owned();
    let bytes_opt: Option<Vec<u8>> = if *format == jpeg {
        encode_jpeg(frame.width, frame.height, &frame.rgba, JPEG_QUALITY)
    } else if *format == png {
        encode_png(frame.width, frame.height, &frame.rgba)
    } else {
        return Err(SessionError::UnsupportedFormat);
    };
    match bytes_opt {
        Some(bytes) => {
            if bytes.len() <= BASE64_SAFE_LEN {
                proof {
                    lemma_base64_len_fits(bytes@.len() as int);
                }
                Ok(base64_encode(&bytes))
            } else {
                Err(SessionError::EncodeFailed)
            }
        },
        None => Err(SessionError::EncodeFailed),
    }
}

/// A byte count within `BASE64_SAFE_LEN` keeps the padded base64
/// length within `usize`.
proof fn lemma_base64_len_fits(n: int)
    requires
        0 <= n <= usize::MAX / 4 * 3,
    ensures
        4 * ((n + 2) / 3) <= usize::MAX,
{
    let m = usize::MAX as int;
    let q = m / 4;
    vstd::arithmetic::div_mod::lemma_fundamental_div_mod(m, 4);
    vstd::arithmetic::div_mod::lemma_mod_bound(m, 4);
    vstd::arithmetic::div_mod::lemma_div_is_ordered(n + 2, 3 * q + 2, 3);
    vstd::arithmetic::div_mod::lemma_fundamental_div_mod_converse(3 * q + 2, 3, q, 2);
}

} // verus!
