//! Turning a keyframe into a JPEG thumbnail: decode the H.264 access unit
//! with openh264, scale pictures wider than 640 pixels down to 640 pixels
//! with the image crate, and encode the result as JPEG.
use vstd::prelude::*;
use vstd::string::*;
use openh264::formats::YUVSource;

use crate::error::ThumbnailError;

verus! {

/// A decoded picture as packed 8-bit RGB, row by row.
pub struct RgbFrame {
    pub width: usize,
    pub height: usize,
    pub pixels: Vec<u8>,
}

/// The width thumbnails are scaled down to when the picture is wider.
pub const THUMBNAIL_WIDTH: u32 = 640;

/// The JPEG quality of thumbnails.
pub const THUMBNAIL_QUALITY: u8 = 75;

/// The size (width, height) of the picture openh264 decodes from the access
/// unit `data` with a fresh decoder, or `None` when the unit yields no
/// picture.
pub uninterp spec fn decoded_size(data: Seq<u8>) -> Option<(usize, usize)>;

/// The picture the image crate makes of an RGB picture of `width` by
/// `height` resized to `new_width` pixels wide with the triangle filter,
/// its aspect ratio kept (width, height and RGB pixels).
pub uninterp spec fn scaled_picture(width: u32, height: u32, pixels: Seq<u8>, new_width: u32) -> (
    u32,
    u32,
    Seq<u8>,
);

/// The JPEG stream the image crate encodes of an RGB picture at `quality`.
pub uninterp spec fn jpeg_bytes(width: u32, height: u32, pixels: Seq<u8>, quality: u8) -> Seq<u8>;

/// Whether bytes are framed as a JPEG stream: they open with the start of
/// image marker (`FF D8`) and close with the end of image marker (`FF D9`).
pub open spec fn jpeg_framed(b: Seq<u8>) -> bool {
    &&& b.len() >= 4
    &&& b[0] == 0xFFu8
    &&& b[1] == 0xD8u8
    &&& b[b.len() - 2] == 0xFFu8
    &&& b[b.len() - 1] == 0xD9u8
}

/// Decodes one access unit with a fresh decoder, as RGB.
///
/// Calls `openh264::decoder::Decoder::new` (openh264's built-in codec),
/// then `Decoder::decode`; a picture it returns is copied out with its
/// `dimensions` and `write_rgb8`, which fills a buffer of exactly
/// width × height × 3 bytes (the decoder gives I420 pictures, the format
/// `write_rgb8` reads). Errors become their text. As the decoder is new for
/// each unit, whether the unit yields a picture, and its size, depend on
/// `data` alone and are named `decoded_size`. The RGB values are not named:
/// `write_rgb8` converts with SIMD code on some machines and scalar code on
/// others, whose results may differ by one. Whether the decoder can be
/// created at all its source does not guarantee, so nothing is stated of an
/// error.
#[verifier::external_body]
fn decode_unit(data: &[u8]) -> (r: Result<Option<RgbFrame>, String>)
    ensures
        r matches Ok(x) ==> decoded_size(data@) == (match x {
            Some(f) => Some((f.width, f.height)),
            None => None,
        }),
        r matches Ok(Some(f)) ==> f.pixels@.len() == f.width * f.height * 3,
{
    let mut decoder = match openh264::decoder::Decoder::new() {
        Ok(d) => d,
        Err(e) => return Err(e.to_string()),
    };
    match decoder.decode(data) {
        Ok(Some(yuv)) => {
            let (width, height) = yuv.dimensions();
            let mut pixels = vec![0u8; width * height * 3];
            yuv.write_rgb8(&mut pixels);
            Ok(Some(RgbFrame { width, height, pixels }))
        },
        Ok(None) => Ok(None),
        Err(e) => Err(e.to_string()),
    }
}

/// Resizes an RGB picture to `new_width` pixels wide, narrower than it is.
///
/// Wraps the pixels with `ImageBuffer::from_raw` (which accepts them, as
/// they are exactly width × height × 3 bytes) and calls
/// `DynamicImage::resize(new_width, u32::MAX, FilterType::Triangle)`, then
/// takes the RGB buffer back. The crate scales by
/// `new_width / width`, as the height bound is never the tighter one here,
/// so the new width is `new_width` and the new height is
/// `height × new_width / width` rounded (at least 1), which lies within one
/// of that quotient and is at most `height`; the size depends on the sizes
/// alone, and the buffer it makes holds exactly the new picture. That is
/// stated, and the picture is named.
#[verifier::external_body]
fn scale_picture(width: u32, height: u32, pixels: Vec<u8>, new_width: u32) -> (r: (u32, u32, Vec<u8>))
    requires
        pixels@.len() == 3 * width * height,
        0 < new_width < width,
        height > 0,
    ensures
        (r.0, r.1, r.2@) == scaled_picture(width, height, pixels@, new_width),
        r.0 == new_width,
        1 <= r.1 <= height,
        -(width as int) <= (r.1 as int) * (width as int) - (height as int) * (new_width as int) <= width as int,
        r.2@.len() == 3 * r.0 * r.1,
        forall|p: Seq<u8>|
            p.len() == 3 * width * height ==> (#[trigger] scaled_picture(width, height, p, new_width)).1 == r.1,
{
    let buffer = image::RgbImage::from_raw(width, height, pixels).expect("pixels of the stated size");
    let image = image::DynamicImage::ImageRgb8(buffer);
    let scaled = image.resize(new_width, u32::MAX, image::imageops::FilterType::Triangle).into_rgb8();
    (scaled.width(), scaled.height(), scaled.into_raw())
}

/// Encodes an RGB picture as JPEG at `quality`.
///
/// Calls `JpegEncoder::new_with_quality` over an in-memory buffer and its
/// `encode` with `ExtendedColorType::Rgb8`, the call `write_with_encoder`
/// makes for an RGB image. `encode` asserts that the pixels are exactly
/// width × height × 3 bytes, which `requires` guarantees. Its only error
/// is a width or height outside 1 to 65535 (writing to memory does not
/// fail). On success the buffer holds the start of image marker first and
/// the end of image marker last (`JpegEncoder::encode_image`). The bytes
/// are named: they depend on the arguments alone.
#[verifier::external_body]
fn encode_jpeg(width: u32, height: u32, pixels: &[u8], quality: u8) -> (r: Result<Vec<u8>, String>)
    requires
        pixels@.len() == 3 * width * height,
    ensures
        r is Ok <==> (1 <= width <= 65535 && 1 <= height <= 65535),
        r matches Ok(b) ==> b@ == jpeg_bytes(width, height, pixels@, quality) && jpeg_framed(b@),
{
    let mut buf: Vec<u8> = Vec::new();
    let result = image::codecs::jpeg::JpegEncoder::new_with_quality(&mut buf, quality)
        .encode(pixels, width, height, image::ExtendedColorType::Rgb8);
    match result {
        Ok(()) => Ok(buf),
        Err(e) => Err(e.to_string()),
    }
}

/// The number of bytes an RGB picture of this size holds.
pub open spec fn rgb_len(width: u32, height: u32) -> int {
    3 * width * height
}

/// The picture a thumbnail shows: scaled down to 640 pixels wide when it
/// is wider (and not empty), else the picture itself.
pub open spec fn thumbnail_picture(width: u32, height: u32, pixels: Seq<u8>) -> (u32, u32, Seq<u8>) {
    if width > THUMBNAIL_WIDTH && height > 0 {
        scaled_picture(width, height, pixels, THUMBNAIL_WIDTH)
    } else {
        (width, height, pixels)
    }
}

/// The thumbnail of a decoded picture, its size taken as `u32`: the JPEG
/// of `thumbnail_picture` over the first `rgb_len` bytes at quality 75, or
/// `None` when the pixels are too few or the picture to encode is empty or
/// more than 65535 pixels high or wide.
pub open spec fn thumbnail_jpeg(width: usize, height: usize, pixels: Seq<u8>) -> Option<Seq<u8>> {
    let w = width as u32;
    let h = height as u32;
    if rgb_len(w, h) > pixels.len() {
        None
    } else {
        let t = thumbnail_picture(w, h, pixels.take(rgb_len(w, h)));
        if 1 <= t.0 <= 65535 && 1 <= t.1 <= 65535 {
            Some(jpeg_bytes(t.0, t.1, t.2, THUMBNAIL_QUALITY))
        } else {
            None
        }
    }
}

/// The width of the thumbnail of a picture `width` pixels wide: 640 when
/// it is wider, else its own width.
pub open spec fn thumbnail_width(width: u32) -> u32 {
    if width > THUMBNAIL_WIDTH {
        THUMBNAIL_WIDTH
    } else {
        width
    }
}

/// Whether `th` is a thumbnail height for a `width` by `height` picture:
/// the picture's height when it is not scaled, else, keeping the aspect
/// ratio, within one of `height × 640 / width`; at least 1 and at most
/// `height` either way.
pub open spec fn thumbnail_height_fits(width: u32, height: u32, th: u32) -> bool {
    &&& 1 <= th <= height
    &&& width <= THUMBNAIL_WIDTH ==> th == height
    &&& width > THUMBNAIL_WIDTH ==> -(width as int) <= (th as int) * (width as int) - (height as int) * (
    THUMBNAIL_WIDTH as int) <= width as int
}

/// Whether `b` is a thumbnail of a `width` by `height` picture: the JPEG,
/// at quality 75, of some picture `thumbnail_width(width)` pixels wide and
/// of a height that `thumbnail_height_fits`.
pub open spec fn jpeg_thumbnail_of_size(b: Seq<u8>, width: u32, height: u32) -> bool {
    exists|th: u32, px: Seq<u8>|
        thumbnail_height_fits(width, height, th) && b == #[trigger] jpeg_bytes(
            thumbnail_width(width),
            th,
            px,
            THUMBNAIL_QUALITY,
        )
}

/// Encodes a decoded picture as a thumbnail (see `thumbnail_jpeg`). Its
/// size is taken as `u32` (wrapping); pixels beyond width × height × 3
/// are ignored; too few are refused as "invalid frame dimensions"; an
/// encoder failure is a decode error with the encoder's text. A picture
/// with enough pixels, at least one pixel wide and 1 to 65535 pixels high
/// gives a thumbnail. A thumbnail is min(width, 640) pixels wide, as high
/// as the picture or, when scaled, of the picture's aspect ratio, and a
/// JPEG stream framed by its start and end of image markers.
pub fn encode_frame(frame: RgbFrame) -> (r: Result<Vec<u8>, ThumbnailError>)
    ensures
        ({
            let w = frame.width as u32;
            let h = frame.height as u32;
            &&& rgb_len(w, h) > frame.pixels@.len() ==> (r matches Err(ThumbnailError::Decode(m)) && m@
                == "invalid frame dimensions"@)
            &&& match thumbnail_jpeg(frame.width, frame.height, frame.pixels@) {
                Some(j) => r matches Ok(b) && b@ == j,
                None => r is Err,
            }
            &&& (rgb_len(w, h) <= frame.pixels@.len() && h > 0) ==> ({
                let t = thumbnail_picture(w, h, frame.pixels@.take(rgb_len(w, h)));
                &&& t.0 == thumbnail_width(w)
                &&& thumbnail_height_fits(w, h, t.1)
            })
            &&& (rgb_len(w, h) <= frame.pixels@.len() && 1 <= w && 1 <= h <= 65535) ==> r is Ok
            &&& r matches Ok(b) ==> jpeg_thumbnail_of_size(b@, w, h)
        }),
        r matches Ok(b) ==> jpeg_framed(b@),
        r matches Err(e) ==> e is Decode,
{
    let width: u32 = #[verifier::truncate] (frame.width as u32);
    let height: u32 = #[verifier::truncate] (frame.height as u32);
    assert((width as int) * (height as int) <= 0xffff_ffff * 0xffff_ffff) by (nonlinear_arith)
        requires
            width <= 0xffff_ffff,
            height <= 0xffff_ffff,
    ;
    let needed: u128 = 3 * ((width as u128) * (height as u128));
    assert(needed == rgb_len(width, height)) by (nonlinear_arith)
        requires
            needed == 3 * ((width as int) * (height as int)),
    ;
    if needed > frame.pixels.len() as u128 {
        return Err(ThumbnailError::Decode(String::from_str("invalid frame dimensions")));
    }
    let mut pixels = frame.pixels;
    let ghost all = pixels@;
    pixels.truncate(needed as usize);
    assert(pixels@ == all.take(rgb_len(width, height)));
    let (tw, th, tp) = if width > THUMBNAIL_WIDTH && height > 0 {
        scale_picture(width, height, pixels, THUMBNAIL_WIDTH)
    } else {
        (width, height, pixels)
    };
    let r = match encode_jpeg(tw, th, tp.as_slice(), THUMBNAIL_QUALITY) {
        Ok(bytes) => Ok(bytes),
        Err(e) => Err(ThumbnailError::Decode(e)),
    };
    proof {
        if let Ok(b) = &r {
            assert(thumbnail_height_fits(width, height, th));
            assert(b@ == jpeg_bytes(thumbnail_width(width), th, tp@, THUMBNAIL_QUALITY));
        }
    }
    r
}

/// The thumbnail of what decoding an access unit gave: the decoder's
/// error as a decode error, "decoder produced no frame" when it gave no
/// picture, else `encode_frame` of the picture (so a picture with enough
/// pixels, at least one pixel wide and 1 to 65535 pixels high gives a
/// thumbnail min(width, 640) pixels wide, of the picture's aspect ratio).
pub fn thumbnail_from_decoded(decoded: Result<Option<RgbFrame>, String>) -> (r: Result<Vec<u8>, ThumbnailError>)
    ensures
        match decoded {
            Err(m) => r matches Err(ThumbnailError::Decode(e)) && e@ == m@,
            Ok(None) => r matches Err(ThumbnailError::Decode(e)) && e@ == "decoder produced no frame"@,
            Ok(Some(f)) => {
                let w = f.width as u32;
                let h = f.height as u32;
                &&& match thumbnail_jpeg(f.width, f.height, f.pixels@) {
                    Some(j) => r matches Ok(b) && b@ == j,
                    None => r matches Err(ThumbnailError::Decode(_)),
                }
                &&& rgb_len(w, h) > f.pixels@.len() ==> (r matches Err(ThumbnailError::Decode(m)) && m@
                    == "invalid frame dimensions"@)
                &&& (rgb_len(w, h) <= f.pixels@.len() && 1 <= w && 1 <= h <= 65535) ==> r is Ok
                &&& r matches Ok(b) ==> jpeg_thumbnail_of_size(b@, w, h)
            },
        },
        r matches Ok(b) ==> jpeg_framed(b@),
{
    match decoded {
        Ok(Some(frame)) => encode_frame(frame),
        Ok(None) => Err(ThumbnailError::Decode(String::from_str("decoder produced no frame"))),
        Err(e) => Err(ThumbnailError::Decode(e)),
    }
}

/// Decodes an H.264 access unit and encodes its picture as a JPEG
/// thumbnail (see `thumbnail_from_decoded`). Every failure is a decode
/// error; there is no thumbnail when the unit decodes to no picture; a
/// thumbnail of a unit decoding to a `w` by `h` picture is a JPEG of a
/// picture min(w, 640) pixels wide and of its aspect ratio. Its bytes are
/// not fixed by the unit: the decoder's RGB values may differ by one
/// between machines.
pub fn decode_and_encode(h264_data: &[u8]) -> (r: Result<Vec<u8>, ThumbnailError>)
    ensures
        r matches Ok(b) ==> (decoded_size(h264_data@) matches Some((w, h)) && jpeg_thumbnail_of_size(
            b@,
            w as u32,
            h as u32,
        )),
        decoded_size(h264_data@) is None ==> r is Err,
        r matches Ok(b) ==> jpeg_framed(b@),
        r matches Err(e) ==> e is Decode,
{
    let decoded = decode_unit(h264_data);
    thumbnail_from_decoded(decoded)
}

/// A thumbnail encodes the picture's own pixels (its first
/// width × height × 3 bytes) at quality 75: as they are when the picture is
/// at most 640 pixels wide, else as the image crate scales them to 640
/// pixels wide; a picture with too few pixels has none.
pub proof fn law_thumbnail_encodes_the_picture(width: usize, height: usize, pixels: Seq<u8>)
    ensures
        ({
            let w = width as u32;
            let h = height as u32;
            let own = pixels.take(rgb_len(w, h));
            let scaled = scaled_picture(w, h, own, THUMBNAIL_WIDTH);
            &&& (rgb_len(w, h) <= pixels.len() && 1 <= w <= THUMBNAIL_WIDTH && 1 <= h <= 65535) ==> thumbnail_jpeg(
                width,
                height,
                pixels,
            ) == Some(jpeg_bytes(w, h, own, THUMBNAIL_QUALITY))
            &&& (rgb_len(w, h) <= pixels.len() && w > THUMBNAIL_WIDTH && h >= 1 && 1 <= scaled.0 <= 65535 && 1
                <= scaled.1 <= 65535) ==> thumbnail_jpeg(width, height, pixels) == Some(
                jpeg_bytes(scaled.0, scaled.1, scaled.2, THUMBNAIL_QUALITY),
            )
            &&& rgb_len(w, h) > pixels.len() ==> thumbnail_jpeg(width, height, pixels) is None
        }),
{
}

} // verus!
