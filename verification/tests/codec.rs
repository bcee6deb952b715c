use mira::codec::{decode_and_encode, encode_frame, thumbnail_from_decoded, RgbFrame};
use mira::error::ThumbnailError;

/// The width and height recorded in a JPEG's start-of-frame segment.
fn jpeg_size(buf: &[u8]) -> Option<(u16, u16)> {
    let mut i = 2;
    while i + 9 < buf.len() {
        if buf[i] == 0xFF && (buf[i + 1] == 0xC0 || buf[i + 1] == 0xC2) {
            let h = u16::from_be_bytes([buf[i + 5], buf[i + 6]]);
            let w = u16::from_be_bytes([buf[i + 7], buf[i + 8]]);
            return Some((w, h));
        }
        i += 1;
    }
    None
}

#[test]
fn resize_and_encode_produces_valid_jpeg() {
    // Build a synthetic 1920x1080 RGB image (bypasses openh264, tests resize+encode path)
    let raw = vec![128u8; 1920 * 1080 * 3];
    let buf = encode_frame(RgbFrame { width: 1920, height: 1080, pixels: raw }).unwrap();
    assert!(jpeg_size(&buf).map(|(w, _)| w) == Some(640));

    // JPEG magic bytes: FF D8
    assert!(buf.starts_with(&[0xFF, 0xD8]));
    assert!(!buf.is_empty());
}

#[test]
fn short_pixel_buffers_are_refused() {
    match encode_frame(RgbFrame { width: 4, height: 4, pixels: vec![0u8; 10] }) {
        Err(ThumbnailError::Decode(m)) => assert_eq!(m, "invalid frame dimensions"),
        _ => panic!("expected a decode error"),
    }
}

#[test]
fn garbage_is_not_a_picture() {
    match decode_and_encode(&[1, 2, 3, 4]) {
        Err(ThumbnailError::Decode(_)) => {}
        _ => panic!("expected a decode error"),
    }
}

#[test]
fn thumbnails_are_framed_jpeg_streams() {
    let buf = encode_frame(RgbFrame { width: 16, height: 8, pixels: vec![200u8; 16 * 8 * 3] }).unwrap();
    assert!(buf.len() >= 4);
    assert_eq!(&buf[..2], &[0xFF, 0xD8]);
    assert_eq!(&buf[buf.len() - 2..], &[0xFF, 0xD9]);
}

#[test]
fn narrow_pictures_keep_their_size() {
    let buf = encode_frame(RgbFrame { width: 320, height: 240, pixels: vec![90u8; 320 * 240 * 3] }).unwrap();
    assert_eq!(jpeg_size(&buf), Some((320, 240)));
    let exact = encode_frame(RgbFrame { width: 640, height: 10, pixels: vec![90u8; 640 * 10 * 3] }).unwrap();
    assert_eq!(jpeg_size(&exact), Some((640, 10)));
}

#[test]
fn wide_pictures_are_scaled_to_640_keeping_their_shape() {
    let buf = encode_frame(RgbFrame { width: 1280, height: 720, pixels: vec![10u8; 1280 * 720 * 3] }).unwrap();
    assert_eq!(jpeg_size(&buf), Some((640, 360)));
}

#[test]
fn extra_pixel_bytes_are_ignored() {
    let mut pixels = vec![50u8; 8 * 8 * 3];
    pixels.extend_from_slice(&[1, 2, 3, 4, 5]);
    let with_extra = encode_frame(RgbFrame { width: 8, height: 8, pixels }).unwrap();
    let exact = encode_frame(RgbFrame { width: 8, height: 8, pixels: vec![50u8; 8 * 8 * 3] }).unwrap();
    assert_eq!(with_extra, exact);
}

#[test]
fn empty_pictures_are_not_encoded() {
    assert!(matches!(
        encode_frame(RgbFrame { width: 0, height: 5, pixels: vec![] }),
        Err(ThumbnailError::Decode(_))
    ));
    assert!(matches!(
        encode_frame(RgbFrame { width: 700, height: 0, pixels: vec![] }),
        Err(ThumbnailError::Decode(_))
    ));
}

#[test]
fn decoder_outcomes_become_thumbnails_or_errors() {
    match thumbnail_from_decoded(Ok(None)) {
        Err(ThumbnailError::Decode(m)) => assert_eq!(m, "decoder produced no frame"),
        _ => panic!("expected a decode error"),
    }
    match thumbnail_from_decoded(Err("corrupt".to_string())) {
        Err(ThumbnailError::Decode(m)) => assert_eq!(m, "corrupt"),
        _ => panic!("expected a decode error"),
    }
    let frame = RgbFrame { width: 4, height: 4, pixels: vec![7u8; 48] };
    let buf = thumbnail_from_decoded(Ok(Some(frame))).unwrap();
    assert_eq!(jpeg_size(&buf), Some((4, 4)));
}

#[test]
fn scaled_heights_keep_the_aspect_ratio() {
    let buf = encode_frame(RgbFrame { width: 1000, height: 333, pixels: vec![30u8; 1000 * 333 * 3] }).unwrap();
    assert_eq!(jpeg_size(&buf), Some((640, 213)));
    let thin = encode_frame(RgbFrame { width: 2000, height: 1, pixels: vec![30u8; 2000 * 3] }).unwrap();
    assert_eq!(jpeg_size(&thin), Some((640, 1)));
}
