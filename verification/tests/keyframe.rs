use mira::h264::is_keyframe;

#[test]
fn detects_idr_nal_unit_in_annex_b() {
    // Annex B start code + NAL type 5 (IDR slice) header byte
    let frame = vec![0x00, 0x00, 0x00, 0x01, 0x65, 0x00];
    assert!(is_keyframe(&frame));
}

#[test]
fn rejects_non_idr_nal_unit() {
    // NAL type 1 (non-IDR slice)
    let frame = vec![0x00, 0x00, 0x00, 0x01, 0x41, 0x00];
    assert!(!is_keyframe(&frame));
}

#[test]
fn detects_idr_after_three_byte_start_code() {
    let frame = vec![0x09, 0x00, 0x00, 0x01, 0x25, 0x88, 0x00];
    assert!(is_keyframe(&frame));
}

#[test]
fn finds_idr_after_other_nal_units() {
    // SPS (type 7), then an IDR slice further on
    let frame = vec![0x00, 0x00, 0x00, 0x01, 0x67, 0x42, 0x00, 0x00, 0x01, 0x65, 0x11, 0x22];
    assert!(is_keyframe(&frame));
}

#[test]
fn start_code_at_the_very_end_is_not_a_keyframe() {
    // the start code leaves no room for a NAL header byte
    assert!(!is_keyframe(&[0x00, 0x00, 0x00, 0x01]));
    assert!(!is_keyframe(&[]));
    assert!(!is_keyframe(&[0x65, 0x65, 0x65]));
}

#[test]
fn keyframe_survives_more_bytes_around_it() {
    let frame = vec![0x00, 0x00, 0x00, 0x01, 0x65, 0x00];
    let mut longer = vec![0xAA, 0xBB];
    longer.extend_from_slice(&frame);
    longer.extend_from_slice(&[0x01, 0x02, 0x03]);
    assert!(is_keyframe(&longer));
}

#[test]
fn bytes_without_zero_are_never_keyframes() {
    let frame: Vec<u8> = (1u8..=255).collect();
    assert!(!is_keyframe(&frame));
}
