use mira::error::ThumbnailError;
use mira::whep::check_offer_response;

#[test]
fn created_answers_give_their_location() {
    let r = check_offer_response(201, "201 Created", Some("/api/whep/session-abc".to_string()));
    assert_eq!(r.unwrap(), "/api/whep/session-abc");
}

#[test]
fn other_statuses_are_signaling_errors() {
    match check_offer_response(403, "403 Forbidden", Some("x".to_string())) {
        Err(ThumbnailError::Signaling(m)) => assert_eq!(m, "expected 201, got 403 Forbidden"),
        _ => panic!("expected a signaling error"),
    }
}

#[test]
fn a_missing_location_is_a_signaling_error() {
    match check_offer_response(201, "201 Created", None) {
        Err(ThumbnailError::Signaling(m)) => assert_eq!(m, "missing Location header"),
        _ => panic!("expected a signaling error"),
    }
}
