//! WHEP signaling: what the answer to an SDP offer must look like.
use vstd::prelude::*;
use vstd::string::*;

use crate::error::ThumbnailError;

verus! {

/// The outcome of an offer answered with HTTP status `status` (rendered as
/// `status_text`) and the given `Location` header: the session location when
/// the status is 201 Created and the header is there, else a signaling
/// error saying what was wrong.
pub open spec fn offer_outcome(status: u16, status_text: Seq<char>, location: Option<Seq<char>>) -> Result<
    Seq<char>,
    Seq<char>,
> {
    if status != 201 {
        Err("expected 201, got "@ + status_text)
    } else {
        match location {
            Some(l) => Ok(l),
            None => Err("missing Location header"@),
        }
    }
}

/// Checks the answer to an offer; `location` is the `Location` header when
/// present and readable as text.
pub fn check_offer_response(status: u16, status_text: &str, location: Option<String>) -> (r: Result<String, ThumbnailError>)
    ensures
        match offer_outcome(status, status_text@, match location { Some(l) => Some(l@), None => None }) {
            Ok(l) => r matches Ok(s) && s@ == l,
            Err(m) => r matches Err(ThumbnailError::Signaling(s)) && s@ == m,
        },
{
    if status != 201 {
        let mut m = String::from_str("expected 201, got ");
        m.append(status_text);
        return Err(ThumbnailError::Signaling(m));
    }
    match location {
        Some(l) => Ok(l),
        None => Err(ThumbnailError::Signaling(String::from_str("missing Location header"))),
    }
}

} // verus!
