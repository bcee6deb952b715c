//! The errors of the library.
use vstd::prelude::*;
use vstd::string::*;

verus! {

/// An error raised while watching streams, storing state or notifying.
#[derive(Debug)]
pub enum CoreError {
    StreamError(String),
    PersistenceError(String),
    NotificationError(String),
    /// A request to a host failed or its answer did not read.
    HttpError(String),
    /// What was to be added is there already.
    AlreadyExistsError(String),
}

/// The message an error carries.
pub open spec fn core_error_message(e: CoreError) -> Seq<char> {
    match e {
        CoreError::StreamError(msg) => msg@,
        CoreError::PersistenceError(msg) => msg@,
        CoreError::NotificationError(msg) => msg@,
        CoreError::HttpError(msg) => msg@,
        CoreError::AlreadyExistsError(msg) => msg@,
    }
}

/// The text an error is displayed with: a prefix naming its kind, then
/// its message.
pub open spec fn core_error_text(e: CoreError) -> Seq<char> {
    match e {
        CoreError::StreamError(msg) => "Stream error: "@ + msg@,
        CoreError::PersistenceError(msg) => "Persistence error: "@ + msg@,
        CoreError::NotificationError(msg) => "Notification error: "@ + msg@,
        CoreError::HttpError(msg) => "HTTP error: "@ + msg@,
        CoreError::AlreadyExistsError(msg) => "Already exists: "@ + msg@,
    }
}

impl CoreError {
    /// The message this error carries.
    pub fn message(&self) -> (r: &str)
        ensures
            r@ == core_error_message(*self),
    {
        match self {
            CoreError::StreamError(msg) => msg.as_str(),
            CoreError::PersistenceError(msg) => msg.as_str(),
            CoreError::NotificationError(msg) => msg.as_str(),
            CoreError::HttpError(msg) => msg.as_str(),
            CoreError::AlreadyExistsError(msg) => msg.as_str(),
        }
    }

    /// The text this error is displayed with.
    pub fn to_string(&self) -> (r: String)
        ensures
            r@ == core_error_text(*self),
    {
        match self {
            CoreError::StreamError(msg) => {
                let mut s = String::from_str("Stream error: ");
                s.append(msg.as_str());
                s
            },
            CoreError::PersistenceError(msg) => {
                let mut s = String::from_str("Persistence error: ");
                s.append(msg.as_str());
                s
            },
            CoreError::NotificationError(msg) => {
                let mut s = String::from_str("Notification error: ");
                s.append(msg.as_str());
                s
            },
            CoreError::HttpError(msg) => {
                let mut s = String::from_str("HTTP error: ");
                s.append(msg.as_str());
                s
            },
            CoreError::AlreadyExistsError(msg) => {
                let mut s = String::from_str("Already exists: ");
                s.append(msg.as_str());
                s
            },
        }
    }
}

/// An error raised while capturing a thumbnail.
#[derive(Debug)]
pub enum ThumbnailError {
    Signaling(String),
    Timeout,
    Decode(String),
}

/// The text a thumbnail error is displayed with.
pub open spec fn thumbnail_error_text(e: ThumbnailError) -> Seq<char> {
    match e {
        ThumbnailError::Signaling(msg) => "WHEP signaling failed: "@ + msg@,
        ThumbnailError::Timeout => "timed out waiting for keyframe"@,
        ThumbnailError::Decode(msg) => "decode or encode failed: "@ + msg@,
    }
}

impl ThumbnailError {
    /// The text this error is displayed with.
    pub fn to_string(&self) -> (r: String)
        ensures
            r@ == thumbnail_error_text(*self),
    {
        match self {
            ThumbnailError::Signaling(msg) => {
                let mut s = String::from_str("WHEP signaling failed: ");
                s.append(msg.as_str());
                s
            },
            ThumbnailError::Timeout => String::from_str("timed out waiting for keyframe"),
            ThumbnailError::Decode(msg) => {
                let mut s = String::from_str("decode or encode failed: ");
                s.append(msg.as_str());
                s
            },
        }
    }
}

} // verus!
