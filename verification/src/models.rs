//! The records the library works on: hosts, subscriptions, stream states
//! and statuses.
use vstd::prelude::*;
use vstd::string::*;

use crate::datetime::{day_minute_text, format_day_minute, renderable_time};
use crate::text::{decimal, push_decimal};

verus! {

/// A Broadcast Box host as linked to one guild.
#[derive(Debug, Clone)]
pub struct Host {
    pub id: i64,
    pub url: String,
    pub auth_header: Option<String>,
    pub host_guild_id: i64,
}

/// What is stored of a subscription's stream: online with the message that
/// announces it (and what is playing), or offline.
#[derive(Debug)]
pub enum StreamState {
    Online { message_id: i64, playing: Option<String> },
    Offline,
}

impl StreamState {
    /// The state for a stored announcement message: online when there is
    /// one, offline otherwise.
    pub fn new(message_id: Option<i64>, playing: Option<String>) -> (r: StreamState)
        ensures
            match message_id {
                Some(id) => r == (StreamState::Online { message_id: id, playing }),
                None => r == StreamState::Offline,
            },
    {
        match message_id {
            Some(id) => StreamState::Online { message_id: id, playing },
            None => StreamState::Offline,
        }
    }
}

/// A subscription of a channel to one stream key of a host.
#[derive(Debug, Clone)]
pub struct Subscription {
    pub id: i64,
    pub key: String,
    pub channel_id: i64,
    pub token: Option<u128>,
    pub message_id: Option<i64>,
}

impl Subscription {
    /// Whether the stream is announced as online (an announcement message
    /// is stored).
    pub fn is_online(&self) -> (r: bool)
        ensures
            r == self.message_id is Some,
    {
        self.message_id.is_some()
    }
}

/// A subscription together with the host it belongs to.
#[derive(Debug, Clone)]
pub struct HostSubscription {
    pub host: Host,
    pub subscription: Subscription,
}

/// The address of a stream: the host's URL, a slash, then the key.
pub open spec fn stream_url_text(host_url: Seq<char>, key: Seq<char>) -> Seq<char> {
    host_url + "/"@ + key
}

/// Builds the address of a stream from its host's URL and its key.
pub fn stream_url(host_url: &str, key: &str) -> (r: String)
    ensures
        r@ == stream_url_text(host_url@, key@),
{
    let mut s = String::from_str(host_url);
    s.append("/");
    s.append(key);
    s
}

impl HostSubscription {
    /// The address of the subscribed stream.
    pub fn get_url(&self) -> (r: String)
        ensures
            r@ == stream_url_text(self.host.url@, self.subscription.key@),
    {
        stream_url(self.host.url.as_str(), self.subscription.key.as_str())
    }
}

/// What is known of a live stream: when it started (seconds since the Unix
/// epoch) and how many viewers it has.
#[derive(Debug, Clone, Copy, PartialEq, Eq, Structural)]
pub struct StreamInfo {
    pub started: i64,
    /// The nanoseconds past `started` at which the stream started.
    pub started_nanos: u32,
    pub viewers: u32,
}

/// Whether a stream is live.
#[derive(Debug, Clone, Copy, PartialEq, Eq, Structural)]
pub enum StreamStatus {
    Online(StreamInfo),
    Offline,
}

/// The text a status is displayed with, or `None` when its start time
/// cannot be rendered.
pub open spec fn status_text(s: StreamStatus) -> Option<Seq<char>> {
    match s {
        StreamStatus::Online(info) => match day_minute_text(info.started) {
            Some(t) => Some(
                "Online. Started: "@ + t + ", viewers: "@ + decimal(info.viewers as nat),
            ),
            None => None,
        },
        StreamStatus::Offline => Some("Offline"@),
    }
}

impl StreamStatus {
    /// The text this status is displayed with: `Offline`, or the start time
    /// and viewer count of a live stream. `None` when the start time cannot
    /// be rendered, which happens only far outside `renderable_time`.
    pub fn to_string(&self) -> (r: Option<String>)
        ensures
            r matches Some(t) ==> status_text(*self) == Some(t@),
            r is None ==> status_text(*self) is None,
            (match *self {
                StreamStatus::Online(info) => renderable_time(info.started),
                StreamStatus::Offline => true,
            }) ==> r is Some,
    {
        match self {
            StreamStatus::Online(info) => {
                match format_day_minute(info.started) {
                    Some(t) => {
                        let mut s = String::from_str("Online. Started: ");
                        s.append(t.as_str());
                        s.append(", viewers: ");
                        push_decimal(&mut s, info.viewers as u64);
                        Some(s)
                    },
                    None => None,
                }
            },
            StreamStatus::Offline => Some(String::from_str("Offline")),
        }
    }
}

} // verus!
