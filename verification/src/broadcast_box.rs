//! The stream summaries a Broadcast Box host reports, and the statuses of
//! the requested stream keys that follow from them.
use vstd::prelude::*;
use vstd::string::*;

use crate::models::{StreamInfo, StreamStatus};
use crate::text::{str_eq, strings_view};

verus! {

/// A video track of a live stream.
#[derive(Debug, Clone, Copy)]
pub struct VideoTrack {
    pub bitrate: i32,
    /// When the last keyframe was seen, in seconds since the Unix epoch.
    pub last_keyframe: i64,
}

/// An audio track of a live stream.
#[derive(Debug, Clone, Copy)]
pub struct AudioTrack {}

/// A viewer session of a live stream.
#[derive(Debug, Clone, Copy)]
pub struct Session {}

/// What a host reports of one live stream.
#[derive(Debug)]
pub struct StreamSummary {
    pub stream_key: String,
    pub is_public: bool,
    pub motd: String,
    /// When the stream started, in seconds since the Unix epoch.
    pub stream_start: i64,
    /// The nanoseconds past `stream_start` at which it started.
    pub stream_start_nanos: u32,
    pub video_tracks: Vec<VideoTrack>,
    pub sessions: Vec<Session>,
}

/// The status endpoint of a host: its URL followed by `/api/status`.
pub fn status_endpoint(base_url: &str) -> (r: String)
    ensures
        r@ == base_url@ + "/api/status"@,
{
    let mut s = String::from_str(base_url);
    s.append("/api/status");
    s
}

/// The index of the last summary for `key`, if any: a later summary for a
/// key replaces an earlier one.
pub open spec fn last_summary_for(s: Seq<StreamSummary>, key: Seq<char>) -> Option<int>
    decreases s.len(),
{
    if s.len() == 0 {
        None
    } else if s.last().stream_key@ == key {
        Some(s.len() - 1)
    } else {
        last_summary_for(s.drop_last(), key)
    }
}

/// The status a summary gives: online, started when the stream started,
/// with as many viewers as it has sessions.
pub open spec fn summary_status(s: StreamSummary) -> StreamStatus {
    StreamStatus::Online(
        StreamInfo { started: s.stream_start, started_nanos: s.stream_start_nanos, viewers: s.sessions@.len() as u32 },
    )
}

/// The status of `key`: from its last summary, or offline when the host
/// reports none.
pub open spec fn status_of(s: Seq<StreamSummary>, key: Seq<char>) -> StreamStatus {
    match last_summary_for(s, key) {
        Some(i) => summary_status(s[i]),
        None => StreamStatus::Offline,
    }
}

/// The status of each requested key, in the order requested.
pub fn statuses_for_keys(summaries: &Vec<StreamSummary>, keys: &Vec<String>) -> (r: Vec<(String, StreamStatus)>)
    ensures
        r@.len() == keys@.len(),
        forall|i: int|
            0 <= i < keys@.len() ==> (#[trigger] r@[i]).0@ == keys@[i]@ && r@[i].1 == status_of(summaries@, keys@[i]@),
{
    let mut out: Vec<(String, StreamStatus)> = Vec::new();
    let mut i: usize = 0;
    while i < keys.len()
        invariant
            i <= keys@.len(),
            out@.len() == i,
            forall|j: int|
                0 <= j < i ==> (#[trigger] out@[j]).0@ == keys@[j]@ && out@[j].1 == status_of(summaries@, keys@[j]@),
        decreases keys@.len() - i,
    {
        let status = status_for_key(summaries, keys[i].as_str());
        out.push((keys[i].clone(), status));
        i = i + 1;
    }
    out
}

/// The status of one key.
pub fn status_for_key(summaries: &Vec<StreamSummary>, key: &str) -> (r: StreamStatus)
    ensures
        r == status_of(summaries@, key@),
{
    let mut k: usize = summaries.len();
    assert(summaries@.take(k as int) =~= summaries@);
    while k > 0
        invariant
            k <= summaries@.len(),
            last_summary_for(summaries@, key@) == last_summary_for(summaries@.take(k as int), key@),
        decreases k,
    {
        let ghost t = summaries@.take(k as int);
        assert(t.last() == summaries@[k - 1]);
        assert(t.drop_last() =~= summaries@.take(k - 1));
        if str_eq(summaries[k - 1].stream_key.as_str(), key) {
            let s = &summaries[k - 1];
            let viewers: u32 = #[verifier::truncate] (s.sessions.len() as u32);
            return StreamStatus::Online(
                StreamInfo { started: s.stream_start, started_nanos: s.stream_start_nanos, viewers },
            );
        }
        k = k - 1;
    }
    assert(summaries@.take(0) =~= Seq::<StreamSummary>::empty());
    StreamStatus::Offline
}

} // verus!
