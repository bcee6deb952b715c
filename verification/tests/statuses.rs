use mira::broadcast_box::{statuses_for_keys, Session, StreamSummary, VideoTrack};
use mira::models::{StreamInfo, StreamStatus};

fn summary(key: &str, start: i64, viewers: usize) -> StreamSummary {
    StreamSummary {
        stream_key: key.to_string(),
        is_public: true,
        motd: String::new(),
        stream_start: start,
        stream_start_nanos: 0,
        video_tracks: vec![VideoTrack { bitrate: 1000, last_keyframe: start }],
        sessions: vec![Session {}; viewers],
    }
}

#[test]
fn reported_keys_are_online_with_viewer_counts() {
    let s = vec![summary("a", 100, 2), summary("b", 200, 0)];
    let r = statuses_for_keys(&s, &vec!["a".to_string(), "c".to_string(), "b".to_string()]);
    assert_eq!(r.len(), 3);
    assert_eq!(r[0], ("a".to_string(), StreamStatus::Online(StreamInfo { started: 100, started_nanos: 0, viewers: 2 })));
    assert_eq!(r[1], ("c".to_string(), StreamStatus::Offline));
    assert_eq!(r[2], ("b".to_string(), StreamStatus::Online(StreamInfo { started: 200, started_nanos: 0, viewers: 0 })));
}

#[test]
fn a_later_summary_for_a_key_wins() {
    let s = vec![summary("a", 100, 2), summary("a", 300, 5)];
    let r = statuses_for_keys(&s, &vec!["a".to_string()]);
    assert_eq!(r[0].1, StreamStatus::Online(StreamInfo { started: 300, started_nanos: 0, viewers: 5 }));
}

#[test]
fn no_keys_no_statuses() {
    assert!(statuses_for_keys(&vec![summary("a", 1, 1)], &vec![]).is_empty());
}
