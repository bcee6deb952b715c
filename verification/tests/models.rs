use mira::error::{CoreError, ThumbnailError};
use mira::models::{Host, HostSubscription, StreamInfo, StreamState, StreamStatus, Subscription};

#[test]
fn stream_state_follows_the_stored_message() {
    match StreamState::new(Some(4), Some("game".to_string())) {
        StreamState::Online { message_id, playing } => {
            assert_eq!(message_id, 4);
            assert_eq!(playing.as_deref(), Some("game"));
        }
        _ => panic!("expected online"),
    }
    assert!(matches!(StreamState::new(None, Some("game".to_string())), StreamState::Offline));
}

#[test]
fn subscription_url_and_online_flag() {
    let hs = HostSubscription {
        host: Host { id: 1, url: "https://b.siobud.com".to_string(), auth_header: None, host_guild_id: 2 },
        subscription: Subscription { id: 3, key: "key".to_string(), channel_id: 4, token: None, message_id: None },
    };
    assert_eq!(hs.get_url(), "https://b.siobud.com/key");
    assert!(!hs.subscription.is_online());
}

#[test]
fn core_error_messages_and_texts() {
    let e = CoreError::StreamError("boom".to_string());
    assert_eq!(e.message(), "boom");
    assert_eq!(e.to_string(), "Stream error: boom");
    assert_eq!(CoreError::PersistenceError("db".to_string()).to_string(), "Persistence error: db");
    assert_eq!(CoreError::NotificationError("chat".to_string()).to_string(), "Notification error: chat");
    assert_eq!(CoreError::NotificationError("chat".to_string()).message(), "chat");
    assert_eq!(CoreError::HttpError("refused".to_string()).to_string(), "HTTP error: refused");
    assert_eq!(CoreError::HttpError("refused".to_string()).message(), "refused");
    let dup = CoreError::AlreadyExistsError("Subscription already exists.".to_string());
    assert_eq!(dup.message(), "Subscription already exists.");
    assert_eq!(dup.to_string(), "Already exists: Subscription already exists.");
}

#[test]
fn thumbnail_error_texts() {
    assert_eq!(ThumbnailError::Signaling("x".to_string()).to_string(), "WHEP signaling failed: x");
    assert_eq!(ThumbnailError::Timeout.to_string(), "timed out waiting for keyframe");
    assert_eq!(ThumbnailError::Decode("y".to_string()).to_string(), "decode or encode failed: y");
}

#[test]
fn status_texts() {
    assert_eq!(StreamStatus::Offline.to_string().as_deref(), Some("Offline"));
    let online = StreamStatus::Online(StreamInfo { started: 1_700_000_000, started_nanos: 0, viewers: 3 });
    assert_eq!(online.to_string().as_deref(), Some("Online. Started: 14/11/2023, 22:13, viewers: 3"));
}

#[test]
fn statuses_beyond_the_calendar_have_no_text() {
    let status = StreamStatus::Online(StreamInfo { started: i64::MIN, started_nanos: 0, viewers: 0 });
    assert_eq!(status.to_string(), None);
    assert_eq!(StreamStatus::Offline.to_string().as_deref(), Some("Offline"));
}
