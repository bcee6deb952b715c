use mira::models::{StreamInfo, StreamState, StreamStatus};
use mira::notifier::{plan_notification, state_change_after, stored_message_id, NotifyAction, StateChange};

fn info() -> StreamInfo {
    StreamInfo { started: 10, started_nanos: 0, viewers: 3 }
}

#[test]
fn going_online_posts_and_stores_the_message() {
    let a = plan_notification(StreamStatus::Online(info()), StreamState::Offline);
    assert!(matches!(a, NotifyAction::SendOnline { .. }));
    assert_eq!(state_change_after(&a, 991), Some(StateChange::Online { message_id: 991 }));
}

#[test]
fn staying_online_edits_without_a_state_change() {
    let a = plan_notification(
        StreamStatus::Online(info()),
        StreamState::Online { message_id: 5, playing: Some("x".to_string()) },
    );
    match &a {
        NotifyAction::UpdateOnline { message_id, playing, .. } => {
            assert_eq!(*message_id, 5);
            assert_eq!(playing.as_deref(), Some("x"));
        }
        _ => panic!("expected an update"),
    }
    assert_eq!(state_change_after(&a, 1), None);
}

#[test]
fn going_offline_closes_the_message() {
    let a = plan_notification(StreamStatus::Offline, StreamState::Online { message_id: 5, playing: None });
    assert!(matches!(a, NotifyAction::SendOffline { message_id: 5, .. }));
    assert_eq!(state_change_after(&a, 1), Some(StateChange::Offline));
}

#[test]
fn staying_offline_does_nothing() {
    let a = plan_notification(StreamStatus::Offline, StreamState::Offline);
    assert!(matches!(a, NotifyAction::Nothing));
    assert_eq!(state_change_after(&a, 1), None);
}

#[test]
fn message_ids_are_stored_as_signed_numbers() {
    let a = plan_notification(StreamStatus::Online(info()), StreamState::Offline);
    assert_eq!(state_change_after(&a, u64::MAX), Some(StateChange::Online { message_id: -1 }));
    assert_eq!(stored_message_id(-1), u64::MAX);
    assert_eq!(stored_message_id(77), 77);
}
