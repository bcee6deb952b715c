use mira::error::CoreError;
use mira::models::{Host, HostSubscription, Subscription};
use mira::notifier::StateChange;
use mira::subscription::{
    bearer, check_new_host, duplicate_subscription_error, follow_ups, host_watch_tokens, normalize_host_url,
    host_url_from_input, thumbnail_file_name, thumbnail_interval, thumbnail_is_fresh, whep_url, FollowUp,
};

fn host(id: i64, url: &str, link: i64) -> Host {
    Host { id, url: url.to_string(), auth_header: None, host_guild_id: link }
}

#[test]
fn host_urls_lose_trailing_slashes() {
    assert_eq!(normalize_host_url("https://b.siobud.com///"), "https://b.siobud.com");
    assert_eq!(normalize_host_url("https://b.siobud.com"), "https://b.siobud.com");
    assert_eq!(normalize_host_url("///"), "");
}

#[test]
fn typed_host_urls_are_serialized_by_the_url_crate() {
    assert_eq!(host_url_from_input("https://b.siobud.com").as_deref(), Some("https://b.siobud.com"));
    assert_eq!(host_url_from_input("HTTPS://Example.COM/a").as_deref(), Some("https://example.com/a"));
    assert_eq!(host_url_from_input("https://example.com/a/b//").as_deref(), Some("https://example.com/a/b"));
    assert!(host_url_from_input("b.siobud.com").is_none());
}

#[test]
fn a_host_is_added_once_per_guild() {
    let hosts = vec![host(1, "https://a.com", 10)];
    assert_eq!(check_new_host(&hosts, "https://b.com/").unwrap(), "https://b.com");
    match check_new_host(&hosts, "https://a.com/") {
        Err(CoreError::StreamError(m)) => assert_eq!(m, "Host already exists!"),
        _ => panic!("expected a refusal"),
    }
    match duplicate_subscription_error() {
        CoreError::AlreadyExistsError(m) => assert_eq!(m, "Subscription already exists."),
        _ => panic!("expected a stream error"),
    }
}

#[test]
fn whep_endpoint_and_bearer() {
    assert_eq!(whep_url("https://b.siobud.com"), "https://b.siobud.com/api/whep");
    assert_eq!(bearer("my-key"), "Bearer my-key");
}

#[test]
fn thumbnail_names_are_url_uuids() {
    assert_eq!(thumbnail_file_name("https://b.siobud.com", "mykey"), "2f9ea4d7-fa06-54e6-8fa8-8db1e8bb26e0.jpg");
}

#[test]
fn thumbnail_settings_and_freshness() {
    assert_eq!(thumbnail_interval(Some("60")), Some(60));
    assert_eq!(thumbnail_interval(Some("soon")), None);
    assert_eq!(thumbnail_interval(None), None);
    assert!(thumbnail_is_fresh(Some(10), 300));
    assert!(!thumbnail_is_fresh(Some(300), 300));
    assert!(!thumbnail_is_fresh(None, 300));
}

fn kinds(v: &[FollowUp]) -> Vec<u8> {
    v.iter()
        .map(|f| match f {
            FollowUp::MarkOnline { .. } => 0,
            FollowUp::MarkOffline { .. } => 1,
            FollowUp::CancelCapture { .. } => 2,
            FollowUp::StartCapture { .. } => 3,
            FollowUp::RemoveThumbnail { .. } => 4,
        })
        .collect()
}

#[test]
fn follow_ups_of_state_changes() {
    let on = follow_ups(Some(StateChange::Online { message_id: 8 }), 3, true, "https://h", "k");
    assert_eq!(kinds(&on), vec![0, 2, 3]);
    match &on[2] {
        FollowUp::StartCapture { subscription_id, whep_url, auth_header } => {
            assert_eq!(*subscription_id, 3);
            assert_eq!(whep_url, "https://h/api/whep");
            assert_eq!(auth_header, "Bearer k");
        }
        _ => panic!("expected a capture"),
    }
    assert_eq!(kinds(&follow_ups(Some(StateChange::Online { message_id: 8 }), 3, false, "h", "k")), vec![0]);
    assert_eq!(kinds(&follow_ups(Some(StateChange::Offline), 3, true, "h", "k")), vec![1, 2, 4]);
    assert_eq!(kinds(&follow_ups(Some(StateChange::Offline), 3, false, "h", "k")), vec![1, 2]);
    assert!(follow_ups(None, 3, true, "h", "k").is_empty());
}

#[test]
fn removing_a_host_stops_its_watches() {
    let sub = |id: i64, token: Option<u128>| Subscription { id, key: format!("k{id}"), channel_id: 1, token, message_id: None };
    let subs = vec![
        HostSubscription { host: host(1, "a", 10), subscription: sub(1, Some(11)) },
        HostSubscription { host: host(2, "b", 20), subscription: sub(2, Some(22)) },
        HostSubscription { host: host(1, "a", 10), subscription: sub(3, None) },
        HostSubscription { host: host(1, "a", 10), subscription: sub(4, Some(44)) },
    ];
    assert_eq!(host_watch_tokens(&subs, 10), vec![11, 44]);
    assert!(host_watch_tokens(&subs, 30).is_empty());
}

#[test]
fn a_read_host_url_is_stored_as_is() {
    let read = host_url_from_input("https://b.siobud.com/live///").unwrap();
    assert_eq!(read, "https://b.siobud.com/live");
    assert_eq!(check_new_host(&vec![], &read).unwrap(), read);
    let hosts = vec![host(1, &read, 10)];
    assert!(check_new_host(&hosts, &read).is_err());
}
