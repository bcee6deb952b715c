use mira::dispatcher::Dispatcher;
use mira::worker::Command;

#[test]
fn default_polling_interval_is_thirty_seconds() {
    assert_eq!(Dispatcher::new(None).interval_secs(), 30);
    assert_eq!(Dispatcher::new(Some(5)).interval_secs(), 5);
}

#[test]
fn one_worker_per_host() {
    let mut d = Dispatcher::new(None);
    let first = d.register("http://h".to_string(), "k1".to_string());
    assert!(first.spawn_worker);
    let second = d.register("http://h".to_string(), "k2".to_string());
    assert!(!second.spawn_worker);
    let other = d.register("http://other".to_string(), "k1".to_string());
    assert!(other.spawn_worker);
    match second.command {
        Command::AddKey(key, token) => {
            assert_eq!(key, "k2");
            assert_eq!(token, second.token);
        }
        _ => panic!("expected an AddKey command"),
    }
}

#[test]
fn tokens_are_version_four_uuids() {
    let mut d = Dispatcher::new(None);
    let a = d.register("http://h".to_string(), "k".to_string()).token;
    assert_eq!((a >> 76) & 0xF, 4);
    assert_eq!((a >> 62) & 0x3, 2);
    let b = d.register("http://h".to_string(), "k".to_string()).token;
    assert_ne!(a, b);
}

#[test]
fn deregistering_from_a_host_without_worker_is_ignored() {
    let mut d = Dispatcher::new(None);
    assert!(d.deregister("http://h", 3).is_none());
    d.register("http://h".to_string(), "k".to_string());
    assert!(matches!(d.deregister("http://h", 3), Some(Command::RemoveCallback(3))));
    d.worker_stopped("http://h");
    assert!(d.deregister("http://h", 3).is_none());
    assert!(d.register("http://h".to_string(), "k".to_string()).spawn_worker);
}

#[test]
fn stopping_one_hosts_worker_keeps_the_others() {
    let mut d = Dispatcher::new(Some(10));
    d.register("http://a".to_string(), "k".to_string());
    d.register("http://b".to_string(), "k".to_string());
    d.worker_stopped("http://a");
    assert!(!d.has_worker("http://a"));
    assert!(d.has_worker("http://b"));
    assert!(!d.register("http://b".to_string(), "k2".to_string()).spawn_worker);
    assert!(d.register("http://a".to_string(), "k2".to_string()).spawn_worker);
    assert_eq!(d.interval_secs(), 10);
}
