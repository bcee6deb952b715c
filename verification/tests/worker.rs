use mira::worker::{Command, WorkerState, WorkerStep};

fn keys(v: &[mira::worker::Registration]) -> Vec<(String, u128)> {
    v.iter().map(|r| (r.key.clone(), r.token)).collect()
}

#[test]
fn multiple_callbacks_for_same_key_are_all_called() {
    let mut w = WorkerState::new(None);
    let token_a = 1u128;
    let token_b = 2u128;
    w.handle_command(Command::AddKey("key1".to_string(), token_a));
    w.handle_command(Command::AddKey("key1".to_string(), token_b));
    let poll = w.keys_to_poll().expect("keys to poll");
    assert_eq!(poll, vec!["key1".to_string()]);
    let due = w.callbacks_due(&vec!["key1".to_string()]);
    assert!(keys(&due).contains(&("key1".to_string(), token_a)), "callback A was never called");
    assert!(keys(&due).contains(&("key1".to_string(), token_b)), "callback B was never called");
}

#[test]
fn remove_callback_leaves_other_callbacks_intact() {
    let mut w = WorkerState::new(None);
    let token_a = 10u128;
    let token_b = 20u128;
    w.handle_command(Command::AddKey("key1".to_string(), token_a));
    w.handle_command(Command::AddKey("key1".to_string(), token_b));
    let out = w.handle_command(Command::RemoveCallback(token_a));
    assert_eq!(out.step, WorkerStep::Continue);
    assert_eq!(out.removed_keys, vec!["key1".to_string()]);
    let due = w.callbacks_due(&vec!["key1".to_string()]);
    assert!(!keys(&due).contains(&("key1".to_string(), token_a)), "removed callback A should not have been called");
    assert!(keys(&due).contains(&("key1".to_string(), token_b)), "callback B should still be called");
}

#[test]
fn worker_closes_when_last_callback_removed() {
    let mut w = WorkerState::new(None);
    let token = 7u128;
    w.handle_command(Command::AddKey("key1".to_string(), token));
    let out = w.handle_command(Command::RemoveCallback(token));
    assert_eq!(out.step, WorkerStep::Close, "worker should have exited after last callback removed");
}

#[test]
fn removing_an_unknown_token_from_an_empty_worker_closes_it() {
    let mut w = WorkerState::new(None);
    assert_eq!(w.handle_command(Command::RemoveCallback(5)).step, WorkerStep::Close);
}

#[test]
fn empty_worker_skips_polling() {
    let w = WorkerState::new(Some(2));
    assert!(w.keys_to_poll().is_none());
}

#[test]
fn poll_asks_each_key_once_and_runs_only_reported_keys() {
    let mut w = WorkerState::new(None);
    w.handle_command(Command::AddKey("a".to_string(), 1));
    w.handle_command(Command::AddKey("b".to_string(), 2));
    w.handle_command(Command::AddKey("a".to_string(), 3));
    let mut poll = w.keys_to_poll().unwrap();
    poll.sort();
    assert_eq!(poll, vec!["a".to_string(), "b".to_string()]);
    let due = w.callbacks_due(&vec!["a".to_string()]);
    assert_eq!(keys(&due), vec![("a".to_string(), 1), ("a".to_string(), 3)]);
}

#[test]
fn adding_twice_registers_once() {
    let mut w = WorkerState::new(None);
    w.handle_command(Command::AddKey("a".to_string(), 1));
    w.handle_command(Command::AddKey("a".to_string(), 1));
    assert_eq!(w.registrations().len(), 1);
}

#[test]
fn add_then_remove_restores_the_registrations() {
    let mut w = WorkerState::new(None);
    w.handle_command(Command::AddKey("a".to_string(), 1));
    let before = keys(&w.registrations());
    w.handle_command(Command::AddKey("b".to_string(), 9));
    w.handle_command(Command::RemoveCallback(9));
    assert_eq!(keys(&w.registrations()), before);
}

#[test]
fn worker_closes_at_the_default_third_error() {
    let mut w = WorkerState::new(None);
    assert_eq!(w.remaining_errors(), 3);
    assert_eq!(w.record_error(), WorkerStep::Continue);
    assert_eq!(w.record_error(), WorkerStep::Continue);
    assert_eq!(w.record_error(), WorkerStep::Close);
}

#[test]
fn worker_closes_at_a_given_budget() {
    let mut w = WorkerState::new(Some(1));
    assert_eq!(w.record_error(), WorkerStep::Close);
}

#[test]
fn removing_a_token_reports_each_of_its_keys_in_order() {
    let mut w = WorkerState::new(None);
    w.handle_command(Command::AddKey("b".to_string(), 1));
    w.handle_command(Command::AddKey("a".to_string(), 2));
    w.handle_command(Command::AddKey("a".to_string(), 1));
    let out = w.handle_command(Command::RemoveCallback(1));
    assert_eq!(out.removed_keys, vec!["b".to_string(), "a".to_string()]);
    assert_eq!(out.step, WorkerStep::Continue);
    assert_eq!(keys(&w.registrations()), vec![("a".to_string(), 2)]);
    let added = w.handle_command(Command::AddKey("c".to_string(), 3));
    assert!(added.removed_keys.is_empty());
}
