//! Which host workers run: one per host URL, started on the first
//! registration for that host and forgotten when the worker stops.
use vstd::prelude::*;

use crate::ids::{new_token, rfc4122_variant, uuid_version};
use crate::worker::Command;

verus! {

#[verifier::external_type_specification]
#[verifier::external_body]
#[verifier::reject_recursive_types(K)]
#[verifier::reject_recursive_types(V)]
#[verifier::reject_recursive_types(S)]
pub struct ExDashMap<K, V, S>(dashmap::DashMap<K, V, S>);

/// The keys held by a `DashMap` of host URLs, as text.
pub uninterp spec fn url_keys(m: dashmap::DashMap<String, ()>) -> Set<Seq<char>>;

/// An empty map.
///
/// Calls `DashMap::new`, which holds no entry.
#[verifier::external_body]
fn new_url_map() -> (r: dashmap::DashMap<String, ()>)
    ensures
        url_keys(r) == Set::<Seq<char>>::empty(),
{
    dashmap::DashMap::new()
}

/// Whether the map holds `url`.
///
/// Calls `DashMap::contains_key`; keys are compared as text (`String`'s
/// `Eq` and `Hash`).
#[verifier::external_body]
fn url_map_contains(m: &dashmap::DashMap<String, ()>, url: &str) -> (r: bool)
    ensures
        r == url_keys(*m).contains(url@),
{
    m.contains_key(url)
}

/// Adds `url` to the map.
///
/// Calls `DashMap::insert`, which adds the key or, when it is there,
/// replaces its value and keeps the key.
#[verifier::external_body]
fn url_map_insert(m: &mut dashmap::DashMap<String, ()>, url: String)
    ensures
        url_keys(*final(m)) == url_keys(*old(m)).insert(url@),
{
    m.insert(url, ());
}

/// Takes `url` out of the map.
///
/// Calls `DashMap::remove`, which removes the key when it is there and
/// leaves the map as it is otherwise.
#[verifier::external_body]
fn url_map_remove(m: &mut dashmap::DashMap<String, ()>, url: &str)
    ensures
        url_keys(*final(m)) == url_keys(*old(m)).remove(url@),
{
    m.remove(url);
}

/// The polling interval in seconds: the given one, or 30.
pub open spec fn polling_interval(given: Option<u64>) -> u64 {
    match given {
        Some(s) => s,
        None => 30,
    }
}

/// What registering a stream asks of the caller: whether to start a worker
/// for the host first, the token of the new registration, and the command
/// to send to the host's worker.
pub struct Registered {
    pub spawn_worker: bool,
    pub token: u128,
    pub command: Command,
}

/// The host workers that run, by host URL.
pub struct Dispatcher {
    workers: dashmap::DashMap<String, ()>,
    interval_secs: u64,
}

impl Dispatcher {
    /// The URLs of the hosts whose worker runs.
    pub closed spec fn view(&self) -> Set<Seq<char>> {
        url_keys(self.workers)
    }

    pub closed spec fn interval(&self) -> u64 {
        self.interval_secs
    }

    /// A dispatcher with no workers, polling every `polling_interval_secs`
    /// seconds (30 when not given).
    pub fn new(polling_interval_secs: Option<u64>) -> (r: Dispatcher)
        ensures
            r.view() == Set::<Seq<char>>::empty(),
            r.interval() == polling_interval(polling_interval_secs),
    {
        let interval_secs = match polling_interval_secs {
            Some(s) => s,
            None => 30,
        };
        Dispatcher { workers: new_url_map(), interval_secs }
    }

    /// The polling interval in seconds.
    pub fn interval_secs(&self) -> (r: u64)
        ensures
            r == self.interval(),
    {
        self.interval_secs
    }

    /// Whether a worker runs for `url`.
    pub fn has_worker(&self, url: &str) -> (r: bool)
        ensures
            r == self.view().contains(url@),
    {
        url_map_contains(&self.workers, url)
    }

    /// Registers a stream key of the host at `url`. A worker is started
    /// exactly when none runs for the host; the registration gets a fresh
    /// token and is sent to the host's worker.
    pub fn register(&mut self, url: String, key: String) -> (r: Registered)
        ensures
            final(self).interval() == old(self).interval(),
            r.spawn_worker == !old(self).view().contains(url@),
            final(self).view() == old(self).view().insert(url@),
            uuid_version(r.token) == 4,
            rfc4122_variant(r.token),
            r.command == Command::AddKey(key, r.token),
    {
        let spawn_worker = !self.has_worker(url.as_str());
        if spawn_worker {
            url_map_insert(&mut self.workers, url);
        } else {
            assert(self.view().insert(url@) =~= self.view());
        }
        let token = new_token();
        Registered { spawn_worker, token, command: Command::AddKey(key, token) }
    }

    /// Deregisters a token from the worker of the host at `url`: the command
    /// to send to it, or `None` (the request is ignored) when no worker runs
    /// for that host.
    pub fn deregister(&self, url: &str, token: u128) -> (r: Option<Command>)
        ensures
            r == (if self.view().contains(url@) {
                Some(Command::RemoveCallback(token))
            } else {
                None
            }),
    {
        if self.has_worker(url) {
            Some(Command::RemoveCallback(token))
        } else {
            None
        }
    }

    /// Forgets the worker of the host at `url` once it has stopped.
    pub fn worker_stopped(&mut self, url: &str)
        ensures
            final(self).interval() == old(self).interval(),
            final(self).view() == old(self).view().remove(url@),
    {
        url_map_remove(&mut self.workers, url);
    }
}

/// Registering further streams of a host that has a worker starts no other
/// worker, and a stopped worker is started again by the next registration.
pub proof fn law_one_worker_per_host(hosts: Set<Seq<char>>, url: Seq<char>)
    ensures
        hosts.insert(url).contains(url),
        hosts.insert(url).insert(url) == hosts.insert(url),
        !hosts.insert(url).remove(url).contains(url),
{
    assert(hosts.insert(url).insert(url) =~= hosts.insert(url));
}

/// Registering for one host and forgetting another's stopped worker do
/// not touch the other hosts' workers.
pub proof fn law_other_hosts_untouched(hosts: Set<Seq<char>>, url: Seq<char>, other: Seq<char>)
    requires
        other != url,
    ensures
        hosts.insert(url).contains(other) == hosts.contains(other),
        hosts.remove(url).contains(other) == hosts.contains(other),
{
}

} // verus!
