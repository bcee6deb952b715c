//! The decisions of the subscription handler: which host URLs are accepted,
//! where thumbnails are kept, when they are captured again, and what
//! follows a change of a stream's state.
use vstd::prelude::*;
use vstd::string::*;

use crate::error::CoreError;
use crate::ids::{url_namespace_uuid, url_uuid, uuid_text, uuid_to_string};
use crate::models::{stream_url, stream_url_text, Host, HostSubscription};
use crate::notifier::StateChange;
use crate::text::{parse_u64, parsed_u64, str_eq};

verus! {

/// The serialization the url crate gives an absolute URL it parses from
/// `input`, or `None` when it does not parse.
pub uninterp spec fn parsed_url_text(input: Seq<char>) -> Option<Seq<char>>;

/// Parses an absolute URL.
///
/// Calls `Url::parse` of the url crate and, on success, its `as_str`. The
/// contract only names the result: it depends on `input` alone.
#[verifier::external_body]
pub(crate) fn parse_host_url(input: &str) -> (r: Option<String>)
    ensures
        match r {
            Some(s) => parsed_url_text(input@) == Some(s@),
            None => parsed_url_text(input@) is None,
        },
{
    match url::Url::parse(input) {
        Ok(u) => Some(u.as_str().to_string()),
        Err(_) => None,
    }
}

/// A URL without its trailing slashes.
pub open spec fn trim_trailing_slashes(s: Seq<char>) -> Seq<char>
    decreases s.len(),
{
    if s.len() > 0 && s.last() == '/' {
        trim_trailing_slashes(s.drop_last())
    } else {
        s
    }
}

/// Removes the trailing slashes of a URL (`trim_end_matches('/')`).
pub fn normalize_host_url(url: &str) -> (r: String)
    ensures
        r@ == trim_trailing_slashes(url@),
{
    let mut n = url.unicode_len();
    assert(url@.take(n as int) =~= url@);
    while n > 0 && url.get_char(n - 1) == '/'
        invariant
            n <= url@.len(),
            trim_trailing_slashes(url@) == trim_trailing_slashes(url@.take(n as int)),
        decreases n,
    {
        assert(url@.take(n as int).drop_last() =~= url@.take(n - 1));
        n = n - 1;
    }
    assert(n == 0 || url@.take(n as int).last() != '/');
    String::from_str(url.substring_char(0, n))
}

/// The URL a host is stored under, read from what a user typed: the
/// url crate's serialization of it without trailing slashes, or `None`
/// when it does not parse as an absolute URL.
pub open spec fn host_url_text(input: Seq<char>) -> Option<Seq<char>> {
    match parsed_url_text(input) {
        Some(t) => Some(trim_trailing_slashes(t)),
        None => None,
    }
}

/// Reads the URL of a host to add (see `host_url_text`).
pub fn host_url_from_input(input: &str) -> (r: Option<String>)
    ensures
        match r {
            Some(s) => host_url_text(input@) == Some(s@),
            None => host_url_text(input@) is None,
        },
{
    match parse_host_url(input) {
        Some(u) => Some(normalize_host_url(u.as_str())),
        None => None,
    }
}

/// Removing trailing slashes twice removes no more than once.
proof fn lemma_trim_settles(s: Seq<char>)
    ensures
        trim_trailing_slashes(trim_trailing_slashes(s)) == trim_trailing_slashes(s),
    decreases s.len(),
{
    if s.len() > 0 && s.last() == '/' {
        lemma_trim_settles(s.drop_last());
    }
}

/// A host URL read from what a user typed is already in stored form:
/// storing it (which removes trailing slashes) keeps it as it is, so the
/// host is stored, and found again, under the URL the command read.
pub proof fn law_read_host_url_is_stored_as_is(input: Seq<char>)
    ensures
        host_url_text(input) matches Some(u) ==> trim_trailing_slashes(u) == u,
{
    if let Some(t) = parsed_url_text(input) {
        lemma_trim_settles(t);
    }
}

/// Whether a guild already has a host with this URL.
pub open spec fn host_listed(hosts: Seq<Host>, url: Seq<char>) -> bool {
    exists|i: int| 0 <= i < hosts.len() && (#[trigger] hosts[i]).url@ == url
}

/// Whether some host of the list has this URL.
pub fn host_exists(hosts: &Vec<Host>, url: &str) -> (r: bool)
    ensures
        r == host_listed(hosts@, url@),
{
    let mut i: usize = 0;
    while i < hosts.len()
        invariant
            i <= hosts@.len(),
            forall|j: int| 0 <= j < i ==> hosts@[j].url@ != url@,
        decreases hosts@.len() - i,
    {
        if str_eq(hosts[i].url.as_str(), url) {
            return true;
        }
        i = i + 1;
    }
    false
}

/// The host URL stored for a parsed URL: without trailing slashes, and
/// refused when the guild already has that host.
pub fn check_new_host(hosts: &Vec<Host>, parsed_url: &str) -> (r: Result<String, CoreError>)
    ensures
        ({
            let url = trim_trailing_slashes(parsed_url@);
            match r {
                Ok(u) => u@ == url && !host_listed(hosts@, url),
                Err(e) => host_listed(hosts@, url) && (e matches CoreError::StreamError(m) && m@
                    == "Host already exists!"@),
            }
        }),
{
    let url = normalize_host_url(parsed_url);
    if host_exists(hosts, url.as_str()) {
        Err(CoreError::StreamError(String::from_str("Host already exists!")))
    } else {
        Ok(url)
    }
}

/// The error for a subscription to a key that already has one.
pub fn duplicate_subscription_error() -> (r: CoreError)
    ensures
        r matches CoreError::AlreadyExistsError(m) && m@ == "Subscription already exists."@,
{
    CoreError::AlreadyExistsError(String::from_str("Subscription already exists."))
}

/// The WHEP endpoint of a host.
pub open spec fn whep_url_text(host_url: Seq<char>) -> Seq<char> {
    host_url + "/api/whep"@
}

/// The authorization a WHEP request for a stream key carries.
pub open spec fn bearer_text(key: Seq<char>) -> Seq<char> {
    "Bearer "@ + key
}

/// The WHEP endpoint of a host: its URL followed by `/api/whep`.
pub fn whep_url(host_url: &str) -> (r: String)
    ensures
        r@ == whep_url_text(host_url@),
{
    let mut s = String::from_str(host_url);
    s.append("/api/whep");
    s
}

/// The authorization header for a stream key: `Bearer ` and the key.
pub fn bearer(key: &str) -> (r: String)
    ensures
        r@ == bearer_text(key@),
{
    let mut s = String::from_str("Bearer ");
    s.append(key);
    s
}

/// The file name of a stream's thumbnail: the name-based UUID of the
/// stream's address, then `.jpg`.
pub open spec fn thumbnail_name_text(host_url: Seq<char>, key: Seq<char>) -> Seq<char> {
    uuid_text(url_namespace_uuid(stream_url_text(host_url, key))) + ".jpg"@
}

/// The file name of a stream's thumbnail in the thumbnail directory.
pub fn thumbnail_file_name(host_url: &str, key: &str) -> (r: String)
    ensures
        r@ == thumbnail_name_text(host_url@, key@),
{
    let address = stream_url(host_url, key);
    let id = url_uuid(address.as_str());
    let mut name = uuid_to_string(id);
    name.append(".jpg");
    name
}

/// The capture interval set for thumbnails, in seconds: the setting read
/// as a number, or none (no thumbnails) when it is missing or not a number.
pub fn thumbnail_interval(setting: Option<&str>) -> (r: Option<u64>)
    ensures
        r == match setting {
            Some(s) => parsed_u64(s@),
            None => None,
        },
{
    match setting {
        Some(s) => parse_u64(s),
        None => None,
    }
}

/// Whether a thumbnail of age `age` (none when its file or its time cannot
/// be read) is fresh: younger than the capture interval.
pub fn thumbnail_is_fresh(age_millis: Option<u128>, interval_millis: u128) -> (r: bool)
    ensures
        r == match age_millis {
            Some(a) => a < interval_millis,
            None => false,
        },
{
    match age_millis {
        Some(a) => a < interval_millis,
        None => false,
    }
}

/// The thumbnail to attach: the bytes read from its file, unless the file
/// could not be read or is empty.
pub fn usable_thumbnail(read: Option<Vec<u8>>) -> (r: Option<Vec<u8>>)
    ensures
        r == match read {
            Some(b) => if b@.len() > 0 {
                Some(b)
            } else {
                None
            },
            None => None,
        },
{
    match read {
        Some(b) => if b.len() > 0 {
            Some(b)
        } else {
            None
        },
        None => None,
    }
}

/// A step that follows a notification.
#[derive(Debug)]
pub enum FollowUp {
    /// Store that the stream is online, announced by `message_id`.
    MarkOnline { subscription_id: i64, message_id: i64 },
    /// Store that the stream is offline.
    MarkOffline { subscription_id: i64 },
    /// Stop the thumbnail capture loop of the subscription, if one runs.
    CancelCapture { subscription_id: i64 },
    /// Start a thumbnail capture loop for the subscription.
    StartCapture { subscription_id: i64, whep_url: String, auth_header: String },
    /// Delete the subscription's thumbnail file.
    RemoveThumbnail { subscription_id: i64 },
}

/// A follow-up step as plain values: the position of its variant in the
/// declaration, the subscription, the message id, and the two texts.
pub type FollowUpView = (int, i64, i64, Seq<char>, Seq<char>);

pub open spec fn follow_up_view(f: FollowUp) -> FollowUpView {
    match f {
        FollowUp::MarkOnline { subscription_id, message_id } => (0, subscription_id, message_id, Seq::empty(), Seq::empty()),
        FollowUp::MarkOffline { subscription_id } => (1, subscription_id, 0, Seq::empty(), Seq::empty()),
        FollowUp::CancelCapture { subscription_id } => (2, subscription_id, 0, Seq::empty(), Seq::empty()),
        FollowUp::StartCapture { subscription_id, whep_url, auth_header } => (3, subscription_id, 0, whep_url@, auth_header@),
        FollowUp::RemoveThumbnail { subscription_id } => (4, subscription_id, 0, Seq::empty(), Seq::empty()),
    }
}

/// The steps after a notification of subscription `id` to the stream `key`
/// of `host_url`: going online stores the announcement and, with
/// thumbnails on, replaces the capture loop by a new one; going offline
/// stores that, stops the capture loop and, with thumbnails on, deletes
/// the thumbnail; no change needs nothing.
pub open spec fn follow_ups_view(
    change: Option<StateChange>,
    id: i64,
    thumbnails: bool,
    host_url: Seq<char>,
    key: Seq<char>,
) -> Seq<FollowUpView> {
    match change {
        Some(StateChange::Online { message_id }) => {
            let mark = seq![(0, id, message_id, Seq::<char>::empty(), Seq::<char>::empty())];
            if thumbnails {
                mark + seq![
                    (2, id, 0i64, Seq::<char>::empty(), Seq::<char>::empty()),
                    (3, id, 0i64, whep_url_text(host_url), bearer_text(key)),
                ]
            } else {
                mark
            }
        },
        Some(StateChange::Offline) => {
            let base = seq![
                (1, id, 0i64, Seq::<char>::empty(), Seq::<char>::empty()),
                (2, id, 0i64, Seq::<char>::empty(), Seq::<char>::empty()),
            ];
            if thumbnails {
                base.push((4, id, 0i64, Seq::<char>::empty(), Seq::<char>::empty()))
            } else {
                base
            }
        },
        None => Seq::empty(),
    }
}

/// The steps after a notification (see `follow_ups_view`).
pub fn follow_ups(
    change: Option<StateChange>,
    subscription_id: i64,
    thumbnails: bool,
    host_url: &str,
    key: &str,
) -> (r: Vec<FollowUp>)
    ensures
        r@.map_values(|f: FollowUp| follow_up_view(f)) == follow_ups_view(change, subscription_id, thumbnails, host_url@, key@),
{
    let mut out: Vec<FollowUp> = Vec::new();
    match change {
        Some(StateChange::Online { message_id }) => {
            out.push(FollowUp::MarkOnline { subscription_id, message_id });
            if thumbnails {
                out.push(FollowUp::CancelCapture { subscription_id });
                out.push(FollowUp::StartCapture { subscription_id, whep_url: whep_url(host_url), auth_header: bearer(key) });
            }
        },
        Some(StateChange::Offline) => {
            out.push(FollowUp::MarkOffline { subscription_id });
            out.push(FollowUp::CancelCapture { subscription_id });
            if thumbnails {
                out.push(FollowUp::RemoveThumbnail { subscription_id });
            }
        },
        None => {},
    }
    assert(out@.map_values(|f: FollowUp| follow_up_view(f)) =~= follow_ups_view(change, subscription_id, thumbnails, host_url@, key@));
    out
}

/// A capture loop is never started without stopping the one before, and
/// going offline always stops it: a subscription has at most one loop.
pub proof fn law_one_capture_loop(change: Option<StateChange>, id: i64, thumbnails: bool, host_url: Seq<char>, key: Seq<char>)
    ensures
        ({
            let steps = follow_ups_view(change, id, thumbnails, host_url, key);
            &&& forall|j: int| 0 <= j < steps.len() && (#[trigger] steps[j]).0 == 3 ==> j > 0 && steps[j - 1].0 == 2
            &&& change == Some(StateChange::Offline) ==> exists|j: int| 0 <= j < steps.len() && steps[j].0 == 2
        }),
{
    let steps = follow_ups_view(change, id, thumbnails, host_url, key);
    if change == Some(StateChange::Offline) {
        assert(steps[1].0 == 2);
    }
}

/// Every follow-up step concerns the notified subscription; going online
/// with message `m` first stores `m` as the announcement, and a step that
/// stores an announcement only follows going online with that message.
pub proof fn law_follow_ups_store_the_posted_message(
    change: Option<StateChange>,
    id: i64,
    thumbnails: bool,
    host_url: Seq<char>,
    key: Seq<char>,
)
    ensures
        ({
            let steps = follow_ups_view(change, id, thumbnails, host_url, key);
            &&& forall|j: int| 0 <= j < steps.len() ==> (#[trigger] steps[j]).1 == id
            &&& change matches Some(StateChange::Online { message_id }) ==> steps.len() >= 1 && steps[0].0 == 0
                && steps[0].2 == message_id
            &&& forall|j: int|
                0 <= j < steps.len() && (#[trigger] steps[j]).0 == 0 ==> change == Some(
                    StateChange::Online { message_id: steps[j].2 },
                )
            &&& change == Some(StateChange::Offline) ==> steps.len() >= 1 && steps[0].0 == 1
        }),
{
}

/// The subscriptions of a host (by its link to the guild) that hold a
/// token, with the token: the watches to stop when the host is removed.
pub fn host_watch_tokens(subscriptions: &Vec<HostSubscription>, host_guild_id: i64) -> (r: Vec<u128>)
    ensures
        r@ == host_tokens(subscriptions@, host_guild_id),
{
    let mut out: Vec<u128> = Vec::new();
    let mut i: usize = 0;
    while i < subscriptions.len()
        invariant
            i <= subscriptions@.len(),
            out@ == host_tokens(subscriptions@.take(i as int), host_guild_id),
        decreases subscriptions@.len() - i,
    {
        assert(subscriptions@.take(i + 1).drop_last() =~= subscriptions@.take(i as int));
        let hs = &subscriptions[i];
        if hs.host.host_guild_id == host_guild_id {
            match hs.subscription.token {
                Some(t) => out.push(t),
                None => {},
            }
        }
        i = i + 1;
    }
    assert(subscriptions@.take(i as int) =~= subscriptions@);
    out
}

/// The tokens of the subscriptions of the host linked as `host_guild_id`,
/// in order.
pub open spec fn host_tokens(s: Seq<HostSubscription>, host_guild_id: i64) -> Seq<u128>
    decreases s.len(),
{
    if s.len() == 0 {
        Seq::empty()
    } else {
        let rest = host_tokens(s.drop_last(), host_guild_id);
        let hs = s.last();
        if hs.host.host_guild_id == host_guild_id && hs.subscription.token is Some {
            rest.push(hs.subscription.token->0)
        } else {
            rest
        }
    }
}

} // verus!
