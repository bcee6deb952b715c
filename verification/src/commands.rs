//! The replies of the chat commands: the notices they post, the choices
//! they offer, how a choice is read back, and the summaries they show.
use vstd::prelude::*;
use vstd::string::*;

use crate::error::{core_error_message, CoreError};
use crate::models::{stream_url_text, Host, HostSubscription, Subscription};
use crate::templates::{
    error_embed, plain_embed, success_embed, Embed, EmbedField, EmbedView, FieldView, field_view,
    ERROR_COLOR, INFO_COLOR, SUCCESS_COLOR,
};
use crate::text::{distinct_strings, i64_to_decimal, parse_i64, parsed_i64, signed_decimal, str_eq, strings_view};

verus! {

/// The chat commands.
#[derive(Debug, Clone, Copy, PartialEq, Eq, Structural)]
pub enum CommandName {
    AddHost,
    ListSubscriptions,
    Playing,
    RemoveHost,
    Subscribe,
    Unsubscribe,
}

/// A fixed notice a command posts.
#[derive(Debug, Clone, Copy, PartialEq, Eq, Structural)]
pub enum Notice {
    /// The URL given to /add_host does not parse.
    InvalidUrl,
    /// The command was used outside a server.
    OutsideServer(CommandName),
    /// There is nothing to list or choose from.
    NothingToChoose(CommandName),
    /// No choice was made in time.
    TimedOut,
    /// The chosen subscription is gone.
    SubscriptionGone,
    /// The chosen host is gone.
    HostGone,
    /// The host was removed.
    HostRemovedDone,
    /// The removal was cancelled.
    Cancelled,
}

/// The title, colour and message of a notice.
pub open spec fn notice_view(n: Notice) -> EmbedView {
    match n {
        Notice::InvalidUrl => plain_embed(
            "Invalid URL"@,
            ERROR_COLOR,
            "The provided URL could not be parsed. Please include a scheme (e.g. https://)."@,
        ),
        Notice::OutsideServer(c) => match c {
            CommandName::AddHost => plain_embed(
                "Subscribe Failed"@,
                ERROR_COLOR,
                "/add_host can only be ran from a server channel currently."@,
            ),
            CommandName::ListSubscriptions => plain_embed(
                "List Failed"@,
                ERROR_COLOR,
                "/list_subscriptions can only be ran from a server channel currently."@,
            ),
            CommandName::Playing => plain_embed(
                "Playing Failed"@,
                ERROR_COLOR,
                "/playing can only be ran from a server channel currently."@,
            ),
            CommandName::RemoveHost => plain_embed(
                "Error"@,
                ERROR_COLOR,
                "/remove_host can only be run from a server channel."@,
            ),
            CommandName::Subscribe => plain_embed(
                "Subscribe Failed"@,
                ERROR_COLOR,
                "/subscribe can only be ran from a server channel currently."@,
            ),
            CommandName::Unsubscribe => plain_embed(
                "Subscribe Failed"@,
                ERROR_COLOR,
                "/unsubscribe can only be ran from a server channel."@,
            ),
        },
        Notice::NothingToChoose(c) => match c {
            CommandName::ListSubscriptions => plain_embed(
                "No Subscriptions"@,
                ERROR_COLOR,
                "There are no active subscriptions for this server."@,
            ),
            CommandName::Playing => plain_embed(
                "No Streams"@,
                ERROR_COLOR,
                "There are no streams currently online."@,
            ),
            CommandName::RemoveHost => plain_embed(
                "No Hosts"@,
                ERROR_COLOR,
                "There are no hosts configured for this server."@,
            ),
            CommandName::Subscribe => plain_embed(
                "Subscribe Failed"@,
                ERROR_COLOR,
                "No available hosts found. Please add a host first with /host"@,
            ),
            CommandName::Unsubscribe => plain_embed(
                "No Subscriptions"@,
                ERROR_COLOR,
                "There are no subscriptions to unsubscribe from."@,
            ),
            CommandName::AddHost => plain_embed(
                "No Hosts"@,
                ERROR_COLOR,
                "There are no hosts configured for this server."@,
            ),
        },
        Notice::TimedOut => plain_embed("Timed Out"@, ERROR_COLOR, "No response received."@),
        Notice::SubscriptionGone => plain_embed(
            "Error"@,
            ERROR_COLOR,
            "The selected subscription no longer exists. Please try again."@,
        ),
        Notice::HostGone => plain_embed(
            "Error"@,
            ERROR_COLOR,
            "The selected host no longer exists. Please try again."@,
        ),
        Notice::HostRemovedDone => plain_embed("Done"@, SUCCESS_COLOR, "Host removed."@),
        Notice::Cancelled => plain_embed("Cancelled"@, ERROR_COLOR, "No changes were made."@),
    }
}

/// The embed of a notice.
pub fn notice_embed(n: Notice) -> (r: Embed)
    ensures
        r.view() == notice_view(n),
{
    match n {
        Notice::InvalidUrl => error_embed(
            "Invalid URL",
            "The provided URL could not be parsed. Please include a scheme (e.g. https://).",
        ),
        Notice::OutsideServer(c) => match c {
            CommandName::AddHost => error_embed(
                "Subscribe Failed",
                "/add_host can only be ran from a server channel currently.",
            ),
            CommandName::ListSubscriptions => error_embed(
                "List Failed",
                "/list_subscriptions can only be ran from a server channel currently.",
            ),
            CommandName::Playing => error_embed(
                "Playing Failed",
                "/playing can only be ran from a server channel currently.",
            ),
            CommandName::RemoveHost => error_embed("Error", "/remove_host can only be run from a server channel."),
            CommandName::Subscribe => error_embed(
                "Subscribe Failed",
                "/subscribe can only be ran from a server channel currently.",
            ),
            CommandName::Unsubscribe => error_embed(
                "Subscribe Failed",
                "/unsubscribe can only be ran from a server channel.",
            ),
        },
        Notice::NothingToChoose(c) => match c {
            CommandName::ListSubscriptions => error_embed(
                "No Subscriptions",
                "There are no active subscriptions for this server.",
            ),
            CommandName::Playing => error_embed("No Streams", "There are no streams currently online."),
            CommandName::RemoveHost => error_embed("No Hosts", "There are no hosts configured for this server."),
            CommandName::Subscribe => error_embed(
                "Subscribe Failed",
                "No available hosts found. Please add a host first with /host",
            ),
            CommandName::Unsubscribe => error_embed(
                "No Subscriptions",
                "There are no subscriptions to unsubscribe from.",
            ),
            CommandName::AddHost => error_embed("No Hosts", "There are no hosts configured for this server."),
        },
        Notice::TimedOut => error_embed("Timed Out", "No response received."),
        Notice::SubscriptionGone => error_embed(
            "Error",
            "The selected subscription no longer exists. Please try again.",
        ),
        Notice::HostGone => error_embed("Error", "The selected host no longer exists. Please try again."),
        Notice::HostRemovedDone => success_embed("Done", "Host removed."),
        Notice::Cancelled => error_embed("Cancelled", "No changes were made."),
    }
}

/// One option of a choice menu: the text shown and the value sent back.
#[derive(Debug, Clone)]
pub struct SelectOption {
    pub label: String,
    pub value: String,
}

pub open spec fn option_view(o: SelectOption) -> (Seq<char>, Seq<char>) {
    (o.label@, o.value@)
}

pub open spec fn options_view(s: Seq<SelectOption>) -> Seq<(Seq<char>, Seq<char>)> {
    s.map_values(|o: SelectOption| option_view(o))
}

/// Whether no item after position `i` has the id of item `i`.
pub open spec fn is_last_id(ids: Seq<i64>, i: int) -> bool {
    forall|j: int| i < j < ids.len() ==> ids[j] != ids[i]
}

/// The positions among the first `n` items that hold the last item with
/// their id, in order: what keying the items by id keeps.
pub open spec fn kept_positions(ids: Seq<i64>, n: int) -> Seq<int>
    decreases n,
{
    if n <= 0 {
        Seq::empty()
    } else {
        let p = kept_positions(ids, n - 1);
        if is_last_id(ids, n - 1) {
            p.push(n - 1)
        } else {
            p
        }
    }
}

/// The positions of the items kept when they are keyed by id (a later item
/// replaces an earlier one with its id).
pub fn last_positions(ids: &Vec<i64>) -> (r: Vec<usize>)
    ensures
        r@.map_values(|i: usize| i as int) == kept_positions(ids@, ids@.len() as int),
        forall|k: int| 0 <= k < r@.len() ==> r@[k] < ids@.len(),
{
    let mut out: Vec<usize> = Vec::new();
    let mut i: usize = 0;
    while i < ids.len()
        invariant
            i <= ids@.len(),
            out@.map_values(|i: usize| i as int) == kept_positions(ids@, i as int),
            forall|k: int| 0 <= k < out@.len() ==> out@[k] < i,
        decreases ids@.len() - i,
    {
        let mut last = true;
        let mut j: usize = i + 1;
        while j < ids.len()
            invariant
                i < j <= ids@.len(),
                last == forall|m: int| i < m < j ==> ids@[m] != ids@[i as int],
            decreases ids@.len() - j,
        {
            if ids[j] == ids[i] {
                last = false;
            }
            j = j + 1;
        }
        let ghost before = out@;
        if last {
            out.push(i);
            assert(out@.map_values(|i: usize| i as int) =~= before.map_values(|i: usize| i as int).push(i as int));
        }
        i = i + 1;
    }
    out
}

/// The ids of the hosts, in order.
pub open spec fn host_ids(hosts: Seq<Host>) -> Seq<i64> {
    hosts.map_values(|h: Host| h.id)
}

/// The ids of the subscriptions, in order.
pub open spec fn subscription_ids(subs: Seq<HostSubscription>) -> Seq<i64> {
    subs.map_values(|s: HostSubscription| s.subscription.id)
}

/// The menu of hosts: for each id, its (last) host's URL as the label and
/// the id as the value.
pub open spec fn host_options_view(hosts: Seq<Host>) -> Seq<(Seq<char>, Seq<char>)> {
    kept_positions(host_ids(hosts), hosts.len() as int).map_values(
        |i: int| (hosts[i].url@, signed_decimal(hosts[i].id as int)),
    )
}

/// The menu of subscriptions: for each id, its (last) subscription's stream
/// address as the label and the id as the value.
pub open spec fn subscription_options_view(subs: Seq<HostSubscription>) -> Seq<(Seq<char>, Seq<char>)> {
    kept_positions(subscription_ids(subs), subs.len() as int).map_values(
        |i: int|
            (
                stream_url_text(subs[i].host.url@, subs[i].subscription.key@),
                signed_decimal(subs[i].subscription.id as int),
            ),
    )
}

/// The choice menu of hosts.
pub fn host_options(hosts: &Vec<Host>) -> (r: Vec<SelectOption>)
    ensures
        options_view(r@) == host_options_view(hosts@),
{
    let mut ids: Vec<i64> = Vec::new();
    let mut i: usize = 0;
    while i < hosts.len()
        invariant
            i <= hosts@.len(),
            ids@ == host_ids(hosts@).take(i as int),
        decreases hosts@.len() - i,
    {
        ids.push(hosts[i].id);
        assert(ids@ =~= host_ids(hosts@).take(i + 1));
        i = i + 1;
    }
    assert(ids@ =~= host_ids(hosts@));
    let positions = last_positions(&ids);
    let ghost pv = positions@.map_values(|i: usize| i as int);
    let mut out: Vec<SelectOption> = Vec::new();
    let mut k: usize = 0;
    while k < positions.len()
        invariant
            k <= positions@.len(),
            ids@ == host_ids(hosts@),
            ids@.len() == hosts@.len(),
            pv == positions@.map_values(|i: usize| i as int),
            pv == kept_positions(host_ids(hosts@), hosts@.len() as int),
            forall|m: int| 0 <= m < positions@.len() ==> positions@[m] < ids@.len(),
            options_view(out@) == pv.take(k as int).map_values(
                |i: int| (hosts@[i].url@, signed_decimal(hosts@[i].id as int)),
            ),
        decreases positions@.len() - k,
    {
        let p = positions[k];
        let h = &hosts[p];
        let o = SelectOption { label: h.url.clone(), value: i64_to_decimal(h.id) };
        let ghost before = out@;
        out.push(o);
        assert(pv[k as int] == p as int);
        assert(options_view(out@) =~= options_view(before).push(option_view(o)));
        assert(pv.take(k + 1) =~= pv.take(k as int).push(p as int));
        assert(pv.take(k + 1).map_values(|i: int| (hosts@[i].url@, signed_decimal(hosts@[i].id as int)))
            =~= pv.take(k as int).map_values(|i: int| (hosts@[i].url@, signed_decimal(hosts@[i].id as int))).push(
            (hosts@[p as int].url@, signed_decimal(hosts@[p as int].id as int)),
        ));
        k = k + 1;
    }
    assert(pv.take(k as int) =~= pv);
    out
}

/// The choice menu of subscriptions.
pub fn subscription_options(subs: &Vec<HostSubscription>) -> (r: Vec<SelectOption>)
    ensures
        options_view(r@) == subscription_options_view(subs@),
{
    let mut ids: Vec<i64> = Vec::new();
    let mut i: usize = 0;
    while i < subs.len()
        invariant
            i <= subs@.len(),
            ids@ == subscription_ids(subs@).take(i as int),
        decreases subs@.len() - i,
    {
        ids.push(subs[i].subscription.id);
        assert(ids@ =~= subscription_ids(subs@).take(i + 1));
        i = i + 1;
    }
    assert(ids@ =~= subscription_ids(subs@));
    let positions = last_positions(&ids);
    let ghost pv = positions@.map_values(|i: usize| i as int);
    let mut out: Vec<SelectOption> = Vec::new();
    let mut k: usize = 0;
    while k < positions.len()
        invariant
            k <= positions@.len(),
            ids@ == subscription_ids(subs@),
            ids@.len() == subs@.len(),
            pv == positions@.map_values(|i: usize| i as int),
            pv == kept_positions(subscription_ids(subs@), subs@.len() as int),
            forall|m: int| 0 <= m < positions@.len() ==> positions@[m] < ids@.len(),
            options_view(out@) == pv.take(k as int).map_values(
                |i: int|
                    (
                        stream_url_text(subs@[i].host.url@, subs@[i].subscription.key@),
                        signed_decimal(subs@[i].subscription.id as int),
                    ),
            ),
        decreases positions@.len() - k,
    {
        let p = positions[k];
        let s = &subs[p];
        let o = SelectOption { label: s.get_url(), value: i64_to_decimal(s.subscription.id) };
        let ghost before = out@;
        out.push(o);
        assert(pv[k as int] == p as int);
        assert(options_view(out@) =~= options_view(before).push(option_view(o)));
        assert(pv.take(k + 1) =~= pv.take(k as int).push(p as int));
        assert(pv.take(k + 1).map_values(
            |i: int|
                (
                    stream_url_text(subs@[i].host.url@, subs@[i].subscription.key@),
                    signed_decimal(subs@[i].subscription.id as int),
                ),
        ) =~= pv.take(k as int).map_values(
            |i: int|
                (
                    stream_url_text(subs@[i].host.url@, subs@[i].subscription.key@),
                    signed_decimal(subs@[i].subscription.id as int),
                ),
        ).push(
            (
                stream_url_text(subs@[p as int].host.url@, subs@[p as int].subscription.key@),
                signed_decimal(subs@[p as int].subscription.id as int),
            ),
        ));
        k = k + 1;
    }
    assert(pv.take(k as int) =~= pv);
    out
}

/// The id a menu answer chose: its first value read as a number.
pub open spec fn chosen_id(values: Seq<String>) -> Option<i64> {
    if values.len() > 0 {
        parsed_i64(values[0]@)
    } else {
        None
    }
}

/// Reads the id a menu answer chose.
pub fn selected_id(values: &Vec<String>) -> (r: Option<i64>)
    ensures
        r == chosen_id(values@),
{
    if values.len() > 0 {
        parse_i64(values[0].as_str())
    } else {
        None
    }
}

/// The position of the last item with `id`, if any.
pub open spec fn last_with_id(ids: Seq<i64>, id: i64) -> Option<int>
    decreases ids.len(),
{
    if ids.len() == 0 {
        None
    } else if ids.last() == id {
        Some(ids.len() - 1)
    } else {
        last_with_id(ids.drop_last(), id)
    }
}

fn find_last(ids: &Vec<i64>, id: i64) -> (r: Option<usize>)
    ensures
        match last_with_id(ids@, id) {
            Some(i) => r == Some(i as usize),
            None => r is None,
        },
{
    let mut k: usize = ids.len();
    assert(ids@.take(k as int) =~= ids@);
    while k > 0
        invariant
            k <= ids@.len(),
            last_with_id(ids@, id) == last_with_id(ids@.take(k as int), id),
        decreases k,
    {
        assert(ids@.take(k as int).drop_last() =~= ids@.take(k - 1));
        if ids[k - 1] == id {
            return Some(k - 1);
        }
        k = k - 1;
    }
    None
}

/// A copy of a host.
pub fn copy_host(h: &Host) -> (r: Host)
    ensures
        r == *h,
{
    Host {
        id: h.id,
        url: h.url.clone(),
        auth_header: match &h.auth_header {
            Some(a) => Some(a.clone()),
            None => None,
        },
        host_guild_id: h.host_guild_id,
    }
}

/// A copy of a subscription with its host.
pub fn copy_host_subscription(s: &HostSubscription) -> (r: HostSubscription)
    ensures
        r == *s,
{
    HostSubscription {
        host: copy_host(&s.host),
        subscription: Subscription {
            id: s.subscription.id,
            key: s.subscription.key.clone(),
            channel_id: s.subscription.channel_id,
            token: s.subscription.token,
            message_id: s.subscription.message_id,
        },
    }
}

/// The host chosen by id: the last one with that id.
pub fn find_host(hosts: &Vec<Host>, id: i64) -> (r: Option<Host>)
    ensures
        match last_with_id(host_ids(hosts@), id) {
            Some(i) => r == Some(hosts@[i]),
            None => r is None,
        },
{
    let mut ids: Vec<i64> = Vec::new();
    let mut i: usize = 0;
    while i < hosts.len()
        invariant
            i <= hosts@.len(),
            ids@ == host_ids(hosts@).take(i as int),
        decreases hosts@.len() - i,
    {
        ids.push(hosts[i].id);
        assert(ids@ =~= host_ids(hosts@).take(i + 1));
        i = i + 1;
    }
    assert(ids@ =~= host_ids(hosts@));
    proof {
        lemma_last_with_id_in_range(ids@, id);
    }
    match find_last(&ids, id) {
        Some(p) => Some(copy_host(&hosts[p])),
        None => None,
    }
}

/// The subscription chosen by id: the last one with that id.
pub fn find_subscription(subs: &Vec<HostSubscription>, id: i64) -> (r: Option<HostSubscription>)
    ensures
        match last_with_id(subscription_ids(subs@), id) {
            Some(i) => r == Some(subs@[i]),
            None => r is None,
        },
{
    let mut ids: Vec<i64> = Vec::new();
    let mut i: usize = 0;
    while i < subs.len()
        invariant
            i <= subs@.len(),
            ids@ == subscription_ids(subs@).take(i as int),
        decreases subs@.len() - i,
    {
        ids.push(subs[i].subscription.id);
        assert(ids@ =~= subscription_ids(subs@).take(i + 1));
        i = i + 1;
    }
    assert(ids@ =~= subscription_ids(subs@));
    proof {
        lemma_last_with_id_in_range(ids@, id);
    }
    match find_last(&ids, id) {
        Some(p) => Some(copy_host_subscription(&subs[p])),
        None => None,
    }
}

proof fn lemma_last_with_id_in_range(ids: Seq<i64>, id: i64)
    ensures
        last_with_id(ids, id) matches Some(i) ==> 0 <= i < ids.len() && ids[i] == id,
    decreases ids.len(),
{
    if ids.len() > 0 && ids.last() != id {
        lemma_last_with_id_in_range(ids.drop_last(), id);
    }
}

} // verus!

verus! {

/// The subscriptions whose stream is announced as online, in order.
pub open spec fn online_only(s: Seq<HostSubscription>) -> Seq<HostSubscription>
    decreases s.len(),
{
    if s.len() == 0 {
        s
    } else {
        let rest = online_only(s.drop_last());
        if s.last().subscription.message_id is Some {
            rest.push(s.last())
        } else {
            rest
        }
    }
}

/// The subscriptions whose stream is online: the ones /playing offers.
pub fn online_subscriptions(subs: &Vec<HostSubscription>) -> (r: Vec<HostSubscription>)
    ensures
        r@ == online_only(subs@),
{
    let mut out: Vec<HostSubscription> = Vec::new();
    let mut i: usize = 0;
    while i < subs.len()
        invariant
            i <= subs@.len(),
            out@ == online_only(subs@.take(i as int)),
        decreases subs@.len() - i,
    {
        assert(subs@.take(i + 1).drop_last() =~= subs@.take(i as int));
        if subs[i].subscription.is_online() {
            out.push(copy_host_subscription(&subs[i]));
        }
        i = i + 1;
    }
    assert(subs@.take(i as int) =~= subs@);
    out
}

/// The keys subscribed under the host linked as `host_guild_id`, in order.
pub open spec fn keys_of_host(s: Seq<HostSubscription>, host_guild_id: i64) -> Seq<Seq<char>>
    decreases s.len(),
{
    if s.len() == 0 {
        Seq::empty()
    } else {
        let rest = keys_of_host(s.drop_last(), host_guild_id);
        if s.last().host.host_guild_id == host_guild_id {
            rest.push(s.last().subscription.key@)
        } else {
            rest
        }
    }
}

/// The keys subscribed under a host: what removing it unsubscribes.
pub fn host_keys(subs: &Vec<HostSubscription>, host_guild_id: i64) -> (r: Vec<String>)
    ensures
        strings_view(r@) == keys_of_host(subs@, host_guild_id),
{
    let mut out: Vec<String> = Vec::new();
    let mut i: usize = 0;
    while i < subs.len()
        invariant
            i <= subs@.len(),
            strings_view(out@) == keys_of_host(subs@.take(i as int), host_guild_id),
        decreases subs@.len() - i,
    {
        assert(subs@.take(i + 1).drop_last() =~= subs@.take(i as int));
        if subs[i].host.host_guild_id == host_guild_id {
            let ghost before = out@;
            out.push(subs[i].subscription.key.clone());
            assert(strings_view(out@) =~= strings_view(before).push(subs@[i as int].subscription.key@));
        }
        i = i + 1;
    }
    assert(subs@.take(i as int) =~= subs@);
    out
}

/// The lines `• key`, joined by newlines.
pub open spec fn bullets(keys: Seq<Seq<char>>) -> Seq<char>
    decreases keys.len(),
{
    if keys.len() == 0 {
        Seq::empty()
    } else if keys.len() == 1 {
        "• "@ + keys[0]
    } else {
        bullets(keys.drop_last()) + "\n"@ + "• "@ + keys.last()
    }
}

/// The keys as a bullet list, one per line.
pub fn bullet_list(keys: &Vec<String>) -> (r: String)
    ensures
        r@ == bullets(strings_view(keys@)),
{
    let mut s = String::new();
    let mut i: usize = 0;
    while i < keys.len()
        invariant
            i <= keys@.len(),
            s@ == bullets(strings_view(keys@).take(i as int)),
        decreases keys@.len() - i,
    {
        let ghost t = strings_view(keys@).take(i + 1);
        assert(t.drop_last() =~= strings_view(keys@).take(i as int));
        assert(t.last() == keys@[i as int]@);
        if i > 0 {
            s.append("\n");
        } else {
            assert(strings_view(keys@).take(0) =~= Seq::<Seq<char>>::empty());
        }
        s.append("• ");
        s.append(keys[i].as_str());
        i = i + 1;
    }
    assert(strings_view(keys@).take(i as int) =~= strings_view(keys@));
    s
}

/// The keys of a host as shown when removing it: a bullet list, or
/// `empty_text` when there are none.
pub open spec fn keys_display(keys: Seq<Seq<char>>, empty_text: Seq<char>) -> Seq<char> {
    if keys.len() == 0 {
        empty_text
    } else {
        bullets(keys)
    }
}

/// The confirmation shown before removing a host.
pub open spec fn removal_confirmation_view(host_url: Seq<char>, keys: Seq<Seq<char>>) -> EmbedView {
    plain_embed(
        "Confirm Removal"@,
        ERROR_COLOR,
        "**Host:** "@ + host_url + "\n\n**Subscribed keys:**\n"@ + keys_display(keys, "*(no active subscriptions)*"@),
    )
}

/// The notice posted to the channel once a host is removed.
pub open spec fn host_removed_view(host_url: Seq<char>, keys: Seq<Seq<char>>) -> EmbedView {
    plain_embed(
        "Host Removed"@,
        SUCCESS_COLOR,
        "**"@ + host_url + "** has been removed.\n\n**Unsubscribed keys:**\n"@ + keys_display(keys, "*(none)*"@),
    )
}

/// The confirmation shown before removing a host with these keys.
pub fn removal_confirmation(host_url: &str, keys: &Vec<String>) -> (r: Embed)
    ensures
        r.view() == removal_confirmation_view(host_url@, strings_view(keys@)),
{
    let mut m = String::from_str("**Host:** ");
    m.append(host_url);
    m.append("\n\n**Subscribed keys:**\n");
    if keys.len() == 0 {
        m.append("*(no active subscriptions)*");
    } else {
        let b = bullet_list(keys);
        m.append(b.as_str());
    }
    error_embed("Confirm Removal", m.as_str())
}

/// The notice posted once a host with these keys is removed.
pub fn host_removed(host_url: &str, keys: &Vec<String>) -> (r: Embed)
    ensures
        r.view() == host_removed_view(host_url@, strings_view(keys@)),
{
    let mut m = String::from_str("**");
    m.append(host_url);
    m.append("** has been removed.\n\n**Unsubscribed keys:**\n");
    if keys.len() == 0 {
        m.append("*(none)*");
    } else {
        let b = bullet_list(keys);
        m.append(b.as_str());
    }
    success_embed("Host Removed", m.as_str())
}

/// The reply to /add_host: the host added, or the failure's message.
pub open spec fn add_host_reply_view(url: Seq<char>, result: Result<(), CoreError>) -> EmbedView {
    match result {
        Ok(_) => plain_embed("Success"@, SUCCESS_COLOR, "Host "@ + url + " added."@),
        Err(e) => plain_embed("Failed"@, ERROR_COLOR, core_error_message(e)),
    }
}

/// The reply to /add_host for the URL given and the outcome.
pub fn add_host_reply(url: &str, result: &Result<(), CoreError>) -> (r: Embed)
    ensures
        r.view() == add_host_reply_view(url@, *result),
{
    match result {
        Ok(_) => {
            let mut m = String::from_str("Host ");
            m.append(url);
            m.append(" added.");
            success_embed("Success", m.as_str())
        },
        Err(e) => error_embed("Failed", e.message()),
    }
}

/// The confirmation that a stream's `playing` was set.
pub fn playing_updated(stream_url: &str, playing: &str) -> (r: Embed)
    ensures
        r.view() == plain_embed(
            "Success"@,
            SUCCESS_COLOR,
            "Updated "@ + stream_url@ + " to playing '"@ + playing@ + "'"@,
        ),
{
    let mut m = String::from_str("Updated ");
    m.append(stream_url);
    m.append(" to playing '");
    m.append(playing);
    m.append("'");
    success_embed("Success", m.as_str())
}

/// The confirmation of an unsubscription.
pub fn unsubscribed(stream_url: &str) -> (r: Embed)
    ensures
        r.view() == plain_embed(
            "Success"@,
            SUCCESS_COLOR,
            "Unsubscribed from "@ + stream_url@ + ". You will no longer be notified when they come online."@,
        ),
{
    let mut m = String::from_str("Unsubscribed from ");
    m.append(stream_url);
    m.append(". You will no longer be notified when they come online.");
    success_embed("Success", m.as_str())
}

/// The notice posted to a channel once it is subscribed to a stream.
pub fn subscribed(host_url: &str, key: &str) -> (r: Embed)
    ensures
        r.view() == plain_embed(
            "Success"@,
            SUCCESS_COLOR,
            "Subscribed to "@ + stream_url_text(host_url@, key@)
                + ". You will be notified in this channel when they are next online."@,
        ),
{
    let mut m = String::from_str("Subscribed to ");
    let address = crate::models::stream_url(host_url, key);
    m.append(address.as_str());
    m.append(". You will be notified in this channel when they are next online.");
    success_embed("Success", m.as_str())
}

} // verus!

verus! {

/// The keys subscribed at the host with URL `url`, in order.
pub open spec fn keys_at_url(s: Seq<HostSubscription>, url: Seq<char>) -> Seq<Seq<char>>
    decreases s.len(),
{
    if s.len() == 0 {
        Seq::empty()
    } else {
        let rest = keys_at_url(s.drop_last(), url);
        if s.last().host.url@ == url {
            rest.push(s.last().subscription.key@)
        } else {
            rest
        }
    }
}

/// The host URLs of the subscriptions, in order.
pub open spec fn subscription_urls(s: Seq<HostSubscription>) -> Seq<Seq<char>> {
    s.map_values(|h: HostSubscription| h.host.url@)
}

/// The listing of a server's subscriptions: one field per host URL, named
/// by it, listing the keys subscribed there.
pub open spec fn subscriptions_listing(subs: Seq<HostSubscription>, e: EmbedView) -> bool {
    let names = e.fields.map_values(|f: FieldView| f.0);
    &&& e.title == "Subscriptions"@
    &&& e.color == INFO_COLOR
    &&& e.url is None
    &&& e.description.len() == 0
    &&& e.footer is None
    &&& names.no_duplicates()
    &&& forall|u: Seq<char>| names.contains(u) <==> subscription_urls(subs).contains(u)
    &&& forall|j: int|
        0 <= j < e.fields.len() ==> (#[trigger] e.fields[j]).1 == bullets(keys_at_url(subs, e.fields[j].0))
            && !e.fields[j].2
}

/// The keys subscribed at a host URL.
pub fn keys_for_url(subs: &Vec<HostSubscription>, url: &str) -> (r: Vec<String>)
    ensures
        strings_view(r@) == keys_at_url(subs@, url@),
{
    let mut out: Vec<String> = Vec::new();
    let mut i: usize = 0;
    while i < subs.len()
        invariant
            i <= subs@.len(),
            strings_view(out@) == keys_at_url(subs@.take(i as int), url@),
        decreases subs@.len() - i,
    {
        assert(subs@.take(i + 1).drop_last() =~= subs@.take(i as int));
        if str_eq(subs[i].host.url.as_str(), url) {
            let ghost before = out@;
            out.push(subs[i].subscription.key.clone());
            assert(strings_view(out@) =~= strings_view(before).push(subs@[i as int].subscription.key@));
        }
        i = i + 1;
    }
    assert(subs@.take(i as int) =~= subs@);
    out
}

/// The reply to /list_subscriptions: a notice when there are none, else
/// the listing.
pub fn list_subscriptions_reply(subs: &Vec<HostSubscription>) -> (r: Embed)
    ensures
        subs@.len() == 0 ==> r.view() == notice_view(Notice::NothingToChoose(CommandName::ListSubscriptions)),
        subs@.len() > 0 ==> subscriptions_listing(subs@, r.view()),
{
    if subs.len() == 0 {
        return notice_embed(Notice::NothingToChoose(CommandName::ListSubscriptions));
    }
    let mut urls_all: Vec<String> = Vec::new();
    let mut i: usize = 0;
    while i < subs.len()
        invariant
            i <= subs@.len(),
            strings_view(urls_all@) == subscription_urls(subs@).take(i as int),
        decreases subs@.len() - i,
    {
        let ghost before = urls_all@;
        urls_all.push(subs[i].host.url.clone());
        assert(strings_view(urls_all@) =~= strings_view(before).push(subs@[i as int].host.url@));
        assert(strings_view(urls_all@) =~= subscription_urls(subs@).take(i + 1));
        i = i + 1;
    }
    assert(strings_view(urls_all@) =~= subscription_urls(subs@));
    let urls = distinct_strings(&urls_all);
    let mut fields: Vec<EmbedField> = Vec::new();
    let mut k: usize = 0;
    while k < urls.len()
        invariant
            k <= urls@.len(),
            fields@.len() == k,
            forall|j: int|
                0 <= j < k ==> (#[trigger] fields@[j]).name@ == urls@[j]@ && fields@[j].value@ == bullets(
                    keys_at_url(subs@, urls@[j]@),
                ) && !fields@[j].inline,
        decreases urls@.len() - k,
    {
        let keys = keys_for_url(subs, urls[k].as_str());
        let value = bullet_list(&keys);
        fields.push(EmbedField { name: urls[k].clone(), value, inline: false });
        k = k + 1;
    }
    let r = Embed {
        title: String::from_str("Subscriptions"),
        url: None,
        color: INFO_COLOR,
        description: String::new(),
        fields,
        footer: None,
    };
    proof {
        let e = r.view();
        let names = e.fields.map_values(|f: FieldView| f.0);
        assert(names =~= strings_view(urls@));
        assert forall|j: int| 0 <= j < e.fields.len() implies (#[trigger] e.fields[j]).1 == bullets(
            keys_at_url(subs@, e.fields[j].0),
        ) && !e.fields[j].2 by {
            assert(e.fields[j] == field_view(fields@[j]));
        }
    }
    r
}

/// Where a /remove_host exchange stands: a host is being chosen, or the
/// removal of the chosen host awaits confirmation.
#[derive(Debug)]
pub enum RemovalStage {
    ChoosingHost,
    Confirming(Host),
}

/// What the user did: nothing in time, or answered with a component (its
/// id, and the values chosen when it is a menu).
#[derive(Debug)]
pub enum RemovalEvent {
    TimedOut,
    Answered { custom_id: String, values: Vec<String> },
}

/// What /remove_host does next.
#[derive(Debug)]
pub enum RemovalAction {
    /// End without a reply.
    Stop,
    /// Answer with this notice and end.
    Reply(Notice),
    /// Show the confirmation for this host and wait for the answer.
    AskConfirmation(Host),
    /// Remove this host, confirm it and post the removal.
    Remove(Host),
}

/// The next step of /remove_host over the guild's `hosts`: while a host is
/// chosen, a menu answer naming one of them asks for confirmation, a stale
/// one is answered "host gone", and no answer or no readable choice ends
/// it; while confirming, the "confirm" button removes the host, any other
/// answer cancels, and no answer ends it.
pub open spec fn removal_action(hosts: Seq<Host>, stage: RemovalStage, event: RemovalEvent) -> RemovalAction {
    match stage {
        RemovalStage::ChoosingHost => match event {
            RemovalEvent::TimedOut => RemovalAction::Stop,
            RemovalEvent::Answered { custom_id, values } => match chosen_id(values@) {
                None => RemovalAction::Stop,
                Some(id) => match last_with_id(host_ids(hosts), id) {
                    Some(i) => RemovalAction::AskConfirmation(hosts[i]),
                    None => RemovalAction::Reply(Notice::HostGone),
                },
            },
        },
        RemovalStage::Confirming(host) => match event {
            RemovalEvent::TimedOut => RemovalAction::Stop,
            RemovalEvent::Answered { custom_id, values } => if custom_id@ == "confirm"@ {
                RemovalAction::Remove(host)
            } else {
                RemovalAction::Reply(Notice::Cancelled)
            },
        },
    }
}

/// Decides the next step of /remove_host (see `removal_action`).
pub fn removal_step(hosts: &Vec<Host>, stage: RemovalStage, event: RemovalEvent) -> (r: RemovalAction)
    ensures
        r == removal_action(hosts@, stage, event),
{
    proof {
        reveal_strlit("confirm");
    }
    match stage {
        RemovalStage::ChoosingHost => match event {
            RemovalEvent::TimedOut => RemovalAction::Stop,
            RemovalEvent::Answered { custom_id: _, values } => match selected_id(&values) {
                None => RemovalAction::Stop,
                Some(id) => match find_host(hosts, id) {
                    Some(h) => RemovalAction::AskConfirmation(h),
                    None => RemovalAction::Reply(Notice::HostGone),
                },
            },
        },
        RemovalStage::Confirming(host) => match event {
            RemovalEvent::TimedOut => RemovalAction::Stop,
            RemovalEvent::Answered { custom_id, values: _ } => if str_eq(custom_id.as_str(), "confirm") {
                RemovalAction::Remove(host)
            } else {
                RemovalAction::Reply(Notice::Cancelled)
            },
        },
    }
}

/// A host is removed only once its removal is confirmed: never straight
/// from the choice of host, and only by the "confirm" button of the
/// confirmation for that very host.
pub proof fn law_removal_only_after_confirmation(hosts: Seq<Host>, stage: RemovalStage, event: RemovalEvent)
    ensures
        removal_action(hosts, stage, event) matches RemovalAction::Remove(h) ==> {
            &&& stage == RemovalStage::Confirming(h)
            &&& event matches RemovalEvent::Answered { custom_id, .. } && custom_id@ == "confirm"@
        },
        stage is ChoosingHost ==> !(removal_action(hosts, stage, event) is Remove),
{
}

/// The host whose removal is asked to be confirmed is one of the guild's
/// hosts, the last one listed with the chosen id.
pub proof fn law_confirmed_host_is_listed(hosts: Seq<Host>, event: RemovalEvent)
    ensures
        removal_action(hosts, RemovalStage::ChoosingHost, event) matches RemovalAction::AskConfirmation(h)
            ==> hosts.contains(h),
{
    if let RemovalEvent::Answered { custom_id, values } = event {
        if let Some(id) = chosen_id(values@) {
            if let Some(i) = last_with_id(host_ids(hosts), id) {
                lemma_last_with_id_in_range(host_ids(hosts), id);
                assert(hosts[i] == hosts[i]);
            }
        }
    }
}

/// The last position holding `id`, when there is one: no later position
/// holds it; and when there is none, no position holds it.
proof fn lemma_last_with_id_is_last(ids: Seq<i64>, id: i64)
    ensures
        last_with_id(ids, id) matches Some(i) ==> 0 <= i < ids.len() && ids[i] == id && forall|j: int|
            i < j < ids.len() ==> ids[j] != id,
        last_with_id(ids, id) is None ==> forall|j: int| 0 <= j < ids.len() ==> ids[j] != id,
    decreases ids.len(),
{
    if ids.len() > 0 {
        let d = ids.drop_last();
        lemma_last_with_id_is_last(d, id);
        assert forall|j: int| 0 <= j < d.len() implies d[j] == ids[j] by {}
    }
}

/// Choosing a host from the /remove_host menu offers exactly the chosen
/// host for confirmation: the menu answer reads as its id, and it is the
/// last listed host with that id. When the answer names a listed host, a
/// confirmation is asked for.
pub proof fn law_confirmation_offers_the_chosen_host(hosts: Seq<Host>, custom_id: String, values: Vec<String>)
    ensures
        ({
            let action = removal_action(hosts, RemovalStage::ChoosingHost, RemovalEvent::Answered { custom_id, values });
            &&& action matches RemovalAction::AskConfirmation(h) ==> {
                &&& chosen_id(values@) == Some(h.id)
                &&& exists|i: int|
                    0 <= i < hosts.len() && #[trigger] hosts[i] == h && forall|j: int|
                        i < j < hosts.len() ==> hosts[j].id != h.id
            }
            &&& (chosen_id(values@) matches Some(k) && exists|i: int| 0 <= i < hosts.len() && #[trigger] hosts[i].id == k)
                ==> action is AskConfirmation
        }),
{
    let ids = host_ids(hosts);
    assert forall|j: int| 0 <= j < hosts.len() implies #[trigger] ids[j] == hosts[j].id by {}
    if let Some(k) = chosen_id(values@) {
        lemma_last_with_id_is_last(ids, k);
        if let Some(i) = last_with_id(ids, k) {
            assert(ids[i] == hosts[i].id);
            assert forall|j: int| i < j < hosts.len() implies hosts[j].id != hosts[i].id by {
                assert(ids[j] == hosts[j].id);
            }
            assert(hosts[i] == hosts[i]);
        } else {
            assert forall|i: int| 0 <= i < hosts.len() implies #[trigger] hosts[i].id != k by {
                assert(ids[i] == hosts[i].id);
            }
        }
    }
}

} // verus!
