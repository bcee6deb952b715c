//! What a new stream status means for a subscription's announcement: post
//! a new message, edit the one posted, close it, or nothing; and how the
//! stored state changes after.
use vstd::prelude::*;

use crate::models::{StreamInfo, StreamState, StreamStatus};

verus! {

/// How the stored state of a subscription changes after a notification.
#[derive(Debug, Clone, Copy, PartialEq, Eq, Structural)]
pub enum StateChange {
    Online { message_id: i64 },
    Offline,
}

/// What to do in the subscription's channel.
#[derive(Debug)]
pub enum NotifyAction {
    /// Post a new announcement of the live stream.
    SendOnline { info: StreamInfo },
    /// Edit the posted announcement with fresh details.
    UpdateOnline { info: StreamInfo, message_id: i64, playing: Option<String> },
    /// Turn the posted announcement into an end notice.
    SendOffline { message_id: i64, playing: Option<String> },
    /// Nothing changed.
    Nothing,
}

/// The action for a status seen while the stored state is `state`.
pub open spec fn notify_action(status: StreamStatus, state: StreamState) -> NotifyAction {
    match (status, state) {
        (StreamStatus::Online(info), StreamState::Offline) => NotifyAction::SendOnline { info },
        (StreamStatus::Online(info), StreamState::Online { message_id, playing }) => NotifyAction::UpdateOnline {
            info,
            message_id,
            playing,
        },
        (StreamStatus::Offline, StreamState::Online { message_id, playing }) => NotifyAction::SendOffline {
            message_id,
            playing,
        },
        (StreamStatus::Offline, StreamState::Offline) => NotifyAction::Nothing,
    }
}

/// Decides what to do for a status seen while the stored state is `state`.
pub fn plan_notification(status: StreamStatus, state: StreamState) -> (r: NotifyAction)
    ensures
        r == notify_action(status, state),
{
    match (status, state) {
        (StreamStatus::Online(info), StreamState::Offline) => NotifyAction::SendOnline { info },
        (StreamStatus::Online(info), StreamState::Online { message_id, playing }) => NotifyAction::UpdateOnline {
            info,
            message_id,
            playing,
        },
        (StreamStatus::Offline, StreamState::Online { message_id, playing }) => NotifyAction::SendOffline {
            message_id,
            playing,
        },
        (StreamStatus::Offline, StreamState::Offline) => NotifyAction::Nothing,
    }
}

/// The state change once an action is carried out: a new announcement
/// (whose message id is `posted_message_id`) makes the subscription online,
/// an end notice makes it offline, and editing or doing nothing changes
/// nothing.
pub open spec fn change_after(action: NotifyAction, posted_message_id: u64) -> Option<StateChange> {
    match action {
        NotifyAction::SendOnline { .. } => Some(StateChange::Online { message_id: posted_message_id as i64 }),
        NotifyAction::SendOffline { .. } => Some(StateChange::Offline),
        _ => None,
    }
}

/// The state change once `action` is carried out; `posted_message_id` is
/// the id of the message posted, and is read only for a new announcement.
pub fn state_change_after(action: &NotifyAction, posted_message_id: u64) -> (r: Option<StateChange>)
    ensures
        r == change_after(*action, posted_message_id),
{
    match action {
        NotifyAction::SendOnline { .. } => {
            let id: i64 = #[verifier::truncate] (posted_message_id as i64);
            Some(StateChange::Online { message_id: id })
        },
        NotifyAction::SendOffline { .. } => Some(StateChange::Offline),
        _ => None,
    }
}

/// The chat message id stored as `message_id` (ids are stored as signed
/// numbers).
pub fn stored_message_id(message_id: i64) -> (r: u64)
    ensures
        r == message_id as u64,
{
    #[verifier::truncate] (message_id as u64)
}

/// A status and the stored state agree when the stream is online exactly
/// when the state says so: then the only action is an edit or nothing, and
/// the state does not change.
pub proof fn law_agreeing_state_is_kept(status: StreamStatus, state: StreamState, id: u64)
    requires
        (status is Online) == (state is Online),
    ensures
        change_after(notify_action(status, state), id) is None,
{
}

/// Once the state change of a notification is stored, the same status
/// asks for no new message and no end notice: announcing is not repeated.
pub proof fn law_notification_settles(status: StreamStatus, playing: Option<String>, id: u64)
    ensures
        ({
            let first = notify_action(status, StreamState::Offline);
            match change_after(first, id) {
                Some(StateChange::Online { message_id }) => {
                    let next = notify_action(status, StreamState::Online { message_id, playing });
                    next is UpdateOnline
                },
                _ => notify_action(status, StreamState::Offline) is Nothing,
            }
        }),
        ({
            let first = notify_action(status, StreamState::Online { message_id: id as i64, playing });
            match change_after(first, id) {
                Some(StateChange::Offline) => notify_action(status, StreamState::Offline) is Nothing,
                _ => notify_action(status, StreamState::Online { message_id: id as i64, playing }) is UpdateOnline,
            }
        }),
{
}

/// Every action planned while an announcement is stored (an edit or an
/// end notice) targets that announcement and carries what is stored as
/// playing; an online status edits it with the status's details, an
/// offline one turns it into an end notice.
pub proof fn law_stored_announcement_is_carried(status: StreamStatus, message_id: i64, playing: Option<String>)
    ensures
        match notify_action(status, StreamState::Online { message_id, playing }) {
            NotifyAction::UpdateOnline { info, message_id: m, playing: p } => {
                &&& m == message_id
                &&& p == playing
                &&& status == StreamStatus::Online(info)
            },
            NotifyAction::SendOffline { message_id: m, playing: p } => {
                &&& m == message_id
                &&& p == playing
                &&& status == StreamStatus::Offline
            },
            _ => false,
        },
{
}

/// A new announcement is planned only while none is stored, for the
/// status's own details.
pub proof fn law_new_announcement_only_when_offline(status: StreamStatus, state: StreamState)
    ensures
        notify_action(status, state) matches NotifyAction::SendOnline { info } ==> state == StreamState::Offline
            && status == StreamStatus::Online(info),
{
}

} // verus!
