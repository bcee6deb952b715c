//! How stored rows become subscriptions, and how tokens are stored.
use vstd::prelude::*;

use crate::ids::{parse_uuid, parsed_uuid, uuid_text, uuid_to_string};
use crate::models::{Host, HostSubscription, Subscription};

verus! {

/// A stored subscription joined with its host.
#[derive(Debug)]
pub struct SubscriptionRow {
    pub host_id: i64,
    pub url: String,
    pub auth_header: Option<String>,
    pub host_guild_id: i64,
    pub key: String,
    pub subscription_id: i64,
    pub channel_id: i64,
    pub subscription_token: Option<String>,
    pub message_id: Option<i64>,
}

/// The token stored as text, when it reads as a UUID.
pub open spec fn row_token(t: Option<String>) -> Option<u128> {
    match t {
        Some(s) => parsed_uuid(s@),
        None => None,
    }
}

/// The subscription and host a row describes; a stored token that does not
/// read as a UUID counts as no token.
pub fn host_subscription_from_row(row: SubscriptionRow) -> (r: HostSubscription)
    ensures
        r.host == (Host { id: row.host_id, url: row.url, auth_header: row.auth_header, host_guild_id: row.host_guild_id }),
        r.subscription.id == row.subscription_id,
        r.subscription.key == row.key,
        r.subscription.channel_id == row.channel_id,
        r.subscription.message_id == row.message_id,
        r.subscription.token == row_token(row.subscription_token),
        forall|u: u128|
            (row.subscription_token matches Some(s) && s@ == uuid_text(u)) ==> r.subscription.token == Some(u),
{
    let token = match &row.subscription_token {
        Some(s) => parse_uuid(s.as_str()),
        None => None,
    };
    HostSubscription {
        host: Host { id: row.host_id, url: row.url, auth_header: row.auth_header, host_guild_id: row.host_guild_id },
        subscription: Subscription {
            id: row.subscription_id,
            key: row.key,
            channel_id: row.channel_id,
            token,
            message_id: row.message_id,
        },
    }
}

/// The text a token is stored as: its hyphenated form.
pub fn stored_token(token: u128) -> (r: String)
    ensures
        r@ == uuid_text(token),
{
    uuid_to_string(token)
}

} // verus!
