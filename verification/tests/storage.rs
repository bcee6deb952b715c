use mira::storage::{host_subscription_from_row, stored_token, SubscriptionRow};

fn row(token: Option<&str>) -> SubscriptionRow {
    SubscriptionRow {
        host_id: 1,
        url: "http://test.host".to_string(),
        auth_header: Some("Bearer x".to_string()),
        host_guild_id: 2,
        key: "stream1".to_string(),
        subscription_id: 3,
        channel_id: 42,
        subscription_token: token.map(|s| s.to_string()),
        message_id: Some(9),
    }
}

#[test]
fn stored_tokens_read_back() {
    let token: u128 = 0x6ba7b811_9dad_11d1_80b4_00c04fd430c8;
    let text = stored_token(token);
    assert_eq!(text, "6ba7b811-9dad-11d1-80b4-00c04fd430c8");
    let hs = host_subscription_from_row(row(Some(&text)));
    assert_eq!(hs.subscription.token, Some(token));
    assert_eq!(hs.subscription.key, "stream1");
    assert_eq!(hs.subscription.channel_id, 42);
    assert_eq!(hs.subscription.message_id, Some(9));
    assert_eq!(hs.host.url, "http://test.host");
    assert_eq!(hs.host.host_guild_id, 2);
}

#[test]
fn unreadable_tokens_count_as_none() {
    assert_eq!(host_subscription_from_row(row(Some("not a uuid"))).subscription.token, None);
    assert_eq!(host_subscription_from_row(row(None)).subscription.token, None);
}

#[test]
fn uuid_text_forms() {
    assert_eq!(stored_token(0), "00000000-0000-0000-0000-000000000000");
    let simple = host_subscription_from_row(row(Some("6BA7B8119DAD11D180B400C04FD430C8")));
    assert_eq!(simple.subscription.token, Some(0x6ba7b811_9dad_11d1_80b4_00c04fd430c8));
    assert_eq!(host_subscription_from_row(row(Some("xyz"))).subscription.token, None);
}
