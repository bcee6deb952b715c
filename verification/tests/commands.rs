use mira::commands::{
    add_host_reply, bullet_list, find_host, find_subscription, host_keys, host_options, host_removed,
    list_subscriptions_reply, notice_embed, online_subscriptions, playing_updated, removal_confirmation,
    removal_step, selected_id, subscribed, subscription_options, unsubscribed, CommandName, Notice, RemovalAction,
    RemovalEvent, RemovalStage,
};
use mira::error::CoreError;
use mira::models::{Host, HostSubscription, Subscription};

fn host(id: i64, url: &str, link: i64) -> Host {
    Host { id, url: url.to_string(), auth_header: None, host_guild_id: link }
}

fn hs(h: Host, id: i64, key: &str, message_id: Option<i64>) -> HostSubscription {
    HostSubscription {
        host: h,
        subscription: Subscription { id, key: key.to_string(), channel_id: 1, token: None, message_id },
    }
}

fn strings(v: &[&str]) -> Vec<String> {
    v.iter().map(|s| s.to_string()).collect()
}

#[test]
fn notices() {
    let e = notice_embed(Notice::OutsideServer(CommandName::Subscribe));
    assert_eq!(e.title, "Subscribe Failed");
    assert_eq!(e.description, "/subscribe can only be ran from a server channel currently.");
    let e = notice_embed(Notice::NothingToChoose(CommandName::Playing));
    assert_eq!((e.title.as_str(), e.description.as_str()), ("No Streams", "There are no streams currently online."));
    let e = notice_embed(Notice::HostRemovedDone);
    assert_eq!((e.title.as_str(), e.color), ("Done", 0x2ECC71));
    assert_eq!(notice_embed(Notice::TimedOut).description, "No response received.");
}

#[test]
fn menus_offer_each_id_once() {
    let hosts = vec![host(1, "https://a.com", 10), host(2, "https://b.com", 11)];
    let o = host_options(&hosts);
    let pairs: Vec<(String, String)> = o.iter().map(|x| (x.label.clone(), x.value.clone())).collect();
    assert_eq!(pairs, vec![("https://a.com".to_string(), "1".to_string()), ("https://b.com".to_string(), "2".to_string())]);
    let dup = vec![host(1, "https://a.com", 10), host(1, "https://c.com", 12)];
    let o = host_options(&dup);
    assert_eq!(o.len(), 1);
    assert_eq!(o[0].label, "https://c.com");

    let subs = vec![hs(host(1, "https://a.com", 10), 5, "k", None)];
    let o = subscription_options(&subs);
    assert_eq!((o[0].label.as_str(), o[0].value.as_str()), ("https://a.com/k", "5"));
}

#[test]
fn choices_are_read_back_by_id() {
    assert_eq!(selected_id(&strings(&["12"])), Some(12));
    assert_eq!(selected_id(&strings(&["x"])), None);
    assert_eq!(selected_id(&vec![]), None);
    let hosts = vec![host(1, "https://a.com", 10), host(2, "https://b.com", 11)];
    assert_eq!(find_host(&hosts, 2).unwrap().url, "https://b.com");
    assert!(find_host(&hosts, 3).is_none());
    let subs = vec![hs(host(1, "a", 10), 5, "k", None), hs(host(1, "a", 10), 6, "j", None)];
    assert_eq!(find_subscription(&subs, 6).unwrap().subscription.key, "j");
    assert!(find_subscription(&subs, 7).is_none());
}

#[test]
fn playing_offers_only_online_streams() {
    let subs = vec![hs(host(1, "a", 10), 5, "k", None), hs(host(1, "a", 10), 6, "j", Some(99))];
    let on = online_subscriptions(&subs);
    assert_eq!(on.len(), 1);
    assert_eq!(on[0].subscription.id, 6);
}

#[test]
fn removal_texts() {
    let subs = vec![
        hs(host(1, "https://a.com", 10), 5, "k1", None),
        hs(host(2, "https://b.com", 11), 6, "x", None),
        hs(host(1, "https://a.com", 10), 7, "k2", None),
    ];
    let keys = host_keys(&subs, 10);
    assert_eq!(keys, strings(&["k1", "k2"]));
    assert_eq!(bullet_list(&keys), "• k1\n• k2");
    let c = removal_confirmation("https://a.com", &keys);
    assert_eq!(c.title, "Confirm Removal");
    assert_eq!(c.description, "**Host:** https://a.com\n\n**Subscribed keys:**\n• k1\n• k2");
    let none = removal_confirmation("https://a.com", &vec![]);
    assert_eq!(none.description, "**Host:** https://a.com\n\n**Subscribed keys:**\n*(no active subscriptions)*");
    let p = host_removed("https://a.com", &keys);
    assert_eq!(p.title, "Host Removed");
    assert_eq!(p.description, "**https://a.com** has been removed.\n\n**Unsubscribed keys:**\n• k1\n• k2");
    assert_eq!(host_removed("h", &vec![]).description, "**h** has been removed.\n\n**Unsubscribed keys:**\n*(none)*");
}

#[test]
fn replies_of_actions() {
    let ok = add_host_reply("https://a.com", &Ok(()));
    assert_eq!((ok.title.as_str(), ok.description.as_str()), ("Success", "Host https://a.com added."));
    let failed = add_host_reply("https://a.com", &Err(CoreError::StreamError("Host already exists!".to_string())));
    assert_eq!((failed.title.as_str(), failed.description.as_str()), ("Failed", "Host already exists!"));
    assert_eq!(playing_updated("https://a.com/k", "Tetris").description, "Updated https://a.com/k to playing 'Tetris'");
    assert_eq!(
        unsubscribed("https://a.com/k").description,
        "Unsubscribed from https://a.com/k. You will no longer be notified when they come online."
    );
    assert_eq!(
        subscribed("https://a.com", "k").description,
        "Subscribed to https://a.com/k. You will be notified in this channel when they are next online."
    );
}

#[test]
fn listing_groups_keys_by_host() {
    let empty = list_subscriptions_reply(&vec![]);
    assert_eq!(empty.title, "No Subscriptions");
    let subs = vec![
        hs(host(1, "https://a.com", 10), 5, "k1", None),
        hs(host(2, "https://b.com", 11), 6, "x", None),
        hs(host(1, "https://a.com", 10), 7, "k2", None),
    ];
    let e = list_subscriptions_reply(&subs);
    assert_eq!(e.title, "Subscriptions");
    assert_eq!(e.color, 0x3498DB);
    let mut fields: Vec<(String, String)> = e.fields.iter().map(|f| (f.name.clone(), f.value.clone())).collect();
    fields.sort();
    assert_eq!(
        fields,
        vec![("https://a.com".to_string(), "• k1\n• k2".to_string()), ("https://b.com".to_string(), "• x".to_string())]
    );
}

#[test]
fn a_host_is_removed_only_after_confirmation() {
    let hosts = vec![
        Host { id: 1, url: "https://a.com".to_string(), auth_header: None, host_guild_id: 10 },
        Host { id: 2, url: "https://b.com".to_string(), auth_header: None, host_guild_id: 20 },
    ];
    let choose = |values: Vec<&str>| RemovalEvent::Answered {
        custom_id: "host-select".to_string(),
        values: values.into_iter().map(|v| v.to_string()).collect(),
    };
    match removal_step(&hosts, RemovalStage::ChoosingHost, choose(vec!["2"])) {
        RemovalAction::AskConfirmation(h) => assert_eq!(h.url, "https://b.com"),
        other => panic!("unexpected {other:?}"),
    }
    assert!(matches!(
        removal_step(&hosts, RemovalStage::ChoosingHost, choose(vec!["7"])),
        RemovalAction::Reply(Notice::HostGone)
    ));
    assert!(matches!(removal_step(&hosts, RemovalStage::ChoosingHost, choose(vec![])), RemovalAction::Stop));
    assert!(matches!(removal_step(&hosts, RemovalStage::ChoosingHost, RemovalEvent::TimedOut), RemovalAction::Stop));
    let confirm = RemovalEvent::Answered { custom_id: "confirm".to_string(), values: vec![] };
    match removal_step(&hosts, RemovalStage::Confirming(hosts[0].clone()), confirm) {
        RemovalAction::Remove(h) => assert_eq!(h.id, 1),
        other => panic!("unexpected {other:?}"),
    }
    let cancel = RemovalEvent::Answered { custom_id: "cancel".to_string(), values: vec![] };
    assert!(matches!(
        removal_step(&hosts, RemovalStage::Confirming(hosts[0].clone()), cancel),
        RemovalAction::Reply(Notice::Cancelled)
    ));
    assert!(matches!(
        removal_step(&hosts, RemovalStage::Confirming(hosts[0].clone()), RemovalEvent::TimedOut),
        RemovalAction::Stop
    ));
}
