use mira::models::StreamInfo;
use mira::templates::{
    error_embed, format_duration, offline_embed, online_embed, success_embed, Embed, ERROR_COLOR, SUCCESS_COLOR,
};

fn fields(e: &Embed) -> Vec<(String, String, bool)> {
    e.fields.iter().map(|f| (f.name.clone(), f.value.clone(), f.inline)).collect()
}

const Z: &str = "\u{200B}";

#[test]
fn error_and_success_embeds() {
    let e = error_embed("Oops", "It broke");
    assert_eq!(e.title, "Oops");
    assert_eq!(e.description, "It broke");
    assert_eq!(e.color, 0xE74C3C);
    assert_eq!(e.color, ERROR_COLOR);
    assert!(e.fields.is_empty() && e.url.is_none() && e.footer.is_none());
    let s = success_embed("Yay", "It worked");
    assert_eq!(s.color, 0x2ECC71);
    assert_eq!(s.color, SUCCESS_COLOR);
    assert_eq!(s.title, "Yay");
}

#[test]
fn durations_are_hours_and_minutes() {
    assert_eq!(format_duration(3 * 3600 + 25 * 60 + 10, 0, 0, 0), "03:25");
    assert_eq!(format_duration(125 * 3600, 0, 0, 0), "125:00");
    assert_eq!(format_duration(59, 0, 0, 0), "00:00");
    // a start in the future truncates towards zero, as chrono's durations do
    assert_eq!(format_duration(0, 0, 90, 0), "00:-1");
    assert_eq!(format_duration(0, 0, 4000, 0), "-1:-6");
    // whole seconds count with their nanoseconds, as chrono subtracts
    assert_eq!(format_duration(60, 0, 0, 500_000_000), "00:00");
    assert_eq!(format_duration(60, 500_000_000, 0, 500_000_000), "00:01");
    assert_eq!(format_duration(3600, 200, 0, 100), "01:00");
    assert_eq!(format_duration(3599, 999_999_999, 0, 0), "00:59");
}

#[test]
fn online_embed_lists_duration_viewers_and_playing() {
    let info = StreamInfo { started: 0, started_nanos: 0, viewers: 12 };
    let e = online_embed("https://h/k", "k", &info, Some("Tetris"), 2 * 3600 + 5 * 60, 0).unwrap();
    assert_eq!(e.title, "Stream Online");
    assert_eq!(e.url.as_deref(), Some("https://h/k"));
    assert_eq!(e.color, SUCCESS_COLOR);
    assert_eq!(e.description, "k is streaming!");
    assert_eq!(
        fields(&e),
        vec![
            (Z.to_string(), Z.to_string(), false),
            ("Duration".to_string(), "02:05".to_string(), true),
            ("Viewers".to_string(), "12".to_string(), true),
            ("Playing".to_string(), "Tetris".to_string(), false),
        ]
    );
    assert_eq!(e.footer.as_deref(), Some("Started: 01/01/1970, 00:00"));
    let plain = online_embed("https://h/k", "k", &info, None, 0, 0).unwrap();
    assert_eq!(plain.fields.len(), 3);
}

#[test]
fn offline_embed_mentions_what_was_playing() {
    let e = offline_embed("https://h/k", "k", Some("Tetris"), 86400 + 3600 * 13 + 60 * 7).unwrap();
    assert_eq!(e.title, "Stream Offline");
    assert_eq!(e.color, ERROR_COLOR);
    assert_eq!(e.description, "k is offline.");
    assert_eq!(
        fields(&e),
        vec![(Z.to_string(), Z.to_string(), false), ("Previously Playing".to_string(), "Tetris".to_string(), false)]
    );
    assert_eq!(e.footer.as_deref(), Some("Ended: 02/01/1970, 13:07"));
    assert_eq!(offline_embed("u", "k", None, 0).unwrap().fields.len(), 1);
}

#[test]
fn unrenderable_times_give_no_embed() {
    let info = StreamInfo { started: i64::MAX, started_nanos: 0, viewers: 0 };
    assert!(online_embed("u", "k", &info, None, 0, 0).is_none());
    assert!(offline_embed("u", "k", None, i64::MIN).is_none());
}

#[test]
fn times_beyond_the_calendar_are_not_rendered() {
    let info = StreamInfo { started: i64::MAX, started_nanos: 0, viewers: 1 };
    assert!(online_embed("http://h/k", "k", &info, None, 0, 0).is_none());
    assert!(offline_embed("http://h/k", "k", None, i64::MIN).is_none());
    let far = StreamInfo { started: 8_000_000_000_000, started_nanos: 0, viewers: 1 };
    assert!(online_embed("http://h/k", "k", &far, None, 8_000_000_000_000, 0).is_some());
    assert!(offline_embed("http://h/k", "k", None, -8_000_000_000_000).is_some());
}
