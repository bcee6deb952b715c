//! The chat messages (embeds) the bot posts: errors, successes, and the
//! announcements of streams going online and offline.
use vstd::prelude::*;
use vstd::string::*;

use crate::datetime::{day_minute_text, format_day_minute, renderable_time};
use crate::models::StreamInfo;
use crate::text::{decimal, i64_zero_pad2, push_decimal, zero_pad2};

verus! {

/// The colour of error and offline embeds.
pub const ERROR_COLOR: u32 = 0xE74C3C;

/// The colour of success and online embeds.
pub const SUCCESS_COLOR: u32 = 0x2ECC71;

/// The colour of listing embeds.
pub const INFO_COLOR: u32 = 0x3498DB;

/// One field of an embed.
#[derive(Debug, Clone)]
pub struct EmbedField {
    pub name: String,
    pub value: String,
    pub inline: bool,
}

/// A chat embed: a title, an optional link, a colour, a description, fields
/// and an optional footer.
#[derive(Debug, Clone)]
pub struct Embed {
    pub title: String,
    pub url: Option<String>,
    pub color: u32,
    pub description: String,
    pub fields: Vec<EmbedField>,
    pub footer: Option<String>,
}

/// A field as plain text: name, value and whether it is inline.
pub type FieldView = (Seq<char>, Seq<char>, bool);

/// An embed as plain text.
pub struct EmbedView {
    pub title: Seq<char>,
    pub url: Option<Seq<char>>,
    pub color: u32,
    pub description: Seq<char>,
    pub fields: Seq<FieldView>,
    pub footer: Option<Seq<char>>,
}

pub open spec fn field_view(f: EmbedField) -> FieldView {
    (f.name@, f.value@, f.inline)
}

pub open spec fn opt_text(o: Option<String>) -> Option<Seq<char>> {
    match o {
        Some(s) => Some(s@),
        None => None,
    }
}

impl Embed {
    pub open spec fn view(&self) -> EmbedView {
        EmbedView {
            title: self.title@,
            url: opt_text(self.url),
            color: self.color,
            description: self.description@,
            fields: self.fields@.map_values(|f: EmbedField| field_view(f)),
            footer: opt_text(self.footer),
        }
    }
}

/// An embed with only a title, a colour and a description.
pub open spec fn plain_embed(title: Seq<char>, color: u32, description: Seq<char>) -> EmbedView {
    EmbedView { title, url: None, color, description, fields: Seq::empty(), footer: None }
}

/// A field of a zero-width space in name and value: a blank line between
/// the description and the fields.
pub open spec fn blank_field() -> FieldView {
    (seq!['\u{200B}'], seq!['\u{200B}'], false)
}

fn make_field(name: &str, value: &str, inline: bool) -> (r: EmbedField)
    ensures
        field_view(r) == (name@, value@, inline),
{
    EmbedField { name: String::from_str(name), value: String::from_str(value), inline }
}

fn blank() -> (r: EmbedField)
    ensures
        field_view(r) == blank_field(),
{
    let mut z = String::new();
    crate::text::push_char(&mut z, '\u{200B}');
    let mut z2 = String::new();
    crate::text::push_char(&mut z2, '\u{200B}');
    assert(z@ =~= seq!['\u{200B}']);
    assert(z2@ =~= seq!['\u{200B}']);
    EmbedField { name: z, value: z2, inline: false }
}

/// An error embed: the title and message in the error colour.
pub fn error_embed(title: &str, message: &str) -> (r: Embed)
    ensures
        r.view() == plain_embed(title@, ERROR_COLOR, message@),
{
    let r = Embed {
        title: String::from_str(title),
        url: None,
        color: ERROR_COLOR,
        description: String::from_str(message),
        fields: Vec::new(),
        footer: None,
    };
    assert(r.view().fields =~= Seq::<FieldView>::empty());
    r
}

/// A success embed: the title and message in the success colour.
pub fn success_embed(title: &str, message: &str) -> (r: Embed)
    ensures
        r.view() == plain_embed(title@, SUCCESS_COLOR, message@),
{
    let r = Embed {
        title: String::from_str(title),
        url: None,
        color: SUCCESS_COLOR,
        description: String::from_str(message),
        fields: Vec::new(),
        footer: None,
    };
    assert(r.view().fields =~= Seq::<FieldView>::empty());
    r
}

/// Integer division that truncates towards zero, as Rust divides.
pub open spec fn trunc_div(a: int, b: int) -> int {
    if a >= 0 {
        a / b
    } else {
        -((-a) / b)
    }
}

/// The remainder of truncating division: it has the sign of `a`.
pub open spec fn trunc_rem(a: int, b: int) -> int {
    a - b * trunc_div(a, b)
}

/// The whole seconds a stream that started at `started` (and
/// `started_nanos` nanoseconds) has run when seen at `now` (and
/// `now_nanos`): truncated towards zero, as chrono counts the whole
/// seconds of a duration.
pub open spec fn elapsed_secs(now: i64, now_nanos: u32, started: i64, started_nanos: u32) -> int {
    trunc_div((now - started) * 1_000_000_000 + (now_nanos - started_nanos), 1_000_000_000)
}

/// The whole hours of such a stream's running time.
pub open spec fn duration_hours(now: i64, now_nanos: u32, started: i64, started_nanos: u32) -> int {
    trunc_div(elapsed_secs(now, now_nanos, started, started_nanos), 3600)
}

/// The minutes past the whole hours of such a stream.
pub open spec fn duration_minutes(now: i64, now_nanos: u32, started: i64, started_nanos: u32) -> int {
    trunc_rem(trunc_div(elapsed_secs(now, now_nanos, started, started_nanos), 60), 60)
}

/// The running time of a stream as `HH:MM`, each part padded to two
/// places.
pub open spec fn duration_text(now: i64, now_nanos: u32, started: i64, started_nanos: u32) -> Seq<char> {
    zero_pad2(duration_hours(now, now_nanos, started, started_nanos)) + ":"@ + zero_pad2(
        duration_minutes(now, now_nanos, started, started_nanos),
    )
}

/// The whole hours and the minutes past them of a stream's running time.
pub fn duration_parts(now: i64, now_nanos: u32, started: i64, started_nanos: u32) -> (r: (i64, i64))
    ensures
        r.0 == duration_hours(now, now_nanos, started, started_nanos),
        r.1 == duration_minutes(now, now_nanos, started, started_nanos),
{
    let ds: i128 = (now as i128) - (started as i128);
    assert(-0x1_0000_0000_0000_0000 <= ds <= 0x1_0000_0000_0000_0000);
    assert(-0x1_0000_0000_0000_0000 * 1_000_000_000 <= ds * 1_000_000_000 <= 0x1_0000_0000_0000_0000 * 1_000_000_000)
        by (nonlinear_arith)
        requires
            -0x1_0000_0000_0000_0000 <= ds <= 0x1_0000_0000_0000_0000,
    ;
    let d: i128 = ds * 1_000_000_000 + ((now_nanos as i128) - (started_nanos as i128));
    let neg = d < 0;
    let m: u128 = if neg { (-d) as u128 } else { d as u128 };
    let secs: u128 = m / 1_000_000_000;
    let h: u128 = secs / 3600;
    let mins: u128 = (secs / 60) % 60;
    assert(m <= 0x1_0000_0000_0000_0000 * 1_000_000_000 + 0x1_0000_0000);
    assert(secs <= 0x1_0000_0000_0000_0005);
    assert(h <= 5124095576030432);
    let hours: i64 = if neg { -(h as i64) } else { h as i64 };
    let minutes: i64 = if neg { -(mins as i64) } else { mins as i64 };
    proof {
        let e = elapsed_secs(now, now_nanos, started, started_nanos);
        assert(d == (now - started) * 1_000_000_000 + (now_nanos - started_nanos));
        if neg {
            assert(e == -((m as int) / 1_000_000_000));
            assert(trunc_div(e, 60) == -((secs as int) / 60));
            assert(trunc_div(trunc_div(e, 60), 60) == -(((secs as int) / 60) / 60));
        } else {
            assert(e == (m as int) / 1_000_000_000);
            assert(trunc_div(e, 60) == (secs as int) / 60);
        }
    }
    (hours, minutes)
}

/// The running time of a stream as `HH:MM`.
pub fn format_duration(now: i64, now_nanos: u32, started: i64, started_nanos: u32) -> (r: String)
    ensures
        r@ == duration_text(now, now_nanos, started, started_nanos),
{
    let (h, m) = duration_parts(now, now_nanos, started, started_nanos);
    let mut s = i64_zero_pad2(h);
    s.append(":");
    let mm = i64_zero_pad2(m);
    s.append(mm.as_str());
    s
}

/// The embed announcing a live stream, given the rendered start time.
pub open spec fn online_embed_view(
    stream_url: Seq<char>,
    key: Seq<char>,
    info: StreamInfo,
    playing: Option<Seq<char>>,
    now: i64,
    now_nanos: u32,
    started_text: Seq<char>,
) -> EmbedView {
    let fields = seq![
        blank_field(),
        ("Duration"@, duration_text(now, now_nanos, info.started, info.started_nanos), true),
        ("Viewers"@, decimal(info.viewers as nat), true),
    ];
    EmbedView {
        title: "Stream Online"@,
        url: Some(stream_url),
        color: SUCCESS_COLOR,
        description: key + " is streaming!"@,
        fields: match playing {
            Some(p) => fields.push(("Playing"@, p, false)),
            None => fields,
        },
        footer: Some("Started: "@ + started_text),
    }
}

/// The embed announcing that a stream ended, given the rendered end time.
pub open spec fn offline_embed_view(
    stream_url: Seq<char>,
    key: Seq<char>,
    playing: Option<Seq<char>>,
    ended_text: Seq<char>,
) -> EmbedView {
    EmbedView {
        title: "Stream Offline"@,
        url: Some(stream_url),
        color: ERROR_COLOR,
        description: key + " is offline."@,
        fields: match playing {
            Some(p) => seq![blank_field(), ("Previously Playing"@, p, false)],
            None => seq![blank_field()],
        },
        footer: Some("Ended: "@ + ended_text),
    }
}

pub open spec fn opt_str(o: Option<&str>) -> Option<Seq<char>> {
    match o {
        Some(s) => Some(s@),
        None => None,
    }
}

/// The embed announcing a live stream seen at `now` (and `now_nanos`
/// nanoseconds), whose start time has already been rendered as
/// `started_text`.
pub fn online_embed_at(
    stream_url: &str,
    key: &str,
    info: &StreamInfo,
    playing: Option<&str>,
    now: i64,
    now_nanos: u32,
    started_text: &str,
) -> (r: Embed)
    ensures
        r.view() == online_embed_view(stream_url@, key@, *info, opt_str(playing), now, now_nanos, started_text@),
{
    let mut description = String::from_str(key);
    description.append(" is streaming!");
    let mut fields: Vec<EmbedField> = Vec::new();
    fields.push(blank());
    let dur = format_duration(now, now_nanos, info.started, info.started_nanos);
    fields.push(make_field("Duration", dur.as_str(), true));
    let mut viewers = String::new();
    push_decimal(&mut viewers, info.viewers as u64);
    fields.push(make_field("Viewers", viewers.as_str(), true));
    match playing {
        Some(p) => fields.push(make_field("Playing", p, false)),
        None => {},
    }
    let mut footer = String::from_str("Started: ");
    footer.append(started_text);
    let r = Embed {
        title: String::from_str("Stream Online"),
        url: Some(String::from_str(stream_url)),
        color: SUCCESS_COLOR,
        description,
        fields,
        footer: Some(footer),
    };
    proof {
        let base = seq![
            blank_field(),
            ("Duration"@, duration_text(now, now_nanos, info.started, info.started_nanos), true),
            ("Viewers"@, decimal(info.viewers as nat), true),
        ];
        match playing {
            Some(p) => assert(r.view().fields =~= base.push(("Playing"@, p@, false))),
            None => assert(r.view().fields =~= base),
        }
    }
    r
}

/// The embed announcing a live stream seen at `now`, or `None` when its
/// start time cannot be rendered (never within `renderable_time`).
pub fn online_embed(
    stream_url: &str,
    key: &str,
    info: &StreamInfo,
    playing: Option<&str>,
    now: i64,
    now_nanos: u32,
) -> (r: Option<Embed>)
    ensures
        match day_minute_text(info.started) {
            Some(t) => r matches Some(e) && e.view() == online_embed_view(stream_url@, key@, *info, opt_str(playing), now, now_nanos, t),
            None => r is None,
        },
        renderable_time(info.started) ==> r is Some,
{
    match format_day_minute(info.started) {
        Some(t) => Some(online_embed_at(stream_url, key, info, playing, now, now_nanos, t.as_str())),
        None => None,
    }
}

/// The embed announcing that a stream ended, whose end time has already
/// been rendered as `ended_text`.
pub fn offline_embed_at(stream_url: &str, key: &str, playing: Option<&str>, ended_text: &str) -> (r: Embed)
    ensures
        r.view() == offline_embed_view(stream_url@, key@, opt_str(playing), ended_text@),
{
    let mut description = String::from_str(key);
    description.append(" is offline.");
    let mut fields: Vec<EmbedField> = Vec::new();
    fields.push(blank());
    match playing {
        Some(p) => fields.push(make_field("Previously Playing", p, false)),
        None => {},
    }
    let mut footer = String::from_str("Ended: ");
    footer.append(ended_text);
    let r = Embed {
        title: String::from_str("Stream Offline"),
        url: Some(String::from_str(stream_url)),
        color: ERROR_COLOR,
        description,
        fields,
        footer: Some(footer),
    };
    proof {
        match playing {
            Some(p) => assert(r.view().fields =~= seq![blank_field(), ("Previously Playing"@, p@, false)]),
            None => assert(r.view().fields =~= seq![blank_field()]),
        }
    }
    r
}

/// The embed announcing that a stream ended at `now`, or `None` when that
/// time cannot be rendered (never within `renderable_time`).
pub fn offline_embed(stream_url: &str, key: &str, playing: Option<&str>, now: i64) -> (r: Option<Embed>)
    ensures
        match day_minute_text(now) {
            Some(t) => r matches Some(e) && e.view() == offline_embed_view(stream_url@, key@, opt_str(playing), t),
            None => r is None,
        },
        renderable_time(now) ==> r is Some,
{
    match format_day_minute(now) {
        Some(t) => Some(offline_embed_at(stream_url, key, playing, t.as_str())),
        None => None,
    }
}

} // verus!
