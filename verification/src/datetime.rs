//! Rendering of UTC timestamps, through chrono.
use vstd::prelude::*;

verus! {

/// The text chrono renders for the UTC instant `secs` seconds after the
/// Unix epoch with the pattern `%d/%m/%Y, %H:%M` (day, month, year, then
/// hour and minute), or `None` when chrono cannot represent that instant.
pub uninterp spec fn day_minute_text(secs: i64) -> Option<Seq<char>>;

/// Instants within about 250,000 years of the Unix epoch, which chrono
/// represents (its dates span the years -262143 to 262142).
pub open spec fn renderable_time(secs: i64) -> bool {
    -8_000_000_000_000 <= secs <= 8_000_000_000_000
}

/// Renders a UTC timestamp as `dd/mm/YYYY, HH:MM`.
///
/// Calls chrono's `DateTime::<Utc>::from_timestamp(secs, 0)` and, when it
/// gives an instant, renders it with `format("%d/%m/%Y, %H:%M")`. The
/// contract names the result, a function of `secs` alone, and states that
/// an instant of `renderable_time` is rendered (`from_timestamp` refuses
/// only days outside the range of chrono's dates).
#[verifier::external_body]
pub(crate) fn format_day_minute(secs: i64) -> (r: Option<String>)
    ensures
        r matches Some(t) ==> day_minute_text(secs) == Some(t@),
        r is None ==> day_minute_text(secs) is None,
        renderable_time(secs) ==> r is Some,
{
    match chrono::DateTime::from_timestamp(secs, 0) {
        Some(t) => Some(t.format("%d/%m/%Y, %H:%M").to_string()),
        None => None,
    }
}

} // verus!
