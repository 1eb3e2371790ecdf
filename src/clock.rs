use vstd::prelude::*;

verus! {

/// Milliseconds in one day.
pub const MILLIS_PER_DAY: i64 = 86_400_000;

/// Relies on chrono's `Utc::now` and `DateTime::timestamp_millis`: the current
/// time in milliseconds since the Unix epoch. chrono reads the system clock
/// as a duration since the epoch, so the value is never negative; on a
/// machine whose clock is set before 1970 chrono panics instead of
/// returning.
#[verifier::external_body]
pub(crate) fn now_millis() -> (r: i64)
    ensures
        r >= 0,
{
    chrono::Utc::now().timestamp_millis()
}

/// The instant an RFC 3339 text denotes, in milliseconds since the Unix
/// epoch, or `None` where the text is not RFC 3339.
pub uninterp spec fn rfc3339_millis(s: Seq<char>) -> Option<i64>;

/// Relies on chrono's `DateTime::parse_from_rfc3339` and
/// `DateTime::timestamp_millis`: the result depends on the text alone.
#[verifier::external_body]
fn parse_rfc3339(s: &str) -> (r: Option<i64>)
    ensures
        r == rfc3339_millis(s@),
{
    match chrono::DateTime::parse_from_rfc3339(s) {
        Ok(d) => Some(d.timestamp_millis()),
        Err(_) => None,
    }
}

/// The instant of a message's received timestamp, in milliseconds since the
/// Unix epoch; `None` where the text is not an RFC 3339 timestamp.
pub fn received_millis(received: &str) -> (r: Option<i64>)
    ensures
        r == rfc3339_millis(received@),
{
    parse_rfc3339(received)
}

/// The earliest instant inside a window of `days` days that ends at `now`:
/// `now - days` days, or `i64::MIN` where that lies before the smallest
/// representable instant.
pub open spec fn window_start_spec(now: i64, days: u32) -> i64 {
    let start = now - days * MILLIS_PER_DAY;
    if start < i64::MIN { i64::MIN } else { start as i64 }
}

/// The lower bound of the receipt-time window: `now_ms` minus `days` days,
/// saturating at the smallest instant.
pub fn window_start(now_ms: i64, days: u32) -> (r: i64)
    ensures
        r == window_start_spec(now_ms, days),
{
    let span: i64 = days as i64 * MILLIS_PER_DAY;
    if now_ms < i64::MIN + span {
        i64::MIN
    } else {
        now_ms - span
    }
}

/// A message received at `received_ms` falls in the window that starts at
/// `start_ms`: the bound itself is inside.
pub open spec fn in_window_spec(received_ms: i64, start_ms: i64) -> bool {
    received_ms >= start_ms
}

pub fn in_window(received_ms: i64, start_ms: i64) -> (r: bool)
    ensures
        r == in_window_spec(received_ms, start_ms),
{
    received_ms >= start_ms
}

} // verus!
