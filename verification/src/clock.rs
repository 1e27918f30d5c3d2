//! The time of day as the frontends write it.

use crate::text::cat4;
use vstd::prelude::*;
use vstd::string::*;

verus! {

/// A decimal digit.
pub open spec fn is_digit(c: char) -> bool {
    '0' <= c <= '9'
}

/// `HH:MM:SS`.
pub open spec fn is_clock(s: Seq<char>) -> bool {
    &&& s.len() == 8
    &&& is_digit(s[0]) && is_digit(s[1]) && s[2] == ':'
    &&& is_digit(s[3]) && is_digit(s[4]) && s[5] == ':'
    &&& is_digit(s[6]) && is_digit(s[7])
}

/// `HH:MM:SS.mmm`.
pub open spec fn is_clock_ms(s: Seq<char>) -> bool {
    &&& s.len() == 12
    &&& is_clock(s.take(8))
    &&& s[8] == '.' && is_digit(s[9]) && is_digit(s[10]) && is_digit(s[11])
}

/// A date, a space and `HH:MM:SS`.
pub open spec fn is_date_time(s: Seq<char>) -> bool {
    &&& s.len() >= 19
    &&& s[s.len() - 9] == ' '
    &&& is_clock(s.skip(s.len() - 8))
}

/// `chrono::DateTime::format` on `chrono::Local::now()`, for the three formats that this
/// library uses: two digits for each of hour, minute and second, three for the
/// milliseconds, at least ten characters for the date. Which time it is, is left open. The
/// system clock is taken not to stand before 1970, where `now` gives up.
#[verifier::external_body]
fn local_time(format: &str) -> (r: String)
    requires
        format@ == "%H:%M:%S"@ || format@ == "%H:%M:%S%.3f"@ || format@ == "%Y-%m-%d %H:%M:%S"@,
    ensures
        format@ == "%H:%M:%S"@ ==> is_clock(r@),
        format@ == "%H:%M:%S%.3f"@ ==> is_clock_ms(r@),
        format@ == "%Y-%m-%d %H:%M:%S"@ ==> is_date_time(r@),
{
    chrono::Local::now().format(format).to_string()
}

/// The time of day, to the second.
pub fn now_seconds() -> (r: String)
    ensures
        is_clock(r@),
{
    local_time("%H:%M:%S")
}

/// The time of day, to the millisecond.
pub fn now() -> (r: String)
    ensures
        is_clock_ms(r@),
{
    local_time("%H:%M:%S%.3f")
}

/// The date and the time of day.
pub fn now_date() -> (r: String)
    ensures
        is_date_time(r@),
{
    local_time("%Y-%m-%d %H:%M:%S")
}

/// A line of the service at a time of day.
pub open spec fn stamped(clock: Seq<char>, msg: Seq<char>) -> Seq<char> {
    "[tower] "@ + clock + " "@ + msg
}

/// A line of the service at the time of day `clock`.
pub fn line_at(clock: &str, msg: &str) -> (r: String)
    ensures
        r@ == stamped(clock@, msg@),
{
    cat4("[tower] ", clock, " ", msg)
}

/// A line of the service, now.
pub fn line_now(msg: &str) -> (r: String)
    ensures
        exists|clock: Seq<char>| #[trigger] is_clock(clock) && r@ == stamped(clock, msg@),
{
    let clock = now_seconds();
    line_at(clock.as_str(), msg)
}

} // verus!
