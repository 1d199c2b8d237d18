//! The local time of day that the clock shows, and its text under the
//! strftime patterns that the clock uses, formatted by chrono.
use vstd::prelude::*;

verus! {

/// A local time of day. During a leap second `second` is 59 and
/// `nanosecond` is at least one second's worth.
#[derive(Clone, Copy, Debug, PartialEq, Eq, Structural)]
pub struct ClockTime {
    pub hour: u32,
    pub minute: u32,
    pub second: u32,
    pub nanosecond: u32,
}

impl ClockTime {
    /// The ranges in which chrono accepts a time of day.
    pub open spec fn valid(self) -> bool {
        &&& self.hour < 24
        &&& self.minute < 60
        &&& self.second < 60
        &&& self.nanosecond < 2_000_000_000
        &&& self.nanosecond >= 1_000_000_000 ==> self.second == 59
    }

    /// The time of day with the given parts, when they form one.
    pub fn from_parts(hour: u32, minute: u32, second: u32, nanosecond: u32) -> (r: Option<
        ClockTime,
    >)
        ensures
            match r {
                Some(t) => t.valid() && t == (ClockTime { hour, minute, second, nanosecond }),
                None => !(ClockTime { hour, minute, second, nanosecond }).valid(),
            },
    {
        let t = ClockTime { hour, minute, second, nanosecond };
        if hour < 24 && minute < 60 && second < 60 && nanosecond < 2_000_000_000 && (nanosecond
            < 1_000_000_000 || second == 59) {
            Some(t)
        } else {
            None
        }
    }
}

/// The second as strftime's `%S` shows it: 60 during a leap second.
pub open spec fn shown_second(t: ClockTime) -> int {
    t.second + t.nanosecond / 1_000_000_000
}

/// The hour on a 12-hour clock, 1 to 12.
pub open spec fn hour12(hour: int) -> int {
    if hour % 12 == 0 {
        12
    } else {
        hour % 12
    }
}

/// `n` in two decimal digits, zero-padded.
pub open spec fn two_digits(n: int) -> Seq<char> {
    seq![('0' as int + n / 10) as char, ('0' as int + n % 10) as char]
}

/// The patterns the clock formats with.
pub open spec fn supported_pattern(p: Seq<char>) -> bool {
    ||| p == "%H:%M:%S"@
    ||| p == "%H:%M"@
    ||| p == "%I:%M:%S"@
    ||| p == "%I:%M"@
    ||| p == "%p"@
}

/// The text of `t` under a supported strftime pattern: `%H` is the hour 00-23,
/// `%I` the hour 01-12, `%M` the minute, `%S` the second (00-60), each in two
/// zero-padded digits, and `%p` is `AM` before noon and `PM` from noon on.
pub open spec fn time_text(p: Seq<char>, t: ClockTime) -> Seq<char> {
    if p == "%H:%M:%S"@ {
        two_digits(t.hour as int) + ":"@ + two_digits(t.minute as int) + ":"@ + two_digits(
            shown_second(t),
        )
    } else if p == "%H:%M"@ {
        two_digits(t.hour as int) + ":"@ + two_digits(t.minute as int)
    } else if p == "%I:%M:%S"@ {
        two_digits(hour12(t.hour as int)) + ":"@ + two_digits(t.minute as int) + ":"@
            + two_digits(shown_second(t))
    } else if p == "%I:%M"@ {
        two_digits(hour12(t.hour as int)) + ":"@ + two_digits(t.minute as int)
    } else if t.hour < 12 {
        "AM"@
    } else {
        "PM"@
    }
}

/// Formats a time of day with chrono: builds the `chrono::NaiveTime` with
/// `NaiveTime::from_hms_nano_opt` and renders it with `NaiveTime::format`.
/// The contract claims of chrono what its strftime documentation states for
/// `%H`, `%I`, `%M`, `%S` and `%p` in the default locale; `from_hms_nano_opt`
/// accepts every valid time, so the empty fallback is never taken.
#[verifier::external_body]
pub(crate) fn format_time(t: &ClockTime, pattern: &str) -> (r: String)
    requires
        t.valid(),
        supported_pattern(pattern@),
    ensures
        r@ == time_text(pattern@, *t),
{
    match chrono::NaiveTime::from_hms_nano_opt(t.hour, t.minute, t.second, t.nanosecond) {
        Some(time) => time.format(pattern).to_string(),
        None => String::new(),
    }
}

} // verus!
