//! Local-time facts with DST-aware day-boundary math.
use vstd::prelude::*;
use crate::binary64;
use crate::binary64::{percent_of, Binary64};
use crate::model::{Diagnostic, LocalTime};

verus! {

pub struct TimeFacts {
    pub time: LocalTime,
    pub diagnostics: Vec<Diagnostic>,
}

/// The clock and the calendar as they were read; instants are in seconds.
#[derive(Clone, Debug)]
pub struct TimeInput {
    pub local: Option<String>,
    pub date: Option<String>,
    pub timezone_name: Option<String>,
    pub timezone_offset_seconds: Option<i32>,
    pub instant_seconds: Option<i64>,
    pub day_start_seconds: Option<i64>,
    pub next_day_start_seconds: Option<i64>,
}

/// How much of the day is over, in percent: of the day as it is, whatever its length.
/// Outside of the day, or of a day without a length, there is none, nor where 64 bits do
/// not hold the differences.
pub open spec fn progress(now: i64, day_start: i64, next_day_start: i64) -> Option<Binary64> {
    let day = next_day_start - day_start;
    let elapsed = now - day_start;
    if 0 < day <= i64::MAX && 0 <= elapsed <= day {
        Some(binary64::percentage(elapsed as nat, day as nat))
    } else {
        None
    }
}

pub fn day_progress_percent(now: i64, day_start: i64, next_day_start: i64) -> (percent: Option<
    Binary64,
>)
    ensures
        percent == progress(now, day_start, next_day_start),
{
    let day: i64 = match next_day_start.checked_sub(day_start) {
        Some(day) => day,
        None => {
            return None;
        },
    };
    let elapsed: i64 = match now.checked_sub(day_start) {
        Some(elapsed) => elapsed,
        None => {
            return None;
        },
    };
    if day > 0 && 0 <= elapsed && elapsed <= day {
        percent_of(elapsed as u64, day as u64)
    } else {
        None
    }
}

/// The facts of what was read. No reading of the clock is a problem.
pub fn from_input(input: TimeInput) -> (facts: TimeFacts)
    ensures
        facts.time.local == input.local,
        facts.time.date == input.date,
        facts.time.timezone_name == input.timezone_name,
        facts.time.timezone_offset_seconds == input.timezone_offset_seconds,
        facts.time.day_progress_percent == match (
            input.instant_seconds,
            input.day_start_seconds,
            input.next_day_start_seconds,
        ) {
            (Some(now), Some(start), Some(end)) => progress(now, start, end),
            _ => None,
        },
        facts.diagnostics@.len() == 0,
{
    let day_progress_percent = match (
        input.instant_seconds,
        input.day_start_seconds,
        input.next_day_start_seconds,
    ) {
        (Some(now), Some(start), Some(end)) => day_progress_percent(now, start, end),
        _ => None,
    };
    TimeFacts {
        time: LocalTime {
            local: input.local,
            date: input.date,
            timezone_name: input.timezone_name,
            timezone_offset_seconds: input.timezone_offset_seconds,
            day_progress_percent,
        },
        diagnostics: Vec::new(),
    }
}

/// How much of the day is over is a number from 0 to 100, on a day of any length.
pub proof fn law_day_progress_is_a_percentage(now: i64, day_start: i64, next_day_start: i64)
    ensures
        progress(now, day_start, next_day_start) is Some ==> {
            let percent = progress(now, day_start, next_day_start)->0;
            percent.finite() && percent.within(100)
        },
{
    let day = next_day_start - day_start;
    let elapsed = now - day_start;
    if 0 < day <= i64::MAX && 0 <= elapsed <= day {
        binary64::law_percentages_keep_to_the_whole(elapsed as nat, day as nat);
    }
}

} // verus!
