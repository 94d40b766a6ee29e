//! The time of a new entry: a clock time read out of free text, today or
//! tomorrow, with the minute floored to a bucket.

use crate::errors::TimeError;
use crate::numbers::{digit, digit_run, is_digit, number, read_digits};
use crate::text::chars_of;
use vstd::prelude::*;

verus! {

/// The largest bucket a minute can be floored to.
pub const MAX_BUCKET: u32 = 60;

/// Which half of the day a 12-hour time lies in.
#[derive(Clone, Copy, Debug, PartialEq, Eq, Structural)]
pub enum Meridiem {
    Am,
    Pm,
}

/// A clock time as it was written: the hour, the minute where one was given,
/// and the `am` or `pm` that follows. Numbers too large for `u32` are held as
/// `u32::MAX`.
#[derive(Clone, Copy, Debug, PartialEq, Eq, Structural)]
pub struct ClockReading {
    pub hour: u32,
    pub minute: Option<u32>,
    pub meridiem: Option<Meridiem>,
}

/// What a wall clock shows.
#[derive(Clone, Copy, Debug, PartialEq, Eq, Structural)]
pub struct TimeOfDay {
    pub hour: u32,
    pub minute: u32,
    pub second: u32,
    pub nanosecond: u32,
}

/// The time an entry is filed under: a time of day, today or tomorrow.
#[derive(Clone, Copy, Debug, PartialEq, Eq, Structural)]
pub struct EntryTime {
    pub tomorrow: bool,
    pub time: TimeOfDay,
}

/// The index of the first digit of `s`, or the length of `s` where it has none.
pub open spec fn first_digit(s: Seq<char>) -> int
    decreases s.len(),
{
    if s.len() == 0 || is_digit(s[0]) {
        0
    } else {
        1 + first_digit(s.drop_first())
    }
}

/// The `am` or `pm` that stands in `s` at `at`.
pub open spec fn meridiem_at(s: Seq<char>, at: int) -> Option<Meridiem> {
    if 0 <= at && at + 1 < s.len() && s[at + 1] == 'm' {
        if s[at] == 'a' {
            Some(Meridiem::Am)
        } else if s[at] == 'p' {
            Some(Meridiem::Pm)
        } else {
            None
        }
    } else {
        None
    }
}

/// The first clock time that is written in `s`: digits, then possibly a colon
/// and more digits, then possibly `am` or `pm`. Each part is taken as long as
/// it goes. `None` where `s` holds no digit.
pub open spec fn clock_reading(s: Seq<char>) -> Option<ClockReading> {
    let start = first_digit(s);
    if start >= s.len() {
        None
    } else {
        let hour_end = digit_run(s, start);
        let with_minute = hour_end + 1 < s.len() && s[hour_end] == ':' && is_digit(
            s[hour_end + 1],
        );
        let minute_end = if with_minute {
            digit_run(s, hour_end + 1)
        } else {
            hour_end
        };
        Some(
            ClockReading {
                hour: number(s.subrange(start, hour_end)),
                minute: if with_minute {
                    Some(number(s.subrange(hour_end + 1, minute_end)))
                } else {
                    None
                },
                meridiem: meridiem_at(s, minute_end),
            },
        )
    }
}

/// The hour, on the 24-hour clock, and the minute that a reading stands for.
/// Without `am` or `pm` the hour is one of 0 to 23; with it, one of 1 to 12,
/// where 12am is hour 0 and 12pm is hour 12. A missing minute is 0.
pub open spec fn clock_time(reading: ClockReading) -> Result<(u32, u32), TimeError> {
    let minute = match reading.minute {
        Some(m) => m,
        None => 0u32,
    };
    match reading.meridiem {
        Some(half) => {
            if reading.hour < 1 || reading.hour > 12 {
                Err(TimeError::MeridiemHour)
            } else if minute > 59 {
                Err(TimeError::Minute)
            } else {
                Ok(
                    (
                        match half {
                            Meridiem::Am => (reading.hour % 12) as u32,
                            Meridiem::Pm => (reading.hour % 12 + 12) as u32,
                        },
                        minute,
                    ),
                )
            }
        },
        None => {
            if reading.hour > 23 {
                Err(TimeError::Hour)
            } else if minute > 59 {
                Err(TimeError::Minute)
            } else {
                Ok((reading.hour, minute))
            }
        },
    }
}

/// `minute` floored to a multiple of `bucket`.
pub open spec fn floored(minute: u32, bucket: u32) -> int {
    (minute as int / bucket as int) * bucket as int
}

/// Whether the hour and minute lie before the time `now`.
pub open spec fn earlier(hour: u32, minute: u32, now: TimeOfDay) -> bool {
    hour < now.hour || (hour == now.hour && minute < now.minute)
}

/// The time that the text `time` asks for when the clock shows `now`.
///
/// `now` is the present moment and `tomorrow` the same time a day later, both
/// with the minute floored. Any other text is read as a clock time: it names
/// today, or tomorrow where that time of day has passed, with the minute
/// floored and seconds at zero.
pub open spec fn resolved(time: Seq<char>, bucket: u32, now: TimeOfDay) -> Result<
    EntryTime,
    TimeError,
> {
    if time == "now"@ || time == "tomorrow"@ {
        Ok(
            EntryTime {
                tomorrow: time == "tomorrow"@,
                time: TimeOfDay {
                    hour: now.hour,
                    minute: floored(now.minute, bucket) as u32,
                    second: now.second,
                    nanosecond: now.nanosecond,
                },
            },
        )
    } else {
        match clock_reading(time) {
            None => Err(TimeError::UnrecognizedInput),
            Some(reading) => match clock_time(reading) {
                Err(e) => Err(e),
                Ok((hour, minute)) => Ok(
                    EntryTime {
                        tomorrow: earlier(hour, minute, now),
                        time: TimeOfDay {
                            hour,
                            minute: floored(minute, bucket) as u32,
                            second: 0,
                            nanosecond: 0,
                        },
                    },
                ),
            },
        }
    }
}

/// The minute that the text `time` asks for, before it is floored: that of
/// the clock for `now` and `tomorrow`, and else the one that was written, or
/// 0 where none was.
pub open spec fn asked_minute(time: Seq<char>, now: TimeOfDay) -> Option<u32> {
    if time == "now"@ || time == "tomorrow"@ {
        Some(now.minute)
    } else {
        match clock_reading(time) {
            Some(reading) => match clock_time(reading) {
                Ok((_, minute)) => Some(minute),
                Err(_) => None,
            },
            None => None,
        }
    }
}

/// For every bucket size from 1 to 60 and every minute from 0 to 59, the
/// minute that a time is resolved to is `(minute / bucket) * bucket`: a
/// multiple of the bucket size that is at most the minute and less than one
/// bucket below it.
pub proof fn lemma_resolved_minute(time: Seq<char>, bucket: u32, now: TimeOfDay)
    requires
        1 <= bucket <= MAX_BUCKET,
        now.minute <= 59,
    ensures
        resolved(time, bucket, now) matches Ok(at) ==> {
            &&& asked_minute(time, now) matches Some(minute)
            &&& minute <= 59
            &&& at.time.minute == (minute / bucket) * bucket
            &&& at.time.minute % bucket == 0
            &&& minute - bucket < at.time.minute <= minute
        },
{
    if let Some(minute) = asked_minute(time, now) {
        lemma_floored(minute, bucket);
    }
}

/// Flooring a minute gives a multiple of the bucket size that is at most the
/// minute and less than one bucket below it.
pub proof fn lemma_floored(minute: u32, bucket: u32)
    requires
        1 <= bucket,
    ensures
        floored(minute, bucket) == (minute / bucket) * bucket,
        floored(minute, bucket) % (bucket as int) == 0,
        minute - bucket < floored(minute, bucket) <= minute,
{
    let buckets = minute as int / bucket as int;
    assert(buckets * bucket <= minute && minute - buckets * bucket < bucket && (buckets * bucket)
        % (bucket as int) == 0) by (nonlinear_arith)
        requires
            buckets == minute as int / bucket as int,
            bucket >= 1,
            minute >= 0,
    ;
}

/// Reads the first clock time out of `time`.
pub fn parse_clock(time: &str) -> (reading: Option<ClockReading>)
    ensures
        reading == clock_reading(time@),
{
    let chars = chars_of(time);
    let n: usize = chars.len();
    let mut start: usize = 0;
    assert(chars@.skip(0) == chars@);
    while start < n && !digit(chars[start])
        invariant
            start <= n,
            n == chars@.len(),
            first_digit(chars@) == start + first_digit(chars@.skip(start as int)),
        decreases n - start,
    {
        assert(chars@.skip(start as int).drop_first() == chars@.skip(start + 1));
        start += 1;
    }
    if start == n {
        return None;
    }
    let (hour_end, hour) = read_digits(&chars, start);
    let mut minute: Option<u32> = None;
    let mut minute_end: usize = hour_end;
    if n - hour_end >= 2 && chars[hour_end] == ':' && digit(chars[hour_end + 1]) {
        let (end, value) = read_digits(&chars, hour_end + 1);
        minute = Some(value);
        minute_end = end;
    }
    let mut meridiem: Option<Meridiem> = None;
    if n - minute_end >= 2 && chars[minute_end + 1] == 'm' {
        if chars[minute_end] == 'a' {
            meridiem = Some(Meridiem::Am);
        } else if chars[minute_end] == 'p' {
            meridiem = Some(Meridiem::Pm);
        }
    }
    Some(ClockReading { hour, minute, meridiem })
}

/// Turns a reading into an hour on the 24-hour clock and a minute, or says
/// which of the two is out of range.
pub fn to_clock_time(reading: ClockReading) -> (r: Result<(u32, u32), TimeError>)
    ensures
        r == clock_time(reading),
        r matches Ok((hour, minute)) ==> hour <= 23 && minute <= 59,
{
    let minute: u32 = match reading.minute {
        Some(m) => m,
        None => 0,
    };
    match reading.meridiem {
        Some(half) => {
            if reading.hour < 1 || reading.hour > 12 {
                Err(TimeError::MeridiemHour)
            } else if minute > 59 {
                Err(TimeError::Minute)
            } else {
                match half {
                    Meridiem::Am => Ok((reading.hour % 12, minute)),
                    Meridiem::Pm => Ok((reading.hour % 12 + 12, minute)),
                }
            }
        },
        None => {
            if reading.hour > 23 {
                Err(TimeError::Hour)
            } else if minute > 59 {
                Err(TimeError::Minute)
            } else {
                Ok((reading.hour, minute))
            }
        },
    }
}

/// Floors `minute` to a multiple of `minute_bucket_size`.
pub fn bucket_minute(minute: u32, minute_bucket_size: u32) -> (floor: u32)
    requires
        1 <= minute_bucket_size,
    ensures
        floor == (minute / minute_bucket_size) * minute_bucket_size,
        floor == floored(minute, minute_bucket_size),
        floor <= minute,
        minute - floor < minute_bucket_size,
        floor % minute_bucket_size == 0,
{
    let buckets: u32 = minute / minute_bucket_size;
    assert(buckets * minute_bucket_size <= minute && minute - buckets * minute_bucket_size
        < minute_bucket_size && (buckets * minute_bucket_size) % (minute_bucket_size as int) == 0)
        by (nonlinear_arith)
        requires
            buckets == minute / minute_bucket_size,
            minute_bucket_size >= 1,
    ;
    buckets * minute_bucket_size
}

} // verus!
