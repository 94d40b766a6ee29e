use entry::errors::TimeError;
use entry::clock::{
    bucket_minute, parse_clock, to_clock_time, ClockReading, EntryTime, Meridiem, TimeOfDay,
};
use entry::utils::get_datetime;
use regex::Regex;

fn clock(hour: u32, minute: u32) -> TimeOfDay {
    TimeOfDay { hour, minute, second: 42, nanosecond: 123_456_789 }
}

fn at(tomorrow: bool, hour: u32, minute: u32) -> EntryTime {
    EntryTime { tomorrow, time: TimeOfDay { hour, minute, second: 0, nanosecond: 0 } }
}

#[test]
fn the_minute_is_floored_to_a_multiple_of_the_bucket_size() {
    for bucket in 1..=60u32 {
        for minute in 0..=59u32 {
            let expected = (minute / bucket) * bucket;
            assert_eq!(bucket_minute(minute, bucket), expected);
            let written = format!("10:{:02}", minute);
            let resolved = get_datetime(&written, bucket, clock(0, 0)).unwrap();
            assert_eq!(resolved.time.minute, expected);
            let now = get_datetime("now", bucket, clock(7, minute)).unwrap();
            assert_eq!(now.time.minute, expected);
            let tomorrow = get_datetime("tomorrow", bucket, clock(7, minute)).unwrap();
            assert_eq!(tomorrow.time.minute, expected);
        }
    }
}

#[test]
fn a_bucket_of_fifteen_rounds_seven_down_to_zero() {
    assert_eq!(bucket_minute(7, 15), 0);
    assert_eq!(bucket_minute(15, 15), 15);
    assert_eq!(bucket_minute(59, 15), 45);
    assert_eq!(bucket_minute(59, 60), 0);
    assert_eq!(bucket_minute(59, 1), 59);
    assert_eq!(get_datetime("9:07", 15, clock(8, 0)), Ok(at(false, 9, 0)));
    assert_eq!(get_datetime("9:52", 15, clock(8, 0)), Ok(at(false, 9, 45)));
}

#[test]
fn twenty_four_hundred_fails_with_the_hour_message() {
    let error = get_datetime("24:00", 15, clock(8, 0)).unwrap_err();
    assert_eq!(error, TimeError::Hour);
    assert_eq!(error.message(), "invalid hour input");
}

#[test]
fn thirteen_am_fails_with_the_meridiem_message() {
    let error = get_datetime("13:00am", 15, clock(8, 0)).unwrap_err();
    assert_eq!(error, TimeError::MeridiemHour);
    assert_eq!(error.message(), "invalid hour input for meridiem time");
}

#[test]
fn sixty_minutes_fail_with_the_minute_message() {
    let error = get_datetime("12:60", 15, clock(8, 0)).unwrap_err();
    assert_eq!(error, TimeError::Minute);
    assert_eq!(error.message(), "invalid minute input");
    assert_eq!(get_datetime("11:75pm", 15, clock(8, 0)), Err(TimeError::Minute));
}

#[test]
fn a_text_without_a_clock_time_is_not_recognized() {
    for input in ["", "soon", "pm", ":", "noon", "Now", "today"] {
        let error = get_datetime(input, 15, clock(8, 0)).unwrap_err();
        assert_eq!(error, TimeError::UnrecognizedInput);
        assert_eq!(error.message(), "unrecognized time input");
    }
}

#[test]
fn the_hour_is_checked_before_the_minute() {
    assert_eq!(get_datetime("24:99", 15, clock(8, 0)), Err(TimeError::Hour));
    assert_eq!(
        get_datetime("13:99pm", 15, clock(8, 0)),
        Err(TimeError::MeridiemHour)
    );
}

#[test]
fn a_meridiem_hour_is_one_of_one_to_twelve() {
    assert_eq!(
        get_datetime("0:30am", 15, clock(0, 0)),
        Err(TimeError::MeridiemHour)
    );
    assert_eq!(
        get_datetime("00pm", 15, clock(0, 0)),
        Err(TimeError::MeridiemHour)
    );
    assert_eq!(get_datetime("12am", 15, clock(0, 0)), Ok(at(false, 0, 0)));
    assert_eq!(get_datetime("12pm", 15, clock(0, 0)), Ok(at(false, 12, 0)));
    assert_eq!(get_datetime("1am", 15, clock(0, 0)), Ok(at(false, 1, 0)));
    assert_eq!(get_datetime("1pm", 15, clock(0, 0)), Ok(at(false, 13, 0)));
    assert_eq!(get_datetime("11:59pm", 1, clock(0, 0)), Ok(at(false, 23, 59)));
    assert_eq!(get_datetime("12:30am", 1, clock(0, 0)), Ok(at(false, 0, 30)));
}

#[test]
fn a_twenty_four_hour_time_is_one_of_zero_to_twenty_three() {
    assert_eq!(get_datetime("0:00", 15, clock(0, 0)), Ok(at(false, 0, 0)));
    assert_eq!(get_datetime("23:59", 1, clock(0, 0)), Ok(at(false, 23, 59)));
    assert_eq!(get_datetime("13:00", 15, clock(0, 0)), Ok(at(false, 13, 0)));
    assert_eq!(get_datetime("1230", 15, clock(0, 0)), Err(TimeError::Hour));
    assert_eq!(
        get_datetime("99999999999999999999", 15, clock(0, 0)),
        Err(TimeError::Hour)
    );
    assert_eq!(
        get_datetime("10:99999999999999999999", 15, clock(0, 0)),
        Err(TimeError::Minute)
    );
}

#[test]
fn minutes_default_to_zero() {
    assert_eq!(get_datetime("5", 15, clock(0, 0)), Ok(at(false, 5, 0)));
    assert_eq!(get_datetime("5pm", 15, clock(0, 0)), Ok(at(false, 17, 0)));
    assert_eq!(get_datetime("17", 15, clock(0, 0)), Ok(at(false, 17, 0)));
    assert_eq!(get_datetime("5:", 15, clock(0, 0)), Ok(at(false, 5, 0)));
}

#[test]
fn a_time_that_has_passed_rolls_to_tomorrow() {
    let now = clock(10, 30);
    assert_eq!(get_datetime("9:00", 1, now), Ok(at(true, 9, 0)));
    assert_eq!(get_datetime("10:29", 1, now), Ok(at(true, 10, 29)));
    assert_eq!(get_datetime("10:30", 1, now), Ok(at(false, 10, 30)));
    assert_eq!(get_datetime("10:31", 1, now), Ok(at(false, 10, 31)));
    assert_eq!(get_datetime("11:00", 1, now), Ok(at(false, 11, 0)));
    assert_eq!(get_datetime("9pm", 1, now), Ok(at(false, 21, 0)));
    assert_eq!(get_datetime("9am", 1, now), Ok(at(true, 9, 0)));
}

#[test]
fn the_time_is_compared_before_it_is_floored() {
    // 10:40 has not passed at 10:35, though its bucket started at 10:30
    assert_eq!(get_datetime("10:40", 15, clock(10, 35)), Ok(at(false, 10, 30)));
    assert_eq!(get_datetime("10:34", 15, clock(10, 35)), Ok(at(true, 10, 30)));
}

#[test]
fn now_and_tomorrow_keep_the_clock_and_floor_the_minute() {
    let now = clock(10, 37);
    assert_eq!(
        get_datetime("now", 15, now),
        Ok(EntryTime {
            tomorrow: false,
            time: TimeOfDay { hour: 10, minute: 30, second: 42, nanosecond: 123_456_789 }
        })
    );
    assert_eq!(
        get_datetime("tomorrow", 15, now),
        Ok(EntryTime {
            tomorrow: true,
            time: TimeOfDay { hour: 10, minute: 30, second: 42, nanosecond: 123_456_789 }
        })
    );
}

#[test]
fn a_clock_time_has_its_seconds_at_zero() {
    let resolved = get_datetime("10:37", 15, clock(1, 1)).unwrap();
    assert_eq!(resolved.time.second, 0);
    assert_eq!(resolved.time.nanosecond, 0);
}

#[test]
fn the_first_clock_time_in_the_text_is_taken() {
    assert_eq!(
        get_datetime("at 5:30pm today", 15, clock(0, 0)),
        Ok(at(false, 17, 30))
    );
    assert_eq!(get_datetime("8:15 or 9:45", 15, clock(0, 0)), Ok(at(false, 8, 15)));
    assert_eq!(get_datetime("12:30:45", 15, clock(0, 0)), Ok(at(false, 12, 30)));
    assert_eq!(get_datetime("5 pm", 15, clock(0, 0)), Ok(at(false, 5, 0)));
    assert_eq!(get_datetime("5PM", 15, clock(0, 0)), Ok(at(false, 5, 0)));
}

#[test]
fn a_reading_holds_what_was_written() {
    assert_eq!(
        parse_clock("12:30pm"),
        Some(ClockReading { hour: 12, minute: Some(30), meridiem: Some(Meridiem::Pm) })
    );
    assert_eq!(
        parse_clock("7am"),
        Some(ClockReading { hour: 7, minute: None, meridiem: Some(Meridiem::Am) })
    );
    assert_eq!(
        parse_clock("x007:08y"),
        Some(ClockReading { hour: 7, minute: Some(8), meridiem: None })
    );
    assert_eq!(
        parse_clock("4294967295"),
        Some(ClockReading { hour: 4294967295, minute: None, meridiem: None })
    );
    assert_eq!(
        parse_clock("4294967296"),
        Some(ClockReading { hour: u32::MAX, minute: None, meridiem: None })
    );
    assert_eq!(parse_clock("a.m."), None);
    assert_eq!(parse_clock("٣"), None);
}

#[test]
fn a_reading_becomes_a_time_on_the_twenty_four_hour_clock() {
    let reading = |hour, minute, meridiem| ClockReading { hour, minute, meridiem };
    assert_eq!(to_clock_time(reading(12, None, Some(Meridiem::Am))), Ok((0, 0)));
    assert_eq!(to_clock_time(reading(12, Some(5), Some(Meridiem::Pm))), Ok((12, 5)));
    assert_eq!(to_clock_time(reading(3, Some(5), Some(Meridiem::Pm))), Ok((15, 5)));
    assert_eq!(to_clock_time(reading(23, Some(59), None)), Ok((23, 59)));
    assert_eq!(to_clock_time(reading(24, None, None)), Err(TimeError::Hour));
    assert_eq!(
        to_clock_time(reading(0, None, Some(Meridiem::Pm))),
        Err(TimeError::MeridiemHour)
    );
    assert_eq!(to_clock_time(reading(1, Some(60), None)), Err(TimeError::Minute));
}

#[test]
fn the_reading_agrees_with_the_pattern() {
    let pattern = Regex::new("([0-9]+)(?::([0-9]+))?(am|pm)?").unwrap();
    let inputs = [
        "12:30pm", "7am", "at 5:30pm today", "5:", "5:pm", "1230", "12:3", "12:30:45", "0:0",
        "x1y2", "09:05am", "9.30", "pm5", "5p", "5a", "5amm", "  23:59  ", "", "none", "1:2:3pm",
        "12am12pm", "3:am", "24:00", "13:00am", "12:60",
    ];
    for input in inputs {
        let expected = pattern.captures(input).map(|found| ClockReading {
            hour: found.get(1).unwrap().as_str().parse().unwrap(),
            minute: found.get(2).map(|minute| minute.as_str().parse().unwrap()),
            meridiem: found.get(3).map(|half| {
                if half.as_str() == "am" {
                    Meridiem::Am
                } else {
                    Meridiem::Pm
                }
            }),
        });
        assert_eq!(parse_clock(input), expected, "reading {:?}", input);
    }
}
