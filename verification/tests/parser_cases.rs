use taskflow_core::calendar::{Date, Time, Weekday};
use taskflow_core::parser::{parse_mm_dd, parse_task_input, parse_time_token};
use taskflow_core::text::chars_of;

fn date(y: i32, m: u32, d: u32) -> Date {
    Date::from_ymd_opt(y, m, d).unwrap()
}

fn time(h: u32, m: u32, s: u32) -> Time {
    Time::from_hms_opt(h, m, s).unwrap()
}

// 2026-05-13 is a Wednesday.
fn today() -> Date {
    date(2026, 5, 13)
}

#[test]
fn twelve_am_and_twelve_pm() {
    let (title, due, at) = parse_task_input("Pay rent by 12am", today());
    assert_eq!(title, "Pay rent");
    assert_eq!(due, None);
    assert_eq!(at, Some(time(0, 0, 0)));

    let (title, due, at) = parse_task_input("Lunch 12pm", today());
    assert_eq!(title, "Lunch");
    assert_eq!(due, None);
    assert_eq!(at, Some(time(12, 0, 0)));
}

#[test]
fn a_weekday_is_strictly_after_today() {
    assert_eq!(today().weekday(), Weekday::Wed);
    let (title, due, at) = parse_task_input("Gym wed", today());
    assert_eq!(title, "Gym");
    assert_eq!(due, Some(date(2026, 5, 20)));
    assert_eq!(at, None);

    let (title, due, _) = parse_task_input("Email by friday,", today());
    assert_eq!(title, "Email");
    assert_eq!(due, Some(date(2026, 5, 15)));
}

#[test]
fn minutes_with_a_suffix_and_today() {
    let (title, due, at) = parse_task_input("Call mom today 7:30pm", today());
    assert_eq!(title, "Call mom");
    assert_eq!(due, Some(today()));
    assert_eq!(at, Some(time(19, 30, 0)));
}

#[test]
fn words_that_are_no_date_or_time_stay_in_the_title() {
    let (title, due, at) = parse_task_input("Read on 2026/02/30", today());
    assert_eq!(title, "Read on 2026/02/30");
    assert_eq!(due, None);
    assert_eq!(at, None);

    let (title, due, at) = parse_task_input("Fix bug 25:00", today());
    assert_eq!(title, "Fix bug 25:00");
    assert_eq!(due, None);
    assert_eq!(at, None);
}

#[test]
fn only_the_first_date_and_time_are_taken() {
    let (title, due, at) = parse_task_input("Plan tomorrow today 9am 10am", today());
    assert_eq!(title, "Plan today 10am");
    assert_eq!(due, Some(date(2026, 5, 14)));
    assert_eq!(at, Some(time(9, 0, 0)));
}

#[test]
fn slashed_dates_and_month_day() {
    let (title, due, _) = parse_task_input("Trip 2027/01/02", today());
    assert_eq!(title, "Trip");
    assert_eq!(due, Some(date(2027, 1, 2)));

    let (title, due, _) = parse_task_input("Card due 6/1", today());
    assert_eq!(title, "Card");
    assert_eq!(due, Some(date(2026, 6, 1)));
}

#[test]
fn next_before_a_weekday_is_part_of_the_date() {
    let (title, due, at) = parse_task_input("Call mom next Friday", today());
    assert_eq!(title, "Call mom");
    assert_eq!(due, Some(date(2026, 5, 15)));
    assert_eq!(at, None);

    let (title, due, _) = parse_task_input("Finish by next mon at 9am", today());
    assert_eq!(title, "Finish");
    assert_eq!(due, Some(date(2026, 5, 18)));

    let (title, due, _) = parse_task_input("Plan next steps", today());
    assert_eq!(title, "Plan next steps");
    assert_eq!(due, None);

    let (title, due, _) = parse_task_input("Call tomorrow next Friday", today());
    assert_eq!(title, "Call next Friday");
    assert_eq!(due, Some(date(2026, 5, 14)));
}

#[test]
fn numbers_read_as_str_parse_reads_them() {
    assert_eq!(parse_mm_dd(&chars_of("+1-+2"), 2024), Some(date(2024, 1, 2)));
    assert_eq!(parse_mm_dd(&chars_of("007/009"), 2024), Some(date(2024, 7, 9)));
    assert_eq!(parse_mm_dd(&chars_of("4294967296-1"), 2024), None);
    assert_eq!(parse_mm_dd(&chars_of("1-"), 2024), None);
    assert_eq!(parse_mm_dd(&chars_of("+-1"), 2024), None);
    assert_eq!(parse_mm_dd(&chars_of("1-2a"), 2024), None);
    assert_eq!(parse_time_token(&chars_of("+7pm")), Some(time(19, 0, 0)));
    assert_eq!(parse_time_token(&chars_of("12am")), Some(time(0, 0, 0)));
    assert_eq!(parse_time_token(&chars_of("13pm")), None);
}
