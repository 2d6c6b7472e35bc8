use taskflow_core::calendar::{Date, Time, Weekday};
use taskflow_core::models::{RecurrenceRule, SyncState, Task, Timestamp};
use taskflow_core::notes::{clean_reminder_from_notes, extract_reminder_from_notes, notes_for_push};
use taskflow_core::recurrence::{compute_next_due_date, handle_recurring_task_completion, next_occurrence};
use taskflow_core::text::{chars_of, split_lines};

fn date(y: i32, m: u32, d: u32) -> Date {
    Date::from_ymd_opt(y, m, d).unwrap()
}

fn time(h: u32, m: u32, s: u32) -> Time {
    Time::from_hms_opt(h, m, s).unwrap()
}

fn ts(secs: i64) -> Timestamp {
    Timestamp::from_timestamp(secs, 0).unwrap()
}

fn task(id: &str, status: &str) -> Task {
    Task {
        id: id.to_string(),
        google_id: None,
        list_id: "list".to_string(),
        title: "Title".to_string(),
        notes: None,
        status: status.to_string(),
        due_date: None,
        reminder_time: None,
        parent_id: None,
        position: None,
        completed_at: None,
        updated_at: ts(1_700_000_000),
        google_updated_at: None,
        sync_state: SyncState::Synced,
        is_deleted: false,
        recurrence_rule: None,
        starred: false,
    }
}

#[test]
fn dates_reject_days_that_do_not_exist() {
    assert!(Date::from_ymd_opt(2026, 2, 29).is_none());
    assert!(Date::from_ymd_opt(2024, 2, 29).is_some());
    assert!(Date::from_ymd_opt(2026, 13, 1).is_none());
    assert!(Date::from_ymd_opt(2026, 4, 31).is_none());
    assert!(Time::from_hms_opt(24, 0, 0).is_none());
    assert!(Time::from_hms_opt(23, 59, 59).is_some());
}

#[test]
fn weekday_and_day_steps() {
    assert_eq!(date(2026, 6, 24).weekday(), Weekday::Wed);
    assert_eq!(date(2026, 12, 31).checked_add_days(1), Some(date(2027, 1, 1)));
    assert_eq!(date(2024, 2, 28).checked_add_days(1), Some(date(2024, 2, 29)));
    assert_eq!(date(2026, 6, 24).format("%Y-%m-%d"), "2026-06-24");
    assert_eq!(time(9, 5, 7).format_hms(), "09:05:07");
    assert_eq!(time(17, 30, 0).format("%I:%M %p"), "05:30 PM");
}

#[test]
fn sync_state_text_round_trip_and_error() {
    for s in [SyncState::Pending, SyncState::Synced, SyncState::Conflict, SyncState::DeletedPending] {
        assert_eq!(SyncState::from_str(&s.to_string()), Ok(s));
    }
    assert_eq!(SyncState::Pending.to_string(), "pending");
    assert_eq!(SyncState::DeletedPending.to_string(), "deleted_pending");
    assert_eq!(SyncState::from_str("bogus"), Err("Unknown sync state: bogus".to_string()));
}

#[test]
fn recurrence_rule_text() {
    assert_eq!(RecurrenceRule::Daily.to_string(), "Daily");
    assert_eq!(RecurrenceRule::Weekly(Weekday::Mon).to_string(), "Weekly on Mon");
    assert_eq!(RecurrenceRule::Monthly(15).to_string(), "Monthly on day 15");
    assert_eq!(RecurrenceRule::Custom("FREQ=DAILY".to_string()).to_string(), "Custom: FREQ=DAILY");
}

#[test]
fn timestamps_read_and_write_rfc3339() {
    let t = Timestamp::parse_from_rfc3339("2026-06-24T09:00:00Z").unwrap();
    assert_eq!(t.timestamp(), 1_782_291_600);
    assert_eq!(t.to_rfc3339(), "2026-06-24T09:00:00+00:00");
    let back = Timestamp::parse_from_rfc3339(&t.to_rfc3339()).unwrap();
    assert_eq!(back, t);
    let offset = Timestamp::parse_from_rfc3339("2026-06-24T11:00:00+02:00").unwrap();
    assert_eq!(offset, t);
    assert!(Timestamp::parse_from_rfc3339("yesterday").is_none());
    assert_eq!(t.checked_sub_seconds(5).unwrap().timestamp(), 1_782_291_595);
    assert!(Timestamp::from_timestamp(i64::MAX, 0).is_none());
}

#[test]
fn recurrence_next_due_is_later_and_lands_right() {
    // every rule moves forward
    let start = date(2026, 6, 24);
    for rule in [
        RecurrenceRule::Daily,
        RecurrenceRule::Weekly(Weekday::Mon),
        RecurrenceRule::Weekly(Weekday::Wed),
        RecurrenceRule::Monthly(1),
        RecurrenceRule::Monthly(31),
        RecurrenceRule::Custom("x".to_string()),
    ] {
        let next = compute_next_due_date(start, &rule);
        assert!((next.year(), next.month(), next.day()) > (2026, 6, 24));
    }
    // weekly lands on the weekday
    assert_eq!(compute_next_due_date(start, &RecurrenceRule::Weekly(Weekday::Sun)).weekday(), Weekday::Sun);
    // monthly lands in the following month, capped at its last day
    assert_eq!(compute_next_due_date(date(2024, 1, 31), &RecurrenceRule::Monthly(31)), date(2024, 2, 29));
    assert_eq!(compute_next_due_date(date(2026, 12, 15), &RecurrenceRule::Monthly(10)), date(2027, 1, 10));
    // custom rules repeat daily
    assert_eq!(compute_next_due_date(start, &RecurrenceRule::Custom("FREQ=WEEKLY".to_string())), date(2026, 6, 25));
}

#[test]
fn recurrence_spawns_only_for_completed_recurring_tasks() {
    let mut open = task("a", "needsAction");
    open.recurrence_rule = Some(RecurrenceRule::Daily);
    assert!(handle_recurring_task_completion(&open, ts(1_700_000_000)).is_none());

    let done = task("b", "completed");
    assert!(handle_recurring_task_completion(&done, ts(1_700_000_000)).is_none());

    // without a due date the base is the UTC date of `now`
    let mut undated = task("c", "completed");
    undated.recurrence_rule = Some(RecurrenceRule::Daily);
    undated.starred = true;
    let now = Timestamp::parse_from_rfc3339("2026-06-24T23:30:00Z").unwrap();
    let next = next_occurrence(&undated, "new-id".to_string(), now).unwrap();
    assert_eq!(next.id, "new-id");
    assert_eq!(next.due_date, Some(date(2026, 6, 25)));
    assert!(!next.starred);
    assert_eq!(next.sync_state, SyncState::Pending);
    assert_eq!(next.updated_at, now);
    assert_eq!(next.recurrence_rule, Some(RecurrenceRule::Daily));

    let spawned = handle_recurring_task_completion(&undated, now).unwrap();
    assert_eq!(spawned.id.len(), 36);
}

#[test]
fn reminder_lines_are_cleaned_from_notes() {
    assert_eq!(clean_reminder_from_notes("Buy milk\n[Reminder: 09:00:00]"), "Buy milk");
    assert_eq!(clean_reminder_from_notes("  [Reminder: 09:00]  "), "");
    assert_eq!(clean_reminder_from_notes("a\n  b  \n"), "a\n  b");
    assert_eq!(clean_reminder_from_notes("[Reminder: soon"), "[Reminder: soon");
}

#[test]
fn reminder_is_extracted_from_notes() {
    let (notes, t) = extract_reminder_from_notes(&Some("Call\n[Reminder: 14:30:00]".to_string()));
    assert_eq!(notes, Some("Call".to_string()));
    assert_eq!(t, Some(time(14, 30, 0)));

    let (notes, t) = extract_reminder_from_notes(&Some("[Reminder: 07:15]".to_string()));
    assert_eq!(notes, None);
    assert_eq!(t, Some(time(7, 15, 0)));

    let (notes, t) = extract_reminder_from_notes(&Some("[Reminder: later]\nx".to_string()));
    assert_eq!(notes, Some("x".to_string()));
    assert_eq!(t, None);

    assert_eq!(extract_reminder_from_notes(&None), (None, None));
}

#[test]
fn pushed_notes_carry_no_reminder() {
    let pushed = notes_for_push(&Some("Pack\n[Reminder: 01:00:00]".to_string()));
    assert_eq!(pushed, Some("Pack".to_string()));
    let (notes, t) = extract_reminder_from_notes(&pushed);
    assert_eq!(notes, pushed);
    assert_eq!(t, None);

    assert_eq!(notes_for_push(&None), None);
    assert_eq!(notes_for_push(&Some("[Reminder: 08:45:00]".to_string())), None);
    assert_eq!(notes_for_push(&Some(" keep ".to_string())), Some("keep".to_string()));
}

#[test]
fn cleaning_twice_cleans_once() {
    for n in ["  a\n[Reminder: 09:00]\n\n  b  ", "x", "", "[Reminder: 1:00]", " \n y \n "] {
        let once = clean_reminder_from_notes(n);
        assert_eq!(clean_reminder_from_notes(&once), once);
    }
    assert_eq!(clean_reminder_from_notes("Buy milk\n[Reminder: 09:00:00]"), "Buy milk");
}

#[test]
fn cleaning_twice_can_differ_on_stray_carriage_returns() {
    let once = clean_reminder_from_notes("a\r\r\nb");
    assert_eq!(once, "a\r\nb");
    assert_eq!(clean_reminder_from_notes(&once), "a\nb");
}

#[test]
fn reminder_written_after_cleaned_notes_reads_back() {
    for n in ["Buy milk\n[Reminder: 08:00]", "  plan \r\n day ", "", "[Reminder: 10:00:00]"] {
        let c = clean_reminder_from_notes(n);
        let t = time(9, 5, 7);
        let written = if c.is_empty() {
            format!("[Reminder: {}]", t.format("%H:%M:%S"))
        } else {
            format!("{}\n[Reminder: {}]", c, t.format("%H:%M:%S"))
        };
        let expected = if c.is_empty() { None } else { Some(c.clone()) };
        assert_eq!(extract_reminder_from_notes(&Some(written)), (expected, Some(t)));
    }
    let (notes, t) = extract_reminder_from_notes(&Some("[Reminder: 23:59:59]".to_string()));
    assert_eq!(notes, None);
    assert_eq!(t, Some(time(23, 59, 59)));
}

#[test]
fn lines_split_as_str_lines_does() {
    for s in ["foo\r\nbar\n\nbaz\r", "a\r\r\nb", "x\n", "", "\n", "one", "t\r\n"] {
        let ours: Vec<String> = split_lines(&chars_of(s)).iter().map(|l| l.iter().collect()).collect();
        let std_lines: Vec<String> = s.lines().map(|l| l.to_string()).collect();
        assert_eq!(ours, std_lines);
    }
}

#[test]
fn windows_line_endings_clean_once() {
    let once = clean_reminder_from_notes("a\r\nb\r\n[Reminder: 09:00]\r\n");
    assert_eq!(once, "a\nb");
    assert_eq!(clean_reminder_from_notes(&once), once);
}
