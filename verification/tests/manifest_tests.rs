use chrono::{Datelike, Local, NaiveDate, Utc};
use taskflow_core::calendar::{Date, Time, Weekday};
use taskflow_core::models::{RecurrenceRule, SyncState, Task, Timestamp};
use taskflow_core::parser::parse_task_input;
use taskflow_core::recurrence::{compute_next_due_date, handle_recurring_task_completion};

fn date(y: i32, m: u32, d: u32) -> Date {
    Date::from_ymd_opt(y, m, d).unwrap()
}

fn time(h: u32, m: u32, s: u32) -> Time {
    Time::from_hms_opt(h, m, s).unwrap()
}

fn of_chrono(d: NaiveDate) -> Date {
    date(d.year(), d.month(), d.day())
}

fn now() -> Timestamp {
    let n = Utc::now();
    Timestamp::from_timestamp(n.timestamp(), n.timestamp_subsec_nanos()).unwrap()
}

#[test]
fn test_parse_task_input() {
    let today_chrono = Local::now().date_naive();
    let today = of_chrono(today_chrono);

    // 1. Natural language dates & times
    let (title, due, time1) = parse_task_input("Buy groceries tomorrow at 5pm", today);
    assert_eq!(title, "Buy groceries");
    assert_eq!(due, Some(of_chrono(today_chrono + chrono::Duration::days(1))));
    assert_eq!(time1, Some(time(17, 0, 0)));

    // 2. Exact date & time formats
    let (title2, due2, time2) = parse_task_input("Call dentist on 2026-07-01 at 14:30", today);
    assert_eq!(title2, "Call dentist");
    assert_eq!(due2, Some(date(2026, 7, 1)));
    assert_eq!(time2, Some(time(14, 30, 0)));

    // 3. Weekday & time formats
    let (title3, due3, time3) = parse_task_input("Do laundry Friday 10:00", today);
    assert_eq!(title3, "Do laundry");
    assert!(due3.is_some());
    assert_eq!(due3.unwrap().weekday(), Weekday::Fri);
    assert_eq!(time3, Some(time(10, 0, 0)));

    // 4. Time only (should not set date here, handled by caller)
    let (title4, due4, time4) = parse_task_input("Meeting at 9am", today);
    assert_eq!(title4, "Meeting");
    assert_eq!(due4, None);
    assert_eq!(time4, Some(time(9, 0, 0)));

    // 5. Month/Day format
    let (title5, due5, time5) = parse_task_input("Submit report 12-25 14:00", today);
    assert_eq!(title5, "Submit report");
    assert_eq!(due5, Some(date(today_chrono.year(), 12, 25)));
    assert_eq!(time5, Some(time(14, 0, 0)));

    // 6. Prepositions without valid target
    let (title6, due6, time6) = parse_task_input("Talk to boss at office", today);
    assert_eq!(title6, "Talk to boss at office");
    assert_eq!(due6, None);
    assert_eq!(time6, None);
}

#[test]
fn test_recurrence_date_calculation() {
    let start = date(2026, 6, 24); // Wednesday

    // Daily
    let next_daily = compute_next_due_date(start, &RecurrenceRule::Daily);
    assert_eq!(next_daily, date(2026, 6, 25)); // Thursday

    // Weekly (same day next week)
    let next_weekly_same = compute_next_due_date(start, &RecurrenceRule::Weekly(Weekday::Wed));
    assert_eq!(next_weekly_same, date(2026, 7, 1)); // Next Wed

    // Weekly (different day)
    let next_weekly_diff = compute_next_due_date(start, &RecurrenceRule::Weekly(Weekday::Fri));
    assert_eq!(next_weekly_diff, date(2026, 6, 26)); // Next Fri

    // Monthly
    let next_monthly = compute_next_due_date(start, &RecurrenceRule::Monthly(24));
    assert_eq!(next_monthly, date(2026, 7, 24)); // Next Month 24th

    // Monthly day-capping (Jan 31st -> Feb 28th)
    let jan_31 = date(2026, 1, 31);
    let next_monthly_cap = compute_next_due_date(jan_31, &RecurrenceRule::Monthly(31));
    assert_eq!(next_monthly_cap, date(2026, 2, 28)); // End of Feb
}

#[test]
fn test_handle_recurring_task_completion() {
    let list_id = "list-1".to_string();
    let task = Task {
        id: "task-1".to_string(),
        google_id: Some("g_recurring_1".to_string()),
        list_id: list_id.clone(),
        title: "Submit Timesheet".to_string(),
        notes: Some("Weekly task".to_string()),
        status: "completed".to_string(), // Marked completed
        due_date: Some(date(2026, 6, 24)), // Wed
        reminder_time: Some(time(9, 0, 0)),
        parent_id: None,
        position: Some("position_a".to_string()),
        completed_at: Some(now()),
        updated_at: now(),
        google_updated_at: None,
        sync_state: SyncState::Synced,
        is_deleted: false,
        recurrence_rule: Some(RecurrenceRule::Weekly(Weekday::Wed)),
        starred: false,
    };

    // Spawn next occurrence
    let result = handle_recurring_task_completion(&task, now());
    assert!(result.is_some());
    let next_occurrence = result.unwrap();

    // Verify properties of spawned occurrence
    assert_eq!(next_occurrence.title, "Submit Timesheet");
    assert_eq!(next_occurrence.notes, Some("Weekly task".to_string()));
    assert_eq!(next_occurrence.status, "needsAction"); // Reset
    assert_eq!(next_occurrence.due_date, Some(date(2026, 7, 1))); // Next Wed
    assert_eq!(next_occurrence.reminder_time, Some(time(9, 0, 0)));
    assert_eq!(next_occurrence.google_id, None); // Null, triggers insert push
    assert_eq!(next_occurrence.sync_state, SyncState::Pending);
    assert_eq!(next_occurrence.list_id, list_id);
    assert_ne!(next_occurrence.id, task.id);
}
