use taskflow_core::calendar::{Date, Time};
use taskflow_core::models::{SyncState, Task, TaskList, Timestamp};
use taskflow_core::order::{compare_keys, stable_order, SortKey};
use taskflow_core::reminders::{reminder_from_row, ReminderRow, ReminderState, ReminderTask};
use taskflow_core::sync::SyncReport;
use taskflow_core::ui::{
    classify_sync_error, contains_seq, decimal_usize, detail_due_date, detail_fields, detail_reminder_time,
    is_keyring_error, nav_down, nav_order, nav_up, new_list, newly_shown, next_list_position,
    notes_from_input, palette_down, palette_matches, palette_up, quick_add, quick_add_due, quick_add_list,
    select_view, sort_tasks, startup_status, strike_through, sync_success_message, task_badges,
    toggle_completion, toggle_star, view_after_list_delete, ActiveView, AppTheme, LocalNow,
    PaletteCommand, QuickAdd, Rgb, SyncFailure, Tone, ViewFadeDirection,
};

fn date(y: i32, m: u32, d: u32) -> Date {
    Date::from_ymd_opt(y, m, d).unwrap()
}

fn time(h: u32, m: u32, s: u32) -> Time {
    Time::from_hms_opt(h, m, s).unwrap()
}

fn ts(secs: i64) -> Timestamp {
    Timestamp::from_timestamp(secs, 0).unwrap()
}

fn task(id: &str, title: &str) -> Task {
    Task {
        id: id.to_string(),
        google_id: None,
        list_id: "L1".to_string(),
        title: title.to_string(),
        notes: None,
        status: "needsAction".to_string(),
        due_date: None,
        reminder_time: None,
        parent_id: None,
        position: None,
        completed_at: None,
        updated_at: ts(1_000),
        google_updated_at: None,
        sync_state: SyncState::Synced,
        is_deleted: false,
        recurrence_rule: None,
        starred: false,
    }
}

fn list(id: &str, title: &str, position: i32, is_default: bool) -> TaskList {
    TaskList { id: id.to_string(), google_id: None, title: title.to_string(), position, is_default, updated_at: ts(0) }
}

fn ids(v: &[String]) -> Vec<&str> {
    v.iter().map(|s| s.as_str()).collect()
}

#[test]
fn themes_and_colours() {
    assert_eq!(AppTheme::default(), AppTheme::Dark);
    assert_eq!(AppTheme::Dark.toggled(), AppTheme::Light);
    assert_eq!(AppTheme::Light.toggled(), AppTheme::Dark);
    let dark = AppTheme::Dark.colors();
    assert_eq!(dark.bg_base, Rgb { r: 0x15, g: 0x16, b: 0x1B });
    assert_eq!(dark.accent_danger, Rgb { r: 0xF2, g: 0x74, b: 0x6C });
    let light = AppTheme::Light.colors();
    assert_eq!(light.bg_surface, Rgb { r: 0xFF, g: 0xFF, b: 0xFF });
    assert_eq!(light.accent_primary, Rgb { r: 0x4F, g: 0x75, b: 0xFF });
}

#[test]
fn switching_views() {
    assert!(select_view(&ActiveView::Today, ActiveView::Today).is_none());
    assert!(select_view(&ActiveView::List("a".to_string()), ActiveView::List("a".to_string())).is_none());
    let (v, d) = select_view(&ActiveView::Today, ActiveView::List("a".to_string())).unwrap();
    assert!(matches!(v, ActiveView::List(ref x) if x == "a"));
    assert_eq!(d, ViewFadeDirection::FadeOut);
    assert!(matches!(view_after_list_delete(ActiveView::List("a".to_string()), &"a".to_string()), ActiveView::Today));
    assert!(matches!(view_after_list_delete(ActiveView::Upcoming, &"a".to_string()), ActiveView::Upcoming));
}

#[test]
fn completing_twice_reopens() {
    let t = task("t", "Write");
    let done = toggle_completion(t, ts(50));
    assert_eq!(done.status, "completed");
    assert_eq!(done.completed_at, Some(ts(50)));
    assert_eq!(done.sync_state, SyncState::Pending);
    assert_eq!(done.updated_at, ts(50));
    let reopened = toggle_completion(done, ts(60));
    assert_eq!(reopened.status, "needsAction");
    assert_eq!(reopened.completed_at, None);
    let starred = toggle_star(reopened, ts(70));
    assert!(starred.starred);
    assert!(!toggle_star(starred, ts(80)).starred);
}

#[test]
fn quick_add_picks_list_and_date() {
    let lists = vec![list("a", "A", 0, false), list("b", "B", 1, true)];
    assert_eq!(quick_add_list(&ActiveView::Today, &lists), Some("b".to_string()));
    assert_eq!(quick_add_list(&ActiveView::List("z".to_string()), &lists), Some("z".to_string()));
    assert_eq!(quick_add_list(&ActiveView::Upcoming, &vec![list("a", "A", 0, false)]), Some("a".to_string()));
    assert_eq!(quick_add_list(&ActiveView::Upcoming, &vec![]), None);

    let today = date(2026, 6, 24);
    assert_eq!(quick_add_due(None, &ActiveView::Today, None, today), Some(today));
    assert_eq!(quick_add_due(None, &ActiveView::Upcoming, None, today), None);
    assert_eq!(quick_add_due(None, &ActiveView::Upcoming, Some(time(9, 0, 0)), today), Some(today));
    assert_eq!(quick_add_due(Some(date(2026, 7, 1)), &ActiveView::Today, None, today), Some(date(2026, 7, 1)));

    match quick_add("  Buy milk tomorrow at 5pm ", &ActiveView::Upcoming, &lists, today, "id1".to_string(), ts(5)) {
        QuickAdd::Create(t) => {
            assert_eq!(t.title, "Buy milk");
            assert_eq!(t.list_id, "b");
            assert_eq!(t.due_date, Some(date(2026, 6, 25)));
            assert_eq!(t.reminder_time, Some(time(17, 0, 0)));
            assert_eq!(t.sync_state, SyncState::Pending);
            assert_eq!(t.id, "id1");
        }
        other => panic!("unexpected {:?}", other),
    }
    assert!(matches!(quick_add("tomorrow", &ActiveView::Today, &lists, today, "i".to_string(), ts(5)), QuickAdd::Ignore));
    assert!(matches!(quick_add("Call mom", &ActiveView::Today, &vec![], today, "i".to_string(), ts(5)), QuickAdd::NeedList));
}

#[test]
fn new_lists_go_last() {
    assert_eq!(next_list_position(&vec![]), 1);
    assert_eq!(next_list_position(&vec![list("a", "A", 3, false), list("b", "B", 7, false)]), 8);
    let l = new_list("n".to_string(), "  Groceries ", 8, ts(2)).unwrap();
    assert_eq!(l.title, "Groceries");
    assert_eq!(l.position, 8);
    assert!(new_list("n".to_string(), "   ", 8, ts(2)).is_none());
}

#[test]
fn status_messages() {
    let mut r = SyncReport::new();
    r.lists_pulled = 1;
    r.lists_pushed = 2;
    r.tasks_pulled = 30;
    r.tasks_pushed = 4;
    r.tasks_deleted = 0;
    assert_eq!(sync_success_message(&r), "Sync success! Lists: +1/^2, Tasks: +30/^4/-0");
    assert_eq!(decimal_usize(1207), "1207");
    assert_eq!(startup_status(&Ok(true)), "Logged in. Hit Sync to refresh.");
    assert_eq!(startup_status(&Ok(false)), "Not authenticated. Log in from settings.");
    assert_eq!(startup_status(&Err("x".to_string())), "Keyring error occurred.");
}

#[test]
fn sync_errors_are_classified() {
    assert_eq!(classify_sync_error("Network request failed: error sending request"), SyncFailure::Offline);
    assert_eq!(classify_sync_error("operation TIMEOUT"), SyncFailure::Offline);
    assert_eq!(classify_sync_error("Failed to refresh token: {\"error\": \"invalid_grant\"}"), SyncFailure::Revoked);
    assert_eq!(classify_sync_error("Google Tasks API error (404 Not Found)"), SyncFailure::Other);
    assert!(is_keyring_error("Keyring unavailable"));
    assert!(!is_keyring_error("denied"));
    assert!(contains_seq(&"abcabd".chars().collect(), &"abd".chars().collect()));
    assert!(contains_seq(&"abc".chars().collect(), &vec![]));
    assert!(!contains_seq(&"ab".chars().collect(), &"abc".chars().collect()));
}

#[test]
fn notes_typed_in_details() {
    assert_eq!(notes_from_input(&"  ".to_string()), None);
    assert_eq!(notes_from_input(&" x ".to_string()), Some(" x ".to_string()));
}

#[test]
fn the_palette_filters_by_title() {
    let lists = vec![list("l1", "Work", 0, false)];
    let tasks = vec![task("t1", "Write report"), task("t2", "Walk dog")];
    let all = palette_matches("", &lists, &tasks);
    assert_eq!(all.len(), 9);
    assert_eq!(all[0].title, "Create New List");
    assert_eq!(all[6].title, "Go to List: Work");
    assert_eq!(all[6].category, "List");
    assert_eq!(all[8].title, "Toggle: Walk dog");

    let m = palette_matches("WOR", &lists, &tasks);
    let titles: Vec<&str> = m.iter().map(|i| i.title.as_str()).collect();
    assert_eq!(titles, vec!["Go to List: Work"]);
    assert!(matches!(m[0].command, PaletteCommand::ShowView(ActiveView::List(ref id)) if id == "l1"));

    let r = palette_matches("report", &lists, &tasks);
    assert!(matches!(r[0].command, PaletteCommand::ToggleComplete(ref id) if id == "t1"));
    assert_eq!(r[0].category, "Task");

    assert_eq!(palette_down(0, 3), 1);
    assert_eq!(palette_down(2, 3), 0);
    assert_eq!(palette_down(7, 20), 0);
    assert_eq!(palette_up(0, 3), 2);
    assert_eq!(palette_up(0, 20), 7);
    assert_eq!(palette_up(4, 20), 3);
    assert_eq!(palette_down(5, 0), 5);
}

#[test]
fn palette_moves_undo_each_other() {
    for n in [1usize, 3, 8, 20] {
        let shown = if n < 8 { n } else { 8 };
        for i in 0..shown {
            assert_eq!(palette_up(palette_down(i, n), n), i);
            assert_eq!(palette_down(palette_up(i, n), n), i);
        }
    }
}

#[test]
fn keyboard_navigation_order() {
    let today = date(2026, 6, 24);
    let mut overdue = task("over", "o");
    overdue.due_date = Some(date(2026, 6, 1));
    let mut due_today = task("today", "t");
    due_today.due_date = Some(today);
    let undated = task("undated", "u");
    let mut later = task("later", "l");
    later.due_date = Some(date(2026, 7, 1));
    let mut done = task("done", "d");
    done.status = "completed".to_string();
    let mut sub = task("sub", "s");
    sub.parent_id = Some("over".to_string());
    let tasks = vec![done, due_today, sub, later, overdue, undated];

    let t = nav_order(&ActiveView::Today, &tasks, today);
    assert_eq!(ids(&t), vec!["over", "today", "undated", "done"]);
    let l = nav_order(&ActiveView::List("L1".to_string()), &tasks, today);
    assert_eq!(ids(&l), vec!["today", "later", "over", "undated", "done"]);
    let u = nav_order(&ActiveView::Upcoming, &tasks, today);
    assert_eq!(ids(&u), vec!["done", "undated", "over", "today", "later"]);
    assert!(nav_order(&ActiveView::Settings, &tasks, today).is_empty());

    assert_eq!(nav_down(&t, &None), Some("over".to_string()));
    assert_eq!(nav_down(&t, &Some("over".to_string())), Some("today".to_string()));
    assert_eq!(nav_down(&t, &Some("done".to_string())), Some("done".to_string()));
    assert_eq!(nav_down(&t, &Some("missing".to_string())), Some("over".to_string()));
    assert_eq!(nav_up(&t, &Some("today".to_string())), Some("over".to_string()));
    assert_eq!(nav_up(&t, &Some("over".to_string())), Some("over".to_string()));
    assert_eq!(nav_up(&vec![], &None), None);
}

#[test]
fn moving_down_then_up_comes_back() {
    let order: Vec<String> = vec!["a".to_string(), "b".to_string(), "c".to_string()];
    for start in ["a", "b"] {
        let down = nav_down(&order, &Some(start.to_string()));
        assert_eq!(nav_up(&order, &down), Some(start.to_string()));
    }
    for start in ["b", "c"] {
        let up = nav_up(&order, &Some(start.to_string()));
        assert_eq!(nav_down(&order, &up), Some(start.to_string()));
    }
}

#[test]
fn tasks_sort_for_display() {
    let now = LocalNow { date: date(2026, 6, 24), time: time(12, 0, 0), nanos: 0 };
    let mut near = task("near", "near");
    near.due_date = Some(date(2026, 6, 24));
    near.reminder_time = Some(time(13, 0, 0));
    let mut far = task("far", "far");
    far.due_date = Some(date(2026, 6, 30));
    let mut starred = task("star", "zzz");
    starred.starred = true;
    let b = task("b", "banana");
    let a = task("a", "Apple");
    let mut done_old = task("done_old", "x");
    done_old.status = "completed".to_string();
    done_old.completed_at = Some(ts(100));
    let mut done_new = task("done_new", "y");
    done_new.status = "completed".to_string();
    done_new.completed_at = Some(ts(200));
    let mut done_none = task("done_none", "z");
    done_none.status = "completed".to_string();
    let tasks = vec![done_old, b, far, done_none, a, near, done_new, starred];
    let sorted = sort_tasks(&tasks, now);
    let order: Vec<&str> = sorted.iter().map(|t| t.id.as_str()).collect();
    assert_eq!(order, vec!["star", "near", "far", "a", "b", "done_new", "done_old", "done_none"]);
}

#[test]
fn stable_order_keeps_ties_in_place() {
    let key = |a: i128, text: &str| SortKey { a, b: 0, c: 0, d: 0, text: text.chars().collect(), e: 0, f: 0 };
    let keys = vec![key(1, "x"), key(0, "b"), key(1, "x"), key(0, "a"), key(2, "")];
    assert_eq!(compare_keys(&keys[1], &keys[3]), 1);
    assert_eq!(compare_keys(&keys[0], &keys[2]), 0);
    let order = stable_order(&keys, &vec![true, true, true, true, false]);
    assert_eq!(order, vec![3, 1, 0, 2]);
}

#[test]
fn detail_panel_fields() {
    let mut t = task("t", "Plan");
    t.notes = Some("n".to_string());
    t.due_date = Some(date(2026, 7, 4));
    t.reminder_time = Some(time(8, 5, 0));
    let f = detail_fields(Some(&t));
    assert_eq!(f.title, "Plan");
    assert_eq!(f.notes, "n");
    assert_eq!(f.due_date, "2026-07-04");
    assert_eq!(f.reminder_time, "08:05");
    let e = detail_fields(None);
    assert!(e.title.is_empty() && e.due_date.is_empty());

    let today = date(2026, 6, 24);
    assert_eq!(detail_due_date(&"tomorrow".to_string(), today), Some(date(2026, 6, 25)));
    assert_eq!(detail_due_date(&"2026-08-01".to_string(), today), Some(date(2026, 8, 1)));
    assert_eq!(detail_due_date(&"  ".to_string(), today), None);
    assert_eq!(detail_reminder_time(&"5pm".to_string(), today), Some(time(17, 0, 0)));
    assert_eq!(detail_reminder_time(&"07:45".to_string(), today), Some(time(7, 45, 0)));
    assert_eq!(detail_reminder_time(&"".to_string(), today), None);
}

#[test]
fn task_row_badges() {
    let mut t = task("t", "Plan");
    t.due_date = Some(date(2026, 7, 4));
    t.reminder_time = Some(time(17, 30, 0));
    let lists = vec![list("L1", "Home", 0, true)];
    let b = task_badges(&t, false, true, &ActiveView::Today, &lists, Some((1, 3)));
    assert_eq!(b.due, Some(("Jul  4".to_string(), Tone::Danger)));
    assert_eq!(b.reminder, Some(("05:30 PM".to_string(), Tone::Warning)));
    assert_eq!(b.recurring, None);
    assert_eq!(b.list_chip, Some("Home".to_string()));
    assert_eq!(b.subtasks, Some("1/3".to_string()));
    let c = task_badges(&t, true, true, &ActiveView::List("L1".to_string()), &lists, None);
    assert_eq!(c.due, Some(("Jul  4".to_string(), Tone::Secondary)));
    assert_eq!(c.reminder, Some(("05:30 PM".to_string(), Tone::Secondary)));
    assert_eq!(c.list_chip, None);
    assert_eq!(c.subtasks, None);
}

#[test]
fn strike_and_new_rows() {
    assert_eq!(strike_through("abc", 2), "a\u{0336}b\u{0336}c");
    assert_eq!(strike_through("abc", 0), "abc");
    let old = vec![task("a", "A")];
    let new = vec![task("a", "A"), task("b", "B")];
    assert_eq!(newly_shown(&old, &new), vec!["b".to_string()]);
    assert!(newly_shown(&vec![], &new).is_empty());
}

fn row(id: &str, at: Option<&str>, due: Option<&str>, status: &str, is_deleted: bool) -> ReminderRow {
    ReminderRow {
        id: id.to_string(),
        title: id.to_uppercase(),
        reminder_time: at.map(|s| s.to_string()),
        due_date: due.map(|s| s.to_string()),
        status: status.to_string(),
        is_deleted,
    }
}

#[test]
fn reminders_show_once_a_day() {
    let mut state = ReminderState::new(date(2026, 6, 24));
    let candidates = vec![
        reminder_from_row(row("a", Some("09:00:00"), Some("2026-06-24"), "needsAction", false), &date(2026, 6, 24)).unwrap(),
        ReminderTask { id: "b".to_string(), title: "B".to_string(), reminder_time: time(18, 0, 0) },
    ];
    let today = date(2026, 6, 24);
    assert!(reminder_from_row(row("c", Some("9am"), Some("2026-06-24"), "needsAction", false), &today).is_none());
    assert!(reminder_from_row(row("c", None, Some("2026-06-24"), "needsAction", false), &today).is_none());
    assert!(reminder_from_row(row("c", Some("09:00:00"), Some("2026-06-25"), "needsAction", false), &today).is_none());
    assert!(reminder_from_row(row("c", Some("09:00:00"), None, "needsAction", false), &today).is_none());
    assert!(reminder_from_row(row("c", Some("09:00:00"), Some("2026-06-24"), "completed", false), &today).is_none());
    assert!(reminder_from_row(row("c", Some("09:00:00"), Some("2026-06-24"), "needsAction", true), &today).is_none());
    assert_eq!(state.due_reminders(&candidates, time(8, 59, 59)), Vec::<usize>::new());
    assert_eq!(state.due_reminders(&candidates, time(9, 0, 0)), vec![0]);
    state.mark_shown("a".to_string());
    assert!(state.was_shown(&"a".to_string()));
    assert_eq!(state.due_reminders(&candidates, time(20, 0, 0)), vec![1]);
    assert!(!state.roll_day(date(2026, 6, 24)));
    assert!(state.was_shown(&"a".to_string()));
    assert!(state.roll_day(date(2026, 6, 25)));
    assert!(!state.was_shown(&"a".to_string()));
    assert_eq!(state.due_reminders(&candidates, time(20, 0, 0)), vec![0, 1]);
}
