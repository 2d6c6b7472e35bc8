use taskflow_core::calendar::Date;
use taskflow_core::layout::{view_layout, Section, SectionKind, SyncBadge};
use taskflow_core::models::{SyncState, Task, TaskList, Timestamp};
use taskflow_core::ui::ActiveView;

fn date(y: i32, m: u32, d: u32) -> Date {
    Date::from_ymd_opt(y, m, d).unwrap()
}

fn ts(secs: i64) -> Timestamp {
    Timestamp::from_timestamp(secs, 0).unwrap()
}

fn task(id: &str, due: Option<Date>) -> Task {
    Task {
        id: id.to_string(),
        google_id: None,
        list_id: "L1".to_string(),
        title: id.to_string(),
        notes: None,
        status: "needsAction".to_string(),
        due_date: due,
        reminder_time: None,
        parent_id: None,
        position: None,
        completed_at: None,
        updated_at: ts(1_000),
        google_updated_at: None,
        sync_state: SyncState::Synced,
        is_deleted: false,
        recurrence_rule: None,
        starred: false,
    }
}

fn today() -> Date {
    date(2026, 6, 24)
}

fn sample() -> Vec<Task> {
    let mut a = task("a", Some(date(2026, 6, 30)));
    a.starred = true;
    let b = task("b", Some(date(2026, 6, 1)));
    let c = task("c", None);
    let d = task("d", Some(today()));
    let e = task("e", Some(date(2026, 7, 1)));
    let mut f = task("f", None);
    f.status = "completed".to_string();
    let mut g = task("g", None);
    g.parent_id = Some("b".to_string());
    vec![e, d, a, f, b, g, c]
}

fn shape(sections: &[Section]) -> Vec<(SectionKind, usize, Vec<&str>)> {
    sections
        .iter()
        .map(|s| (s.kind, s.count, s.rows.iter().map(|r| r.as_str()).collect()))
        .collect()
}

#[test]
fn the_today_view_groups_its_tasks() {
    let lists: Vec<TaskList> = vec![];
    let l = view_layout(&ActiveView::Today, &sample(), &lists, today(), false);
    assert_eq!(l.title, "Today");
    assert_eq!(l.badge, None);
    assert_eq!(l.empty_message, None);
    assert_eq!(
        shape(&l.sections),
        vec![
            (SectionKind::Pinned, 1, vec!["a"]),
            (SectionKind::Overdue, 1, vec!["b"]),
            (SectionKind::Today, 2, vec!["d", "c"]),
            (SectionKind::Completed, 1, vec!["f"]),
        ]
    );

    let folded = view_layout(&ActiveView::Today, &sample(), &lists, today(), true);
    assert_eq!(folded.sections[3].kind, SectionKind::Completed);
    assert_eq!(folded.sections[3].count, 1);
    assert!(folded.sections[3].rows.is_empty());
}

#[test]
fn the_upcoming_view_groups_by_due_date() {
    let lists: Vec<TaskList> = vec![];
    let l = view_layout(&ActiveView::Upcoming, &sample(), &lists, today(), true);
    assert_eq!(l.title, "Upcoming");
    assert_eq!(l.empty_message, None);
    assert_eq!(
        shape(&l.sections),
        vec![
            (SectionKind::Pinned, 1, vec!["a"]),
            (SectionKind::NoDueDate, 2, vec!["f", "c"]),
            (SectionKind::OnDate(date(2026, 6, 1)), 1, vec!["b"]),
            (SectionKind::OnDate(today()), 1, vec!["d"]),
            (SectionKind::OnDate(date(2026, 7, 1)), 1, vec!["e"]),
        ]
    );
}

#[test]
fn a_list_view_shows_open_then_completed_tasks() {
    let mut work = TaskList {
        id: "L1".to_string(),
        google_id: Some("g1".to_string()),
        title: "Work".to_string(),
        position: 0,
        is_default: true,
        updated_at: ts(0),
    };
    let l = view_layout(&ActiveView::List("L1".to_string()), &sample(), &vec![work.clone_list()], today(), false);
    assert_eq!(l.title, "Work");
    assert_eq!(l.badge, Some(SyncBadge::Synced));
    assert_eq!(
        shape(&l.sections),
        vec![(SectionKind::Open, 5, vec!["e", "d", "a", "b", "c"]), (SectionKind::Completed, 1, vec!["f"])]
    );

    work.google_id = None;
    let pending = view_layout(&ActiveView::List("L1".to_string()), &vec![], &vec![work], today(), false);
    assert_eq!(pending.badge, Some(SyncBadge::PendingSync));
    assert_eq!(pending.empty_message, Some("This list is empty. Add a task to get started!".to_string()));
    assert!(pending.sections.is_empty());

    let gone = view_layout(&ActiveView::List("X".to_string()), &vec![], &vec![], today(), false);
    assert_eq!(gone.title, "List Tasks");
    assert_eq!(gone.badge, Some(SyncBadge::PendingSync));
}

#[test]
fn empty_views_say_so() {
    let none: Vec<TaskList> = vec![];
    let t = view_layout(&ActiveView::Today, &vec![], &none, today(), false);
    assert_eq!(t.empty_message, Some("No tasks for today. Enjoy your free time!".to_string()));
    assert!(t.sections.is_empty());

    let mut sub = task("s", None);
    sub.parent_id = Some("p".to_string());
    let u = view_layout(&ActiveView::Upcoming, &vec![sub], &none, today(), false);
    assert_eq!(u.empty_message, Some("No tasks scheduled for the next 7 days.".to_string()));
    assert!(u.sections.is_empty());

    let s = view_layout(&ActiveView::Settings, &sample(), &none, today(), false);
    assert_eq!(s.title, "Settings");
    assert!(s.sections.is_empty());
    assert_eq!(s.empty_message, None);
}
