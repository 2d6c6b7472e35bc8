use taskflow_core::oauth::{read_auth_request, AuthRequest};
use taskflow_core::google::{credentials_file, credentials_not_found_message};
use taskflow_core::calendar::{Date, Time};
use taskflow_core::db::{task_from_row, task_from_row_lenient, task_to_row, list_from_row, list_to_row, Database, RowError};
use taskflow_core::google::{
    gather_page, is_client_secret_file_name, list_tasks_query, page_query, placement_query, retry_decision,
    task_list_url, task_lists_url, task_move_url, task_url, tasks_url, Credentials, GoogleTask,
    GoogleTaskList, InstalledDetails, RetryDecision,
};
use taskflow_core::models::{RecurrenceRule, SyncState, Task, TaskList, Timestamp};
use taskflow_core::sync::{
    after_insert, after_update, deletion_failure_warns, deletion_step, google_payload, is_deleted_remotely,
    push_step, pushed_task, relink_parent, remote_list_action, remote_task_action, resolve_conflict,
    split_push_passes, sync_window, ConflictResolution, DeleteStep, ListAction, PushStep, SyncReport, Tally,
    TaskAction,
};
use taskflow_core::token::{
    code_exchange_form, needs_login_message, refresh_form, TokenManager, TokenResponse, TokenStep,
};
use taskflow_core::calendar::Weekday;

fn date(y: i32, m: u32, d: u32) -> Date {
    Date::from_ymd_opt(y, m, d).unwrap()
}

fn ts(secs: i64) -> Timestamp {
    Timestamp::from_timestamp(secs, 0).unwrap()
}

fn task(id: &str, state: SyncState, updated: i64) -> Task {
    Task {
        id: id.to_string(),
        google_id: Some(format!("g-{}", id)),
        list_id: "L".to_string(),
        title: "Local title".to_string(),
        notes: Some("local notes".to_string()),
        status: "needsAction".to_string(),
        due_date: Some(date(2026, 1, 1)),
        reminder_time: None,
        parent_id: None,
        position: Some("001".to_string()),
        completed_at: None,
        updated_at: ts(updated),
        google_updated_at: None,
        sync_state: state,
        is_deleted: state == SyncState::DeletedPending,
        recurrence_rule: None,
        starred: true,
    }
}

fn remote(id: &str, updated: &str) -> GoogleTask {
    GoogleTask {
        id: Some(format!("g-{}", id)),
        title: Some("Remote title".to_string()),
        notes: Some("Remote notes\n[Reminder: 10:30:00]".to_string()),
        status: Some("completed".to_string()),
        due: Some("2026-07-01T00:00:00.000Z".to_string()),
        completed: Some("2026-06-30T12:00:00Z".to_string()),
        updated: Some(updated.to_string()),
        parent: None,
        position: Some("002".to_string()),
        deleted: None,
        hidden: None,
        starred: Some(false),
    }
}

fn creds() -> Credentials {
    Credentials {
        installed: InstalledDetails {
            client_id: "cid".to_string(),
            client_secret: "SECRET-REDACTED".to_string(),
            auth_uri: "https://accounts.google.com/o/oauth2/auth".to_string(),
            token_uri: "https://oauth2.googleapis.com/token".to_string(),
            redirect_uris: vec!["http://localhost".to_string()],
        },
    }
}

const EARLY: i64 = 1_700_000_000; // 2023-11-14
const LATE: &str = "2026-06-30T12:00:00Z";

#[test]
fn conflicts_go_to_the_newer_edit_and_ties_stay_local() {
    assert_eq!(resolve_conflict(ts(10), ts(5)), ConflictResolution::UseLocal);
    assert_eq!(resolve_conflict(ts(10), ts(10)), ConflictResolution::UseLocal);
    assert_eq!(resolve_conflict(ts(5), ts(10)), ConflictResolution::UseRemote);
}

#[test]
fn a_new_remote_task_is_pulled() {
    let r = remote("1", LATE);
    match remote_task_action(None, &r, &"L".to_string(), "new".to_string(), ts(0)) {
        TaskAction::Create(t) => {
            assert_eq!(t.id, "new");
            assert_eq!(t.google_id, Some("g-1".to_string()));
            assert_eq!(t.title, "Remote title");
            assert_eq!(t.notes, Some("Remote notes".to_string()));
            assert_eq!(t.reminder_time, Time::from_hms_opt(10, 30, 0));
            assert_eq!(t.due_date, Some(date(2026, 7, 1)));
            assert_eq!(t.status, "completed");
            assert_eq!(t.sync_state, SyncState::Synced);
            assert_eq!(t.updated_at, Timestamp::parse_from_rfc3339(LATE).unwrap());
            assert!(!t.starred);
        }
        other => panic!("unexpected {:?}", other),
    }
    let mut gone = remote("1", LATE);
    gone.deleted = Some(true);
    assert!(matches!(remote_task_action(None, &gone, &"L".to_string(), "n".to_string(), ts(0)), TaskAction::Skip));
    let mut no_id = remote("1", LATE);
    no_id.id = None;
    assert!(matches!(remote_task_action(None, &no_id, &"L".to_string(), "n".to_string(), ts(0)), TaskAction::Skip));
}

#[test]
fn pulling_the_same_remote_task_again_changes_nothing() {
    let r = remote("1", LATE);
    let first = match remote_task_action(None, &r, &"L".to_string(), "new".to_string(), ts(0)) {
        TaskAction::Create(t) => t,
        other => panic!("unexpected {:?}", other),
    };
    let before = format!("{:?}", first);
    match remote_task_action(Some(first), &r, &"L".to_string(), "other".to_string(), ts(5)) {
        TaskAction::Update { task, note, completed_now } => {
            assert_eq!(format!("{:?}", task), before);
            assert_eq!(note, None);
            assert!(!completed_now);
        }
        other => panic!("unexpected {:?}", other),
    }
}

#[test]
fn remote_deletion_deletes_the_local_task() {
    let mut gone = remote("1", LATE);
    gone.deleted = Some(true);
    match remote_task_action(Some(task("x", SyncState::Pending, EARLY)), &gone, &"L".to_string(), "n".to_string(), ts(0)) {
        TaskAction::HardDelete(id) => assert_eq!(id, "x"),
        other => panic!("unexpected {:?}", other),
    }
}

#[test]
fn a_synced_task_takes_the_remote_content() {
    let r = remote("1", LATE);
    match remote_task_action(Some(task("x", SyncState::Synced, EARLY)), &r, &"L".to_string(), "n".to_string(), ts(0)) {
        TaskAction::Update { task, note, completed_now } => {
            assert_eq!(task.id, "x");
            assert_eq!(task.title, "Remote title");
            assert_eq!(task.position, Some("002".to_string()));
            assert!(note.is_none());
            assert!(completed_now);
            assert!(!task.starred);
            assert_eq!(task.notes, Some("Remote notes".to_string()));
            assert_eq!(task.reminder_time, None);
        }
        other => panic!("unexpected {:?}", other),
    }
}

#[test]
fn pending_edits_resolve_by_most_recent_write() {
    // remote newer
    match remote_task_action(Some(task("x", SyncState::Pending, EARLY)), &remote("1", LATE), &"L".to_string(), "n".to_string(), ts(0)) {
        TaskAction::Update { task, note, .. } => {
            assert_eq!(task.title, "Remote title");
            assert_eq!(note, Some("Updated 'Remote title' with remote edits (remote changes were newer)".to_string()));
        }
        other => panic!("unexpected {:?}", other),
    }
    // local newer
    match remote_task_action(Some(task("x", SyncState::Conflict, 1_900_000_000)), &remote("1", LATE), &"L".to_string(), "n".to_string(), ts(0)) {
        TaskAction::KeepLocal { task, notice } => {
            assert_eq!(task.title, "Local title");
            assert_eq!(task.sync_state, SyncState::Pending);
            assert_eq!(notice, "Kept your local edits for 'Local title' (local changes were newer)");
        }
        other => panic!("unexpected {:?}", other),
    }
}

#[test]
fn a_locally_deleted_task_returns_only_for_newer_remote_edits() {
    match remote_task_action(Some(task("x", SyncState::DeletedPending, EARLY)), &remote("1", LATE), &"L".to_string(), "n".to_string(), ts(0)) {
        TaskAction::Update { task, note, completed_now } => {
            assert!(!task.is_deleted);
            assert!(task.starred);
            assert!(!completed_now);
            assert_eq!(note, Some("Restored deleted task 'Remote title' because it was modified remotely".to_string()));
        }
        other => panic!("unexpected {:?}", other),
    }
    assert!(matches!(
        remote_task_action(Some(task("x", SyncState::DeletedPending, 1_900_000_000)), &remote("1", LATE), &"L".to_string(), "n".to_string(), ts(0)),
        TaskAction::Skip
    ));
}

#[test]
fn a_missing_remote_edit_time_falls_back_to_now() {
    let mut r = remote("1", LATE);
    r.updated = Some("garbage".to_string());
    match remote_task_action(None, &r, &"L".to_string(), "n".to_string(), ts(42)) {
        TaskAction::Create(t) => assert_eq!(t.updated_at, ts(42)),
        other => panic!("unexpected {:?}", other),
    }
}

#[test]
fn parents_relink_once() {
    let t = task("child", SyncState::Synced, EARLY);
    let linked = relink_parent(t, &"parent".to_string()).unwrap();
    assert_eq!(linked.parent_id, Some("parent".to_string()));
    assert!(relink_parent(linked, &"parent".to_string()).is_none());
}

#[test]
fn push_passes_put_parents_first() {
    let mut a = task("a", SyncState::Pending, EARLY);
    let mut b = task("b", SyncState::Pending, EARLY);
    b.parent_id = Some("a".to_string());
    let c = task("c", SyncState::Pending, EARLY);
    a.list_id = "L".to_string();
    let mut other = task("o", SyncState::Pending, EARLY);
    other.list_id = "M".to_string();
    let (p1, p2) = split_push_passes(&vec![b, a, other, c], &"L".to_string());
    let ids1: Vec<&str> = p1.iter().map(|t| t.id.as_str()).collect();
    let ids2: Vec<&str> = p2.iter().map(|t| t.id.as_str()).collect();
    assert_eq!(ids1, vec!["a", "c"]);
    assert_eq!(ids2, vec!["b"]);
}

#[test]
fn the_payload_keeps_the_reminder_time_local() {
    let mut t = task("x", SyncState::Pending, EARLY);
    t.reminder_time = Time::from_hms_opt(9, 15, 0);
    t.notes = Some("local notes\n[Reminder: 07:00]".to_string());
    t.completed_at = Some(Timestamp::parse_from_rfc3339("2026-06-24T09:00:00Z").unwrap());
    let p = google_payload(&t);
    assert_eq!(p.id, Some("g-x".to_string()));
    assert_eq!(p.title, Some("Local title".to_string()));
    assert_eq!(p.notes, Some("local notes".to_string()));
    assert_eq!(p.due, Some("2026-01-01T00:00:00.000Z".to_string()));
    assert_eq!(p.completed, Some("2026-06-24T09:00:00+00:00".to_string()));
    assert_eq!(p.starred, Some(true));
    assert!(p.updated.is_none() && p.parent.is_none() && p.position.is_none());
}

#[test]
fn a_pushed_task_pulls_back_as_itself() {
    let mut t = task("x", SyncState::Pending, EARLY);
    t.notes = Some("  first line\n[Reminder: 07:00]\nsecond  ".to_string());
    t.reminder_time = Time::from_hms_opt(9, 15, 0);
    t.status = "completed".to_string();
    t.completed_at = Some(Timestamp::parse_from_rfc3339("2026-06-24T09:00:00Z").unwrap());
    let mut echo = google_payload(&t);
    echo.updated = Some(LATE.to_string());
    assert_eq!(echo.notes, Some("first line\nsecond".to_string()));
    match remote_task_action(None, &echo, &"L".to_string(), "copy".to_string(), ts(0)) {
        TaskAction::Create(back) => {
            assert_eq!(back.title, t.title);
            assert_eq!(back.status, t.status);
            assert_eq!(back.due_date, t.due_date);
            assert_eq!(back.completed_at, t.completed_at);
            assert_eq!(back.reminder_time, None);
            assert_eq!(back.notes, echo.notes);
        }
        other => panic!("unexpected {:?}", other),
    }
    let mut synced = task("x", SyncState::Synced, EARLY);
    synced.reminder_time = Time::from_hms_opt(9, 15, 0);
    match remote_task_action(Some(synced), &echo, &"L".to_string(), "n".to_string(), ts(0)) {
        TaskAction::Update { task, .. } => {
            assert_eq!(task.reminder_time, Time::from_hms_opt(9, 15, 0));
            assert_eq!(task.notes, echo.notes);
        }
        other => panic!("unexpected {:?}", other),
    }

    let mut plain = task("y", SyncState::Pending, EARLY);
    plain.notes = Some("keep\n [Reminder: 10:00] ".to_string());
    let mut echo = google_payload(&plain);
    echo.updated = Some(LATE.to_string());
    match remote_task_action(None, &echo, &"L".to_string(), "copy".to_string(), ts(0)) {
        TaskAction::Create(back) => {
            assert_eq!(back.reminder_time, None);
            assert_eq!(back.notes, Some("keep".to_string()));
            assert_eq!(back.due_date, plain.due_date);
        }
        other => panic!("unexpected {:?}", other),
    }
}

#[test]
fn pushed_tasks_become_synced() {
    let t = task("x", SyncState::Pending, EARLY);
    let mut created = remote("9", LATE);
    created.id = Some("g-new".to_string());
    let done = after_insert(t, &created, ts(0));
    assert_eq!(done.google_id, Some("g-new".to_string()));
    assert_eq!(done.position, Some("002".to_string()));
    assert_eq!(done.sync_state, SyncState::Synced);
    assert_eq!(done.google_updated_at, Timestamp::parse_from_rfc3339(LATE));

    let t = task("y", SyncState::Pending, EARLY);
    let mut updated = remote("9", LATE);
    updated.updated = None;
    let done = after_update(t, &updated, ts(7));
    assert_eq!(done.google_updated_at, Some(ts(7)));
    assert_eq!(done.position, Some("001".to_string()));
}

#[test]
fn remote_lists_are_created_or_renamed() {
    let remote_list = GoogleTaskList { id: "gl".to_string(), title: "Errands".to_string(), updated: None };
    match remote_list_action(None, &remote_list, "local".to_string(), ts(3)) {
        ListAction::Create(l) => {
            assert_eq!(l.id, "local");
            assert_eq!(l.google_id, Some("gl".to_string()));
            assert_eq!(l.position, 0);
            assert!(!l.is_default);
        }
        other => panic!("unexpected {:?}", other),
    }
    let existing = TaskList { id: "l1".to_string(), google_id: Some("gl".to_string()), title: "Old".to_string(), position: 4, is_default: true, updated_at: ts(1) };
    match remote_list_action(Some(existing), &remote_list, "x".to_string(), ts(3)) {
        ListAction::Update(l) => {
            assert_eq!(l.title, "Errands");
            assert_eq!(l.updated_at, ts(3));
            assert_eq!(l.position, 4);
        }
        other => panic!("unexpected {:?}", other),
    }
    let same = TaskList { id: "l1".to_string(), google_id: Some("gl".to_string()), title: "Errands".to_string(), position: 4, is_default: true, updated_at: ts(1) };
    assert!(matches!(remote_list_action(Some(same), &remote_list, "x".to_string(), ts(3)), ListAction::Keep));
}

#[test]
fn lists_gone_from_google_are_detected() {
    let l = TaskList { id: "l1".to_string(), google_id: Some("gl".to_string()), title: "A".to_string(), position: 0, is_default: false, updated_at: ts(1) };
    assert!(is_deleted_remotely(&l, &vec!["other".to_string()]));
    assert!(!is_deleted_remotely(&l, &vec!["other".to_string(), "gl".to_string()]));
    let local_only = TaskList { google_id: None, ..l };
    assert!(!is_deleted_remotely(&local_only, &vec![]));
}

#[test]
fn the_pull_window_overlaps_by_five_seconds() {
    assert_eq!(sync_window(None), None);
    assert_eq!(sync_window(Some(ts(1000))), Some(ts(995)));
}

#[test]
fn reports_count_decisions() {
    let mut report = SyncReport::new();
    report.record_task_action(&TaskAction::Create(task("a", SyncState::Synced, EARLY)));
    report.record_task_action(&TaskAction::HardDelete("b".to_string()));
    report.record_task_action(&TaskAction::KeepLocal { task: task("c", SyncState::Pending, EARLY), notice: "kept".to_string() });
    report.record_task_action(&TaskAction::Skip);
    report.tally(Tally::ListPushed);
    report.tally(Tally::TaskPushed);
    assert_eq!(report.tasks_pulled, 1);
    assert_eq!(report.tasks_deleted, 1);
    assert_eq!(report.lists_pushed, 1);
    assert_eq!(report.tasks_pushed, 1);
    assert_eq!(report.conflicts_resolved, vec!["kept".to_string()]);
}

#[test]
fn api_addresses_and_queries() {
    assert_eq!(task_lists_url(), "https://tasks.googleapis.com/tasks/v1/users/@me/lists");
    assert_eq!(task_list_url("A"), "https://tasks.googleapis.com/tasks/v1/users/@me/lists/A");
    assert_eq!(tasks_url("A"), "https://tasks.googleapis.com/tasks/v1/lists/A/tasks");
    assert_eq!(task_url("A", "B"), "https://tasks.googleapis.com/tasks/v1/lists/A/tasks/B");
    assert_eq!(task_move_url("A", "B"), "https://tasks.googleapis.com/tasks/v1/lists/A/tasks/B/move");

    let q = list_tasks_query(Some(ts(0)), true, false, &Some("tok".to_string()));
    let pairs: Vec<(&str, &str)> = q.iter().map(|(a, b)| (a.as_str(), b.as_str())).collect();
    assert_eq!(pairs, vec![
        ("showCompleted", "true"),
        ("showHidden", "false"),
        ("maxResults", "100"),
        ("updatedMin", "1970-01-01T00:00:00+00:00"),
        ("pageToken", "tok"),
    ]);
    assert!(page_query(&None).is_empty());
    let p = placement_query(&Some("P".to_string()), &None);
    assert_eq!(p, vec![("parent".to_string(), "P".to_string())]);

    let mut acc = vec![1, 2];
    let next = gather_page(&mut acc, Some(vec![3]), Some("n".to_string()));
    assert_eq!(acc, vec![1, 2, 3]);
    assert_eq!(next, Some("n".to_string()));
}

#[test]
fn retries_back_off_and_end() {
    assert_eq!(retry_decision(200, 3, 1), RetryDecision::Success);
    assert_eq!(retry_decision(429, 3, 1), RetryDecision::Retry { wait_secs: 1, retries_left: 2, next_delay_secs: 2 });
    assert_eq!(retry_decision(503, 1, 4), RetryDecision::Retry { wait_secs: 4, retries_left: 0, next_delay_secs: 8 });
    assert_eq!(retry_decision(503, 0, 8), RetryDecision::Fail);
    assert_eq!(retry_decision(404, 3, 1), RetryDecision::Fail);
}

#[test]
fn credential_file_names() {
    assert!(is_client_secret_file_name("client_secret_123.apps.json"));
    assert!(!is_client_secret_file_name("client_secret_123.txt"));
    assert!(!is_client_secret_file_name("oauth_client.json"));
}

#[test]
fn tokens_expire_a_minute_early() {
    let mut m = TokenManager::new(Some("refresh".to_string()));
    assert!(m.has_refresh_token());
    assert_eq!(m.get_access_token_at(0), None);
    let now: u128 = 5_000_000_000;
    m.set_tokens_at("access".to_string(), 3600, None, now);
    assert_eq!(m.refresh_token(), Some("refresh".to_string()));
    assert_eq!(m.get_access_token_at(now), Some("access".to_string()));
    // still valid 3539 s later, expired from 3540 s on
    assert!(m.is_access_token_valid_at(now + 3_539_000_000_000));
    assert!(!m.is_access_token_valid_at(now + 3_540_000_000_000));
    assert!(matches!(m.access_step_at(now), TokenStep::Ready(ref t) if t == "access"));
    assert!(matches!(m.access_step_at(now + 3_600_000_000_000), TokenStep::Refresh(ref t) if t == "refresh"));
    m.set_tokens("a2".to_string(), 3600, Some("r2".to_string()));
    assert_eq!(m.get_access_token(), Some("a2".to_string()));
    assert_eq!(m.refresh_token(), Some("r2".to_string()));
    m.clear();
    assert!(!m.has_refresh_token());
    assert_eq!(m.get_access_token(), None);
    assert!(matches!(m.access_step(), TokenStep::NeedsLogin));
    assert_eq!(needs_login_message(), "No refresh token available. User must log in first.");
}

#[test]
fn token_responses_are_taken_in() {
    let mut m = TokenManager::new(None);
    let access = m.accept_response(TokenResponse {
        access_token: "at".to_string(),
        token_type: "Bearer".to_string(),
        expires_in: 3599,
        refresh_token: None,
        scope: None,
    });
    assert_eq!(access, "at");
    assert_eq!(m.get_access_token(), Some("at".to_string()));
    assert!(!m.has_refresh_token());
}

#[test]
fn oauth_forms() {
    let f = refresh_form(&creds(), &"rt".to_string());
    let names: Vec<&str> = f.iter().map(|(a, _)| a.as_str()).collect();
    assert_eq!(names, vec!["client_id", "client_secret", "refresh_token", "grant_type"]);
    assert_eq!(f[3].1, "refresh_token");
    assert_eq!(f[2].1, "rt");
    let g = code_exchange_form(&creds(), &"code".to_string(), &"ver".to_string(), &"http://localhost:1".to_string());
    assert_eq!(g.len(), 6);
    assert_eq!(g[4], ("grant_type".to_string(), "authorization_code".to_string()));
    assert_eq!(g[5].1, "http://localhost:1");
}

#[test]
fn database_paths() {
    let m = Database::in_memory();
    assert_eq!(m.path(), ":memory:");
    assert!(m.is_in_memory());
    let f = Database::at_path("/tmp/taskflow.db");
    assert_eq!(f.path(), "/tmp/taskflow.db");
    assert!(!f.is_in_memory());
}

#[test]
fn task_rows_read_back() {
    let mut t = task("x", SyncState::Conflict, EARLY);
    t.reminder_time = Time::from_hms_opt(6, 5, 4);
    t.completed_at = Some(Timestamp::from_timestamp(EARLY, 123_000_000).unwrap());
    t.recurrence_rule = Some(RecurrenceRule::Weekly(Weekday::Fri));
    let row = task_to_row(&t);
    assert_eq!(row.due_date, Some("2026-01-01".to_string()));
    assert_eq!(row.reminder_time, Some("06:05:04".to_string()));
    assert_eq!(row.sync_state, "conflict");
    assert_eq!(row.is_deleted, 0);
    assert_eq!(row.starred, 1);
    let back = task_from_row(row).unwrap();
    assert_eq!(back.id, t.id);
    assert_eq!(back.due_date, t.due_date);
    assert_eq!(back.reminder_time, t.reminder_time);
    assert_eq!(back.completed_at, t.completed_at);
    assert_eq!(back.updated_at, t.updated_at);
    assert_eq!(back.sync_state, t.sync_state);
    assert_eq!(back.recurrence_rule, t.recurrence_rule);
    assert!(back.starred);
}

#[test]
fn bad_task_rows_name_their_column() {
    let t = task("x", SyncState::Synced, EARLY);
    let mut row = task_to_row(&t);
    row.due_date = Some("not a date".to_string());
    row.sync_state = "nope".to_string();
    let e = task_from_row(row).unwrap_err();
    assert_eq!(e, RowError::DueDate);
    assert_eq!(e.column(), 6);

    let mut row = task_to_row(&t);
    row.sync_state = "nope".to_string();
    assert_eq!(task_from_row(row).unwrap_err().column(), 13);

    let mut row = task_to_row(&t);
    row.updated_at = "?".to_string();
    assert_eq!(task_from_row(row).unwrap_err(), RowError::UpdatedAt);

    let mut row = task_to_row(&t);
    row.reminder_time = Some("25:00:00".to_string());
    assert_eq!(task_from_row(row).unwrap_err(), RowError::ReminderTime);

    let mut row = task_to_row(&t);
    row.sync_state = "nope".to_string();
    row.updated_at = "?".to_string();
    let lenient = task_from_row_lenient(row, ts(99));
    assert_eq!(lenient.sync_state, SyncState::Pending);
    assert_eq!(lenient.updated_at, ts(99));
}

#[test]
fn list_rows_read_back() {
    let l = TaskList { id: "l".to_string(), google_id: None, title: "Home".to_string(), position: 3, is_default: true, updated_at: ts(EARLY) };
    let row = list_to_row(&l);
    let back = list_from_row(row).unwrap();
    assert_eq!(back.title, "Home");
    assert_eq!(back.updated_at, l.updated_at);
    let mut bad = list_to_row(&l);
    bad.updated_at = "x".to_string();
    assert_eq!(list_from_row(bad).unwrap_err(), RowError::UpdatedAt);
}

#[test]
fn redirect_requests_are_read() {
    match read_auth_request("GET /?state=x&code=4%2Fabc&scope=tasks HTTP/1.1\r\n") {
        AuthRequest::Code(c) => assert_eq!(c, "4/abc"),
        other => panic!("unexpected {:?}", other),
    }
    assert!(matches!(read_auth_request("GET /favicon.ico HTTP/1.1"), AuthRequest::NoCode));
    assert!(matches!(read_auth_request("POST"), AuthRequest::NotGet));
    assert!(matches!(read_auth_request("PUT / HTTP/1.1"), AuthRequest::NotGet));
    match read_auth_request("GET :: HTTP/1.1") {
        AuthRequest::BadUrl(m) => assert!(m.starts_with("Failed to parse redirect URL: ")),
        other => panic!("unexpected {:?}", other),
    }
}

#[test]
fn credential_files_are_chosen() {
    let names = vec!["notes.txt".to_string(), "client_secret_1.json".to_string(), "oauth_client.json".to_string()];
    assert_eq!(credentials_file(&names), Some("oauth_client.json".to_string()));
    let names = vec!["notes.txt".to_string(), "client_secret_9.json".to_string(), "client_secret_1.json".to_string()];
    assert_eq!(credentials_file(&names), Some("client_secret_9.json".to_string()));
    assert_eq!(credentials_file(&vec!["x.json".to_string()]), None);
    assert!(credentials_not_found_message().starts_with("OAuth credentials file not found."));
}

#[test]
fn pushes_and_deletions_step_by_step() {
    let mut fresh = task("n", SyncState::Pending, EARLY);
    fresh.google_id = None;
    match push_step(&fresh, Some("gp".to_string())) {
        PushStep::Insert { payload, parent } => {
            assert_eq!(payload.id, None);
            assert_eq!(parent, Some("gp".to_string()));
        }
        other => panic!("unexpected {:?}", other),
    }
    let known = task("k", SyncState::Pending, EARLY);
    match push_step(&known, None) {
        PushStep::Update { google_id, move_under, .. } => {
            assert_eq!(google_id, "g-k");
            assert_eq!(move_under, None);
        }
        other => panic!("unexpected {:?}", other),
    }

    assert!(pushed_task(known, None, false, ts(0)).is_none());
    let mut created = remote("9", LATE);
    created.id = Some("g-new".to_string());
    let stored = pushed_task(fresh, Some(created), true, ts(0)).unwrap();
    assert_eq!(stored.google_id, Some("g-new".to_string()));
    assert_eq!(stored.sync_state, SyncState::Synced);

    let gone = task("d", SyncState::DeletedPending, EARLY);
    assert!(matches!(deletion_step(&gone, &"L".to_string()), DeleteStep::DeleteRemote(ref g) if g == "g-d"));
    assert!(matches!(deletion_step(&gone, &"M".to_string()), DeleteStep::OtherList));
    let mut local_only = task("e", SyncState::DeletedPending, EARLY);
    local_only.google_id = None;
    assert!(matches!(deletion_step(&local_only, &"L".to_string()), DeleteStep::DeleteLocal));
    assert!(!deletion_failure_warns(&"Google Tasks API error (404 Not Found)".to_string()));
    assert!(deletion_failure_warns(&"Network request failed".to_string()));
}
