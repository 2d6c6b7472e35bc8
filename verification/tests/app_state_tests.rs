use taskflow_core::app_state::{AppEffect, AppMessage, AppModel, InputId, Key, UpdateContext};
use taskflow_core::calendar::{Date, Time};
use taskflow_core::layout::{screen_of, settings_layout, Overlay};
use taskflow_core::models::{SyncState, Task, TaskList, Timestamp};
use taskflow_core::sync::SyncReport;
use taskflow_core::ui::{ActiveView, AppTheme, ViewFadeDirection};

fn date(y: i32, m: u32, d: u32) -> Date {
    Date::from_ymd_opt(y, m, d).unwrap()
}

fn ts(secs: i64) -> Timestamp {
    Timestamp::from_timestamp(secs, 0).unwrap()
}

fn ctx() -> UpdateContext {
    UpdateContext { today: date(2026, 6, 24), utc_today: date(2026, 6, 24), now: ts(1_000), new_id: "fresh".to_string() }
}

fn task(id: &str, title: &str) -> Task {
    Task {
        id: id.to_string(),
        google_id: None,
        list_id: "L1".to_string(),
        title: title.to_string(),
        notes: None,
        status: "needsAction".to_string(),
        due_date: None,
        reminder_time: None,
        parent_id: None,
        position: None,
        completed_at: None,
        updated_at: ts(10),
        google_updated_at: None,
        sync_state: SyncState::Synced,
        is_deleted: false,
        recurrence_rule: None,
        starred: false,
    }
}

fn list(id: &str, title: &str) -> TaskList {
    TaskList { id: id.to_string(), google_id: Some(format!("g{}", id)), title: title.to_string(), position: 1, is_default: true, updated_at: ts(0) }
}

fn app() -> AppModel {
    let mut m = AppModel::new(&Ok(true));
    m.update(AppMessage::LoadedData(Ok((vec![list("L1", "Home")], vec![task("a", "Alpha"), task("b", "Beta")], vec![]))), ctx());
    m
}

#[test]
fn start_up_states() {
    let m = AppModel::new(&Ok(false));
    assert_eq!(m.status_message, "Not authenticated. Log in from settings.");
    assert!(!m.authenticated);
    let e = AppModel::new(&Err("no keyring".to_string()));
    assert_eq!(e.keyring_error, Some("no keyring".to_string()));
    let mut m = AppModel::new(&Ok(true));
    assert!(matches!(m.update(AppMessage::Init(Ok(true)), ctx()), AppEffect::LoadData(ActiveView::Today)));
    assert!(matches!(m.update(AppMessage::Init(Err("x".to_string())), ctx()), AppEffect::Nothing));
    assert_eq!(m.keyring_error, Some("x".to_string()));
}

#[test]
fn quick_add_makes_a_pending_task() {
    let mut m = app();
    m.update(AppMessage::QuickAddChanged("Pay rent tomorrow".to_string()), ctx());
    match m.update(AppMessage::QuickAddSubmit, ctx()) {
        AppEffect::StoreNewTask { task, view } => {
            assert_eq!(task.title, "Pay rent");
            assert_eq!(task.id, "fresh");
            assert_eq!(task.list_id, "L1");
            assert_eq!(task.due_date, Some(date(2026, 6, 25)));
            assert_eq!(task.sync_state, SyncState::Pending);
            assert!(matches!(view, ActiveView::Today));
        }
        other => panic!("unexpected {:?}", other),
    }
    assert!(m.quick_add_text.is_empty());
}

#[test]
fn completing_animates_first_and_reopening_stores() {
    let mut m = app();
    assert!(matches!(m.update(AppMessage::ToggleComplete("a".to_string()), ctx()), AppEffect::StartCompleting(ref id) if id == "a"));
    assert!(matches!(m.update(AppMessage::CompletionDone("a".to_string()), ctx()), AppEffect::StoreToggleComplete { ref id, .. } if id == "a"));
    assert!(matches!(m.update(AppMessage::ToggleComplete("zz".to_string()), ctx()), AppEffect::StoreToggleComplete { .. }));
}

#[test]
fn starring_shows_at_once() {
    let mut m = app();
    m.update(AppMessage::ToggleStarred("b".to_string()), ctx());
    assert!(m.tasks[1].starred);
    assert!(!m.tasks[0].starred);
}

#[test]
fn the_palette_opens_moves_and_runs() {
    let mut m = app();
    let open = m.update(AppMessage::KeyPressed { control: true, key: Key::Char("k".to_string()) }, ctx());
    assert!(matches!(open, AppEffect::Focus(InputId::CommandPalette)));
    assert!(m.command_palette_open);
    m.update(AppMessage::CommandPaletteChanged("mode".to_string()), ctx());
    m.update(AppMessage::KeyPressed { control: false, key: Key::ArrowDown }, ctx());
    assert_eq!(m.selected_palette_index, 0);
    m.update(AppMessage::KeyPressed { control: false, key: Key::Enter }, ctx());
    assert!(!m.command_palette_open);
    assert_eq!(m.theme, AppTheme::Light);
}

#[test]
fn keys_move_the_selection() {
    let mut m = app();
    assert!(matches!(m.update(AppMessage::KeyPressed { control: false, key: Key::Char("j".to_string()) }, ctx()), AppEffect::LoadSubtasks(ref id) if id == "a"));
    assert_eq!(m.detail.title, "Alpha");
    m.update(AppMessage::KeyPressed { control: false, key: Key::ArrowDown }, ctx());
    assert_eq!(m.selected_task_id, Some("b".to_string()));
    m.update(AppMessage::KeyPressed { control: false, key: Key::ArrowUp }, ctx());
    assert_eq!(m.selected_task_id, Some("a".to_string()));
    assert!(matches!(m.update(AppMessage::KeyPressed { control: false, key: Key::Space }, ctx()), AppEffect::StartCompleting(_)));
    m.update(AppMessage::KeyPressed { control: false, key: Key::Escape }, ctx());
    assert_eq!(m.selected_task_id, None);
    m.update(AppMessage::KeyPressed { control: true, key: Key::Char("1".to_string()) }, ctx());
    assert!(matches!(m.pending_view, Some(ActiveView::List(ref id)) if id == "L1"));
    assert_eq!(m.view_fade_direction, ViewFadeDirection::FadeOut);
    assert!(matches!(m.update(AppMessage::FadeOutDone, ctx()), AppEffect::LoadData(ActiveView::List(_))));
    assert_eq!(m.view_fade_direction, ViewFadeDirection::FadeIn);
}

#[test]
fn sync_outcomes() {
    let mut m = app();
    assert!(matches!(m.update(AppMessage::TriggerSync, ctx()), AppEffect::RunSync));
    assert!(m.syncing);
    assert!(matches!(m.update(AppMessage::TriggerSync, ctx()), AppEffect::Nothing));
    m.update(AppMessage::SyncFinished(Err("dns error: no such host".to_string())), ctx());
    assert!(!m.syncing && m.offline);
    assert_eq!(m.status_message, "Sync failed: dns error: no such host");
    m.update(AppMessage::TriggerSync, ctx());
    m.update(AppMessage::SyncFinished(Err("Failed to refresh token: invalid_grant".to_string())), ctx());
    assert!(m.token_revoked && !m.authenticated);
    assert!(matches!(m.update(AppMessage::TriggerSync, ctx()), AppEffect::Nothing));
    assert_eq!(m.status_message, "Authenticate first to sync.");
    m.update(AppMessage::AuthFinished(Ok(())), ctx());
    assert!(m.authenticated && !m.token_revoked);
    m.update(AppMessage::TriggerSync, ctx());
    assert!(matches!(m.update(AppMessage::SyncFinished(Ok(SyncReport::new())), ctx()), AppEffect::SyncSucceeded(_)));
    assert_eq!(m.status_message, "Sync success! Lists: +0/^0, Tasks: +0/^0/-0");
}

#[test]
fn lists_are_created_and_deleted() {
    let mut m = app();
    m.update(AppMessage::StartCreateList, ctx());
    assert!(m.creating_list);
    m.update(AppMessage::NewListTitleChanged(" Errands ".to_string()), ctx());
    match m.update(AppMessage::CreateList, ctx()) {
        AppEffect::StoreNewList(l) => {
            assert_eq!(l.title, "Errands");
            assert_eq!(l.position, 2);
            assert_eq!(l.id, "fresh");
        }
        other => panic!("unexpected {:?}", other),
    }
    let e = m.update(AppMessage::ListCreated(Ok((vec![list("L1", "Home")], vec![], vec![], "L2".to_string()))), ctx());
    assert!(matches!(e, AppEffect::RunSync));
    assert!(matches!(m.active_view, ActiveView::List(ref id) if id == "L2"));
    assert_eq!(m.status_message, "Syncing with Google Tasks...");
    match m.update(AppMessage::DeleteList("L2".to_string()), ctx()) {
        AppEffect::DeleteList { list_id, google_id, authenticated } => {
            assert_eq!(list_id, "L2");
            assert_eq!(google_id, None);
            assert!(authenticated);
        }
        other => panic!("unexpected {:?}", other),
    }
    assert!(matches!(m.active_view, ActiveView::Today));
}

#[test]
fn details_edit_the_selected_task() {
    let mut m = app();
    m.update(AppMessage::SelectTask(Some("b".to_string())), ctx());
    assert!(matches!(m.update(AppMessage::DetailTitleChanged("Beta 2".to_string()), ctx()), AppEffect::StoreTitle { .. }));
    assert_eq!(m.tasks[1].title, "Beta 2");
    assert!(matches!(m.update(AppMessage::DetailNotesChanged("   ".to_string()), ctx()), AppEffect::StoreNotes { notes: None, .. }));
    m.update(AppMessage::DetailDueDateStrChanged("friday".to_string()), ctx());
    m.update(AppMessage::DetailReminderTimeStrChanged("7pm".to_string()), ctx());
    match m.update(AppMessage::SaveDateTime, ctx()) {
        AppEffect::StoreSchedule { id, due, reminder, .. } => {
            assert_eq!(id, "b");
            assert_eq!(due, Some(date(2026, 6, 26)));
            assert_eq!(reminder, Time::from_hms_opt(19, 0, 0));
        }
        other => panic!("unexpected {:?}", other),
    }
    assert_eq!(m.detail.due_date, "2026-06-26");
    assert_eq!(m.detail.reminder_time, "19:00");
    m.update(AppMessage::NewSubtaskTitleChanged(" step ".to_string()), ctx());
    assert!(matches!(m.update(AppMessage::AddSubtask, ctx()), AppEffect::AddSubtask { ref title, .. } if title == "step"));
    m.update(AppMessage::DeleteTask("b".to_string()), ctx());
    assert_eq!(m.selected_task_id, None);
}

#[test]
fn the_screen_parts_follow_the_state() {
    let mut m = app();
    let s = screen_of(&m);
    assert_eq!(s.keyring_error, None);
    assert!(!s.offline_banner && !s.detail_panel);
    assert_eq!(s.overlay, Overlay::Nothing);

    m.selected_task_id = Some("a".to_string());
    m.command_palette_open = true;
    m.offline = true;
    let s = screen_of(&m);
    assert!(s.offline_banner && s.detail_panel);
    assert_eq!(s.overlay, Overlay::Palette);

    m.token_revoked = true;
    m.active_view = ActiveView::Settings;
    let s = screen_of(&m);
    assert!(!s.detail_panel);
    assert_eq!(s.overlay, Overlay::Revocation);

    let e = AppModel::new(&Err("no keyring".to_string()));
    assert_eq!(screen_of(&e).keyring_error, Some("no keyring".to_string()));

    let out = settings_layout(false, AppTheme::Light, 5);
    assert_eq!(out.account_text, "Synchronize tasks locally and with Google Cloud");
    assert_eq!(out.account_button, "Connect Google Account");
    assert_eq!(out.theme_label, "Light Mode");
    assert_eq!(out.intervals, vec![(1, false), (2, false), (5, true), (10, false), (15, false)]);
    let signed_in = settings_layout(true, AppTheme::Dark, 7);
    assert_eq!(signed_in.account_button, "Disconnect Google Account");
    assert_eq!(signed_in.theme_label, "Dark Mode");
    assert!(signed_in.intervals.iter().all(|(_, on)| !on));
}
