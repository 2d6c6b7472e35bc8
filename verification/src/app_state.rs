//! The desktop app as a state machine: its state, the messages it reacts
//! to, and for each message the next state and the work to do (an effect).
//! The app shell draws the state, keeps the animation timers, performs the
//! effects and sends the results back as messages.
use crate::calendar::{Date, Time};
use crate::models::{SyncState, Task, TaskList, Timestamp};
use crate::notes::opt_view;
use crate::sync::SyncReport;
use crate::text::{chars_of, string_of, trim_by, trim_set, words, TrimSet};
use crate::ui::{
    classify_sync_error, detail_due_date, detail_fields, detail_reminder_time, is_keyring_error,
    nav_down, nav_order, nav_up, new_list, newly_shown, next_list_position, notes_from_input,
    palette_matches, quick_add, same_string, startup_status, sync_success_message, ActiveView,
    AppTheme, DetailFields, PaletteCommand, QuickAdd, SyncFailure, ViewFadeDirection,
};
use vstd::prelude::*;

verus! {

/// What the app shows and remembers (timers of animations aside).
#[derive(Debug)]
pub struct AppModel {
    pub theme: AppTheme,
    pub active_view: ActiveView,
    pub lists: Vec<TaskList>,
    pub tasks: Vec<Task>,
    pub quick_add_text: String,
    pub syncing: bool,
    pub status_message: String,
    pub authenticated: bool,
    pub pending_view: Option<ActiveView>,
    pub view_fade_direction: ViewFadeDirection,
    pub selected_task_id: Option<String>,
    pub command_palette_open: bool,
    pub command_palette_text: String,
    pub selected_palette_index: usize,
    pub sync_interval_mins: u32,
    pub completed_section_collapsed: bool,
    pub creating_list: bool,
    pub new_list_title: String,
    pub keyring_error: Option<String>,
    pub offline: bool,
    pub token_revoked: bool,
    pub detail: DetailFields,
    pub new_subtask_title: String,
    pub detail_subtasks: Vec<Task>,
    /// Completed and total subtasks of the tasks that have any.
    pub subtask_counts: Vec<(String, usize, usize)>,
}

/// The text inputs the app can focus.
#[derive(Debug, Clone, Copy, PartialEq, Eq, Structural)]
pub enum InputId {
    NewList,
    CommandPalette,
    QuickAdd,
}

/// A key press.
#[derive(Debug)]
pub enum Key {
    /// A character key, as the text it types.
    Char(String),
    Escape,
    ArrowDown,
    ArrowUp,
    Enter,
    Space,
    Other,
}

/// What the app reacts to.
#[derive(Debug)]
pub enum AppMessage {
    /// Start-up or retry: what reading the stored sign-in gave (whether a
    /// refresh token is stored, or the keyring's error).
    Init(Result<bool, String>),
    Nothing,
    LoadedData(Result<(Vec<TaskList>, Vec<Task>, Vec<(String, usize, usize)>), String>),
    SelectTask(Option<String>),
    LoadedSubtasks(Result<Vec<Task>, String>),
    LoadedDataAndSubtasks(Vec<TaskList>, Vec<Task>, Vec<Task>, Vec<(String, usize, usize)>),
    DetailTitleChanged(String),
    DetailNotesChanged(String),
    DetailDueDateStrChanged(String),
    DetailReminderTimeStrChanged(String),
    SaveDateTime,
    SetDueDateShortcut(Option<Date>),
    NewSubtaskTitleChanged(String),
    AddSubtask,
    DeleteTask(String),
    DeleteSubtask(String),
    ToggleSubtaskComplete(String),
    SelectView(ActiveView),
    /// The fade-out of a view change ended.
    FadeOutDone,
    /// The fade-in of a view change ended.
    FadeInDone,
    ToggleComplete(String),
    /// The completion animation of a task ended.
    CompletionDone(String),
    ToggleStarred(String),
    QuickAddChanged(String),
    QuickAddSubmit,
    StartCreateList,
    CancelCreateList,
    NewListTitleChanged(String),
    CreateList,
    ListCreated(Result<(Vec<TaskList>, Vec<Task>, Vec<(String, usize, usize)>, String), String>),
    DeleteList(String),
    TriggerSync,
    SyncFinished(Result<SyncReport, String>),
    Authenticate,
    AuthFinished(Result<(), String>),
    Logout,
    /// A key was pressed, with or without Control.
    KeyPressed { control: bool, key: Key },
    CommandPaletteChanged(String),
    CommandPaletteSubmit,
    ToggleTheme,
    SetSyncInterval(u32),
    ToggleCompletedSection,
    CloseRevocationModal,
}

/// The work the app shell does after a message.
#[derive(Debug)]
pub enum AppEffect {
    Nothing,
    /// Reload the lists, the tasks of this view and the subtask counts.
    LoadData(ActiveView),
    /// Load the subtasks of the given task.
    LoadSubtasks(String),
    Focus(InputId),
    /// Start the completion animation of the given task.
    StartCompleting(String),
    /// Complete or reopen the given task in the store (spawning the next
    /// occurrence of a completed recurring task), then reload the view.
    StoreToggleComplete { id: String, view: ActiveView },
    /// Star or unstar the given task in the store, then reload (with the
    /// subtasks of `parent` where given).
    StoreToggleStar { id: String, view: ActiveView, parent: Option<String> },
    /// Store this new task, then reload the view.
    StoreNewTask { task: Task, view: ActiveView },
    /// Store this new list, then load it.
    StoreNewList(TaskList),
    /// Delete this list (on Google too where it is there and the user is
    /// signed in), then reload the Today view.
    DeleteList { list_id: String, google_id: Option<String>, authenticated: bool },
    StoreTitle { id: String, title: String },
    StoreNotes { id: String, notes: Option<String> },
    StoreSchedule { id: String, due: Option<Date>, reminder: Option<Time>, view: ActiveView },
    StoreDue { id: String, due: Option<Date>, view: ActiveView },
    AddSubtask { parent_id: String, title: String, view: ActiveView },
    SoftDelete { id: String, view: ActiveView },
    DeleteSubtask { id: String, parent_id: String, view: ActiveView },
    ToggleSubtask { id: String, parent_id: String, view: ActiveView },
    RunSync,
    /// The sync succeeded: flash the success mark and reload the view.
    SyncSucceeded(ActiveView),
    /// The sync failed: stop the success mark.
    SyncFailed,
    RunAuthentication,
    /// Start over as at start-up (read the stored sign-in again).
    Restart,
    /// Delete the stored tokens, then start over.
    SignOut,
    /// Start the appear animation of these new rows; `clear` drops any
    /// running ones first.
    AnimateNew { ids: Vec<String>, clear: bool },
}

/// What an update needs from outside: the local date (for typed dates), the
/// UTC date (for the Today view's navigation), the current instant, and a
/// fresh id for a new task or list.
#[derive(Debug)]
pub struct UpdateContext {
    pub today: Date,
    pub utc_today: Date,
    pub now: Timestamp,
    pub new_id: String,
}

/// The quick-add box can be read: each relative date word typed in it names
/// a date in chrono's range.
pub open spec fn quick_add_ok(m: AppModel, ctx: UpdateContext) -> bool {
    crate::parser::relative_dates_ok(words(trim_by(m.quick_add_text@, TrimSet::WhiteSpace)), ctx.today.ymd())
}

/// The typed due date and reminder time can be read: each relative date
/// word in them names a date in chrono's range.
pub open spec fn date_time_ok(m: AppModel, ctx: UpdateContext) -> bool {
    &&& crate::parser::relative_dates_ok(words(m.detail.due_date@), ctx.today.ymd())
    &&& crate::parser::relative_dates_ok(words("at "@ + m.detail.reminder_time@), ctx.today.ymd())
}

/// Every list position leaves room for one more.
pub open spec fn positions_ok(lists: Seq<TaskList>) -> bool {
    forall|i: int| 0 <= i < lists.len() ==> lists[i].position < i32::MAX
}

/// The first task with id `id`, if any.
pub open spec fn find_task(tasks: Seq<Task>, id: Seq<char>) -> Option<int>
    decreases tasks.len(),
{
    if tasks.len() == 0 {
        None
    } else if tasks[0].id@ == id {
        Some(0)
    } else {
        match find_task(tasks.drop_first(), id) {
            Some(i) => Some(i + 1),
            None => None,
        }
    }
}

proof fn lemma_find_task(tasks: Seq<Task>, id: Seq<char>)
    ensures
        find_task(tasks, id) matches Some(i) ==> 0 <= i < tasks.len() && tasks[i].id@ == id && forall|
            j: int,
        | 0 <= j < i ==> tasks[j].id@ != id,
        find_task(tasks, id) is None ==> forall|j: int| 0 <= j < tasks.len() ==> tasks[j].id@ != id,
    decreases tasks.len(),
{
    if tasks.len() > 0 {
        lemma_find_task(tasks.drop_first(), id);
        assert forall|j: int| 0 < j < tasks.len() implies tasks[j] == tasks.drop_first()[j - 1] by {}
    }
}

fn find_task_exec(tasks: &Vec<Task>, id: &String) -> (r: Option<usize>)
    ensures
        match find_task(tasks@, id@) {
            Some(i) => r == Some(i as usize),
            None => r is None,
        },
        r matches Some(i) ==> i < tasks@.len() && tasks@[i as int].id@ == id@,
{
    proof {
        lemma_find_task(tasks@, id@);
    }
    let mut i: usize = 0;
    while i < tasks.len()
        invariant
            i <= tasks@.len(),
            forall|j: int| 0 <= j < i ==> tasks@[j].id@ != id@,
            find_task(tasks@, id@) matches Some(k) ==> 0 <= k < tasks@.len() && tasks@[k].id@ == id@
                && forall|j: int| 0 <= j < k ==> tasks@[j].id@ != id@,
            find_task(tasks@, id@) is None ==> forall|j: int|
                0 <= j < tasks@.len() ==> tasks@[j].id@ != id@,
        decreases tasks.len() - i,
    {
        if same_string(&tasks[i].id, id) {
            return Some(i);
        }
        i += 1;
    }
    None
}

/// `tasks` with the starred flag of the first task `id` flipped (none
/// flipped where no task has that id).
pub open spec fn star_flipped(tasks: Seq<Task>, id: Seq<char>) -> Seq<Task> {
    match find_task(tasks, id) {
        Some(i) => tasks.update(i, Task { starred: !tasks[i].starred, ..tasks[i] }),
        None => tasks,
    }
}

fn flip_star(tasks: &mut Vec<Task>, id: &String)
    ensures
        final(tasks)@ == star_flipped(old(tasks)@, id@),
{
    proof {
        lemma_find_task(old(tasks)@, id@);
    }
    match find_task_exec(tasks, id) {
        Some(i) => {
            let ghost k = find_task(old(tasks)@, id@)->0;
            assert(k == i as int);
            let mut t = tasks[i].clone_task();
            t.starred = !t.starred;
            assert(t == Task { starred: !old(tasks)@[k].starred, ..old(tasks)@[k] });
            tasks.set(i, t);
            assert(tasks@ =~= old(tasks)@.update(k, t));
        },
        None => {},
    }
}

/// `tasks` with the first task `id` given the field value `f` sets.
pub open spec fn title_set(tasks: Seq<Task>, id: Seq<char>, title: String) -> Seq<Task> {
    match find_task(tasks, id) {
        Some(i) => tasks.update(i, Task { title: title, ..tasks[i] }),
        None => tasks,
    }
}

/// `tasks` with the notes of the first task `id` replaced.
pub open spec fn notes_set(tasks: Seq<Task>, id: Seq<char>, notes: Option<String>) -> Seq<Task> {
    match find_task(tasks, id) {
        Some(i) => tasks.update(i, Task { notes: notes, ..tasks[i] }),
        None => tasks,
    }
}

/// A task of `tasks` that is shown as open.
pub open spec fn is_open_task(tasks: Seq<Task>, id: Seq<char>) -> bool {
    find_task(tasks, id) matches Some(i) && tasks[i].status@ != "completed"@
}

/// The detail fields of the task `id` in `tasks`, or empty ones.
pub open spec fn detail_of(d: DetailFields, tasks: Seq<Task>, id: Seq<char>) -> bool {
    match find_task(tasks, id) {
        Some(i) => {
            let t = tasks[i];
            &&& d.title@ == t.title@
            &&& d.notes@ == (match t.notes {
                Some(n) => n@,
                None => Seq::<char>::empty(),
            })
            &&& d.due_date@ == (match t.due_date {
                Some(x) => crate::db::date_text(x),
                None => Seq::<char>::empty(),
            })
            &&& d.reminder_time@ == (match t.reminder_time {
                Some(x) => crate::calendar::chrono_formatted_time(x.hms(), "%H:%M"@),
                None => Seq::<char>::empty(),
            })
        },
        None => empty_detail(d),
    }
}

/// All detail fields are empty.
pub open spec fn empty_detail(d: DetailFields) -> bool {
    d.title@.len() == 0 && d.notes@.len() == 0 && d.due_date@.len() == 0 && d.reminder_time@.len()
        == 0
}

impl AppModel {
    /// The state at start-up, given what reading the stored sign-in gave.
    pub fn new(keyring: &Result<bool, String>) -> (r: AppModel)
        ensures
            r.theme == AppTheme::Dark,
            r.active_view is Today,
            r.lists@.len() == 0 && r.tasks@.len() == 0,
            r.status_message@ == (match keyring {
                Err(_) => "Keyring error occurred."@,
                Ok(true) => "Logged in. Hit Sync to refresh."@,
                Ok(false) => "Not authenticated. Log in from settings."@,
            }),
            r.authenticated == (keyring == &Ok::<bool, String>(true)),
            opt_view(r.keyring_error) == (match keyring {
                Err(e) => Some(e@),
                Ok(_) => None,
            }),
            !r.syncing && !r.offline && !r.token_revoked && !r.creating_list,
            r.view_fade_direction == ViewFadeDirection::Idle,
            r.selected_task_id is None && r.pending_view is None,
            !r.command_palette_open && r.selected_palette_index == 0,
            r.sync_interval_mins == 5,
            r.completed_section_collapsed,
            empty_detail(r.detail),
    {
        AppModel {
            theme: AppTheme::Dark,
            active_view: ActiveView::Today,
            lists: Vec::new(),
            tasks: Vec::new(),
            quick_add_text: String::new(),
            syncing: false,
            status_message: startup_status(keyring),
            authenticated: match keyring {
                Ok(b) => *b,
                Err(_) => false,
            },
            pending_view: None,
            view_fade_direction: ViewFadeDirection::Idle,
            selected_task_id: None,
            command_palette_open: false,
            command_palette_text: String::new(),
            selected_palette_index: 0,
            sync_interval_mins: 5,
            completed_section_collapsed: true,
            creating_list: false,
            new_list_title: String::new(),
            keyring_error: match keyring {
                Err(e) => Some(e.clone()),
                Ok(_) => None,
            },
            offline: false,
            token_revoked: false,
            detail: detail_fields(None),
            new_subtask_title: String::new(),
            detail_subtasks: Vec::new(),
            subtask_counts: Vec::new(),
        }
    }

    /// Start-up or retry: a keyring error stops here; otherwise the sign-in
    /// state is taken and the view loaded.
    pub fn on_init(&mut self, keyring: Result<bool, String>) -> (r: AppEffect)
        ensures
            post_init(*old(self), *final(self), r, keyring),
    {
        match keyring {
            Err(e) => {
                self.keyring_error = Some(e);
                AppEffect::Nothing
            },
            Ok(b) => {
                self.keyring_error = None;
                self.authenticated = b;
                AppEffect::LoadData(self.active_view.clone_view())
            },
        }
    }

    /// Fresh data arrived: rows that were not shown before start their
    /// appear animation where no view change is running.
    pub fn on_loaded_data(
        &mut self,
        lists: Vec<TaskList>,
        tasks: Vec<Task>,
        counts: Vec<(String, usize, usize)>,
    ) -> (r: AppEffect)
        ensures
            post_loaded_data(*old(self), *final(self), r, lists, tasks, counts),
    {
        let r = if self.view_fade_direction == ViewFadeDirection::Idle {
            AppEffect::AnimateNew { ids: newly_shown(&self.tasks, &tasks), clear: false }
        } else {
            AppEffect::AnimateNew { ids: Vec::new(), clear: true }
        };
        self.lists = lists;
        self.tasks = tasks;
        self.subtask_counts = counts;
        r
    }

    /// Sets the status line to `prefix` followed by `detail`.
    fn set_status(&mut self, prefix: &str, detail: &String)
        ensures
            *final(self) == (AppModel { status_message: final(self).status_message, ..*old(self) }),
            final(self).status_message@ == prefix@ + detail@,
    {
        let mut s = String::from_str(prefix);
        s.append(detail.as_str());
        self.status_message = s;
    }

    /// Asks for another view: nothing where it is shown, else the fade-out
    /// starts towards it.
    pub fn on_select_view(&mut self, view: ActiveView) -> (r: AppEffect)
        ensures
            post_select_view(*old(self), *final(self), r, view),
    {
        if !self.active_view.is_same(&view) {
            self.pending_view = Some(view);
            self.view_fade_direction = ViewFadeDirection::FadeOut;
        }
        AppEffect::Nothing
    }

    /// The fade-out ended: the asked-for view becomes the shown one, the
    /// quick-add box empties, the fade-in starts and the view loads.
    pub fn on_fade_out_done(&mut self) -> (r: AppEffect)
        ensures
            post_fade_out_done(*old(self), *final(self), r),
    {
        let pending = self.pending_view.take();
        match pending {
            Some(v) => {
                let load = v.clone_view();
                self.active_view = v;
                self.quick_add_text = String::new();
                self.view_fade_direction = ViewFadeDirection::FadeIn;
                AppEffect::LoadData(load)
            },
            None => AppEffect::Nothing,
        }
    }

    /// Completes or reopens a task: completing an open task first plays its
    /// animation; a completed (or unknown) task is reopened in the store.
    pub fn on_toggle_complete(&mut self, id: String) -> (r: AppEffect)
        ensures
            post_toggle_complete(*old(self), *final(self), r, id),
    {
        proof {
            lemma_find_task(self.tasks@, id@);
        }
        match find_task_exec(&self.tasks, &id) {
            Some(i) => {
                assert(find_task(self.tasks@, id@) == Some(i as int));
                if !self.tasks[i].is_completed() {
                    return AppEffect::StartCompleting(id);
                }
            },
            None => {},
        }
        AppEffect::StoreToggleComplete { id, view: self.active_view.clone_view() }
    }

    /// Stars or unstars a task (in the shown rows and subtasks at once) and
    /// in the store.
    pub fn on_toggle_starred(&mut self, id: String) -> (r: AppEffect)
        ensures
            post_toggle_starred(*old(self), *final(self), r, id),
    {
        flip_star(&mut self.tasks, &id);
        flip_star(&mut self.detail_subtasks, &id);
        let parent = crate::models::clone_opt_string(&self.selected_task_id);
        AppEffect::StoreToggleStar { id, view: self.active_view.clone_view(), parent }
    }

    /// Submits the quick-add box: it empties; a title makes a new task in
    /// the list and with the date `quick_add` picks.
    pub fn on_quick_add_submit(&mut self, ctx: UpdateContext) -> (r: AppEffect)
        requires
            quick_add_ok(*old(self), ctx),
        ensures
            post_quick_add_submit(*old(self), *final(self), r, ctx),
    {
        let text = self.quick_add_text.clone();
        self.quick_add_text = String::new();
        match quick_add(text.as_str(), &self.active_view, &self.lists, ctx.today, ctx.new_id, ctx.now) {
            QuickAdd::Ignore => AppEffect::Nothing,
            QuickAdd::NeedList => {
                self.status_message = String::from_str("Create a task list first.");
                AppEffect::Nothing
            },
            QuickAdd::Create(task) => AppEffect::StoreNewTask {
                task,
                view: self.active_view.clone_view(),
            },
        }
    }
}

impl AppModel {
    /// A new list arrived in the store: it is shown at once; a signed-in
    /// user's data is synced right away.
    pub fn on_list_created(
        &mut self,
        lists: Vec<TaskList>,
        tasks: Vec<Task>,
        counts: Vec<(String, usize, usize)>,
        list_id: String,
    ) -> (r: AppEffect)
        ensures
            post_list_created(*old(self), *final(self), r, lists, tasks, counts, list_id),
    {
        self.creating_list = false;
        self.new_list_title = String::new();
        self.active_view = ActiveView::List(list_id);
        self.pending_view = None;
        self.view_fade_direction = ViewFadeDirection::Idle;
        self.lists = lists;
        self.tasks = tasks;
        self.subtask_counts = counts;
        if self.authenticated {
            self.status_message = String::from_str("List created. Syncing with Google Tasks...");
            self.on_trigger_sync()
        } else {
            self.status_message = String::from_str("List created (pending sync).");
            AppEffect::Nothing
        }
    }

    /// Starts a sync: only when signed in and no sync is running.
    pub fn on_trigger_sync(&mut self) -> (r: AppEffect)
        ensures
            post_trigger_sync(*old(self), *final(self), r),
    {
        if !self.authenticated {
            self.status_message = String::from_str("Authenticate first to sync.");
            return AppEffect::Nothing;
        }
        if self.syncing {
            return AppEffect::Nothing;
        }
        self.syncing = true;
        self.status_message = String::from_str("Syncing with Google Tasks...");
        AppEffect::RunSync
    }

    /// A sync ended: a success shows its counts and reloads; a failure
    /// shows its error and marks the app offline or signed out where the
    /// error says so.
    pub fn on_sync_finished(&mut self, result: Result<SyncReport, String>) -> (r: AppEffect)
        ensures
            post_sync_finished(*old(self), *final(self), r, result),
    {
        self.syncing = false;
        match result {
            Ok(report) => {
                self.offline = false;
                self.token_revoked = false;
                self.status_message = sync_success_message(&report);
                AppEffect::SyncSucceeded(self.active_view.clone_view())
            },
            Err(e) => {
                self.set_status("Sync failed: ", &e);
                match classify_sync_error(e.as_str()) {
                    SyncFailure::Offline => {
                        self.offline = true;
                    },
                    SyncFailure::Revoked => {
                        self.token_revoked = true;
                        self.authenticated = false;
                    },
                    SyncFailure::Other => {},
                }
                AppEffect::SyncFailed
            },
        }
    }

    /// Sign-in ended: success restarts signed in; a failure is shown, and
    /// a keyring failure also shown as such.
    pub fn on_auth_finished(&mut self, result: Result<(), String>) -> (r: AppEffect)
        ensures
            post_auth_finished(*old(self), *final(self), r, result),
    {
        match result {
            Ok(()) => {
                self.authenticated = true;
                self.token_revoked = false;
                self.offline = false;
                self.status_message = String::from_str("Successfully authenticated! Run sync.");
                AppEffect::Restart
            },
            Err(e) => {
                self.set_status("Authentication failed: ", &e);
                if is_keyring_error(e.as_str()) {
                    self.keyring_error = Some(e);
                }
                AppEffect::Nothing
            },
        }
    }

    /// Selects a task (or none): the detail panel shows its fields, and its
    /// subtasks load.
    pub fn on_select_task(&mut self, id: Option<String>) -> (r: AppEffect)
        ensures
            post_select_task(*old(self), *final(self), r, id),
    {
        self.selected_task_id = crate::models::clone_opt_string(&id);
        self.new_subtask_title = String::new();
        self.detail_subtasks = Vec::new();
        match id {
            Some(i) => {
                proof {
                    lemma_find_task(self.tasks@, i@);
                }
                let found = find_task_exec(&self.tasks, &i);
                self.detail = match found {
                    Some(k) => detail_fields(Some(&self.tasks[k])),
                    None => detail_fields(None),
                };
                AppEffect::LoadSubtasks(i)
            },
            None => {
                self.detail = detail_fields(None);
                AppEffect::Nothing
            },
        }
    }

    /// The title typed in the detail panel: shown at once and stored.
    pub fn on_detail_title(&mut self, title: String) -> (r: AppEffect)
        ensures
            post_detail_title(*old(self), *final(self), r, title),
    {
        self.detail.title = title.clone();
        match &self.selected_task_id {
            Some(id) => {
                let id = id.clone();
                proof {
                    lemma_find_task(self.tasks@, id@);
                }
                match find_task_exec(&self.tasks, &id) {
                    Some(k) => {
                        let mut t = self.tasks[k].clone_task();
                        t.title = title.clone();
                        self.tasks.set(k, t);
                    },
                    None => {},
                }
                AppEffect::StoreTitle { id, title }
            },
            None => AppEffect::Nothing,
        }
    }

    /// The notes typed in the detail panel: shown at once and stored (none
    /// where only white space was typed).
    pub fn on_detail_notes(&mut self, notes: String) -> (r: AppEffect)
        ensures
            post_detail_notes(*old(self), *final(self), r, notes),
    {
        self.detail.notes = notes.clone();
        match &self.selected_task_id {
            Some(id) => {
                let id = id.clone();
                let stored = notes_from_input(&notes);
                proof {
                    lemma_find_task(self.tasks@, id@);
                }
                match find_task_exec(&self.tasks, &id) {
                    Some(k) => {
                        let mut t = self.tasks[k].clone_task();
                        t.notes = crate::models::clone_opt_string(&stored);
                        self.tasks.set(k, t);
                    },
                    None => {},
                }
                AppEffect::StoreNotes { id, notes: stored }
            },
            None => AppEffect::Nothing,
        }
    }

    /// Saves the typed due date and reminder time of the selected task; the
    /// fields show them as read.
    pub fn on_save_date_time(&mut self, ctx: UpdateContext) -> (r: AppEffect)
        requires
            date_time_ok(*old(self), ctx),
        ensures
            post_save_date_time(*old(self), *final(self), r, ctx),
    {
        match &self.selected_task_id {
            Some(id) => {
                let id = id.clone();
                let due = detail_due_date(&self.detail.due_date, ctx.today);
                let reminder = detail_reminder_time(&self.detail.reminder_time, ctx.today);
                self.detail.due_date = match due {
                    Some(d) => d.format("%Y-%m-%d"),
                    None => String::new(),
                };
                self.detail.reminder_time = match reminder {
                    Some(t) => t.format("%H:%M"),
                    None => String::new(),
                };
                AppEffect::StoreSchedule { id, due, reminder, view: self.active_view.clone_view() }
            },
            None => AppEffect::Nothing,
        }
    }

    /// Sets the due date of the selected task from a shortcut.
    pub fn on_set_due_shortcut(&mut self, due: Option<Date>) -> (r: AppEffect)
        ensures
            post_set_due_shortcut(*old(self), *final(self), r, due),
    {
        match &self.selected_task_id {
            Some(id) => {
                let id = id.clone();
                self.detail.due_date = match due {
                    Some(d) => d.format("%Y-%m-%d"),
                    None => String::new(),
                };
                AppEffect::StoreDue { id, due, view: self.active_view.clone_view() }
            },
            None => AppEffect::Nothing,
        }
    }

    /// Adds the typed subtask under the selected task.
    pub fn on_add_subtask(&mut self) -> (r: AppEffect)
        ensures
            post_add_subtask(*old(self), *final(self), r),
    {
        let title = trim_set(&chars_of(self.new_subtask_title.as_str()), TrimSet::WhiteSpace);
        if title.len() == 0 {
            return AppEffect::Nothing;
        }
        self.new_subtask_title = String::new();
        match &self.selected_task_id {
            Some(p) => AppEffect::AddSubtask {
                parent_id: p.clone(),
                title: string_of(&title),
                view: self.active_view.clone_view(),
            },
            None => AppEffect::Nothing,
        }
    }

    /// Deletes a task (the selection goes where it was the selected one).
    pub fn on_delete_task(&mut self, id: String) -> (r: AppEffect)
        ensures
            post_delete_task(*old(self), *final(self), r, id),
    {
        let selected = match &self.selected_task_id {
            Some(s) => same_string(s, &id),
            None => false,
        };
        if selected {
            self.selected_task_id = None;
        }
        AppEffect::SoftDelete { id, view: self.active_view.clone_view() }
    }

    /// Deletes a list: the Today view shows where that list was shown.
    pub fn on_delete_list(&mut self, list_id: String) -> (r: AppEffect)
        ensures
            post_delete_list(*old(self), *final(self), r, list_id),
    {
        let google_id = find_list_google_id(&self.lists, &list_id);
        if self.active_view.shows_list(&list_id) {
            self.active_view = ActiveView::Today;
        }
        self.status_message = String::from_str("Deleting list...");
        AppEffect::DeleteList { list_id, google_id, authenticated: self.authenticated }
    }

    /// Creates the typed list after the others.
    pub fn on_create_list(&mut self, ctx: UpdateContext) -> (r: AppEffect)
        requires
            positions_ok(old(self).lists@),
        ensures
            post_create_list(*old(self), *final(self), r, ctx),
    {
        let position = next_list_position(&self.lists);
        match new_list(ctx.new_id, self.new_list_title.as_str(), position, ctx.now) {
            Some(l) => AppEffect::StoreNewList(l),
            None => AppEffect::Nothing,
        }
    }

    /// Runs a palette command.
    pub fn run_command(&mut self, command: PaletteCommand) -> (r: AppEffect)
        ensures
            post_command(*old(self), *final(self), r, command),
    {
        match command {
            PaletteCommand::CreateList => self.on_start_create_list(),
            PaletteCommand::SyncNow => self.on_trigger_sync(),
            PaletteCommand::ShowView(v) => self.on_select_view(v),
            PaletteCommand::ToggleTheme => {
                self.theme = self.theme.toggled();
                AppEffect::Nothing
            },
            PaletteCommand::ToggleComplete(id) => self.on_toggle_complete(id),
        }
    }

    /// Opens the new-list box.
    pub fn on_start_create_list(&mut self) -> (r: AppEffect)
        ensures
            post_start_create_list(*old(self), *final(self), r),
    {
        self.creating_list = true;
        self.new_list_title = String::new();
        AppEffect::Focus(InputId::NewList)
    }

    /// Runs the palette entry that is selected, closing the palette.
    pub fn on_palette_submit(&mut self) -> (r: AppEffect)
        ensures
            post_palette_submit(*old(self), *final(self), r),
    {
        let mut matches = palette_matches(self.command_palette_text.as_str(), &self.lists, &self.tasks);
        if self.selected_palette_index < matches.len() {
            let item = matches.remove(self.selected_palette_index);
            self.command_palette_open = false;
            self.run_command(item.command)
        } else {
            AppEffect::Nothing
        }
    }
}

/// The Google id of the first list `id`.
pub open spec fn list_google_id(lists: Seq<TaskList>, id: Seq<char>) -> Option<String>
    decreases lists.len(),
{
    if lists.len() == 0 {
        None
    } else if lists[0].id@ == id {
        lists[0].google_id
    } else {
        list_google_id(lists.drop_first(), id)
    }
}

pub(crate) fn find_list_google_id(lists: &Vec<TaskList>, id: &String) -> (r: Option<String>)
    ensures
        r == list_google_id(lists@, id@),
{
    let mut i: usize = 0;
    proof {
        assert(lists@.skip(0) =~= lists@);
    }
    while i < lists.len()
        invariant
            i <= lists@.len(),
            list_google_id(lists@, id@) == list_google_id(lists@.skip(i as int), id@),
        decreases lists.len() - i,
    {
        proof {
            assert(lists@.skip(i as int)[0] == lists@[i as int]);
            assert(lists@.skip(i as int).drop_first() =~= lists@.skip(i + 1));
        }
        if same_string(&lists[i].id, id) {
            return crate::models::clone_opt_string(&lists[i].google_id);
        }
        i += 1;
    }
    proof {
        assert(lists@.skip(i as int).len() == 0);
    }
    None
}

pub open spec fn post_trigger_sync(old: AppModel, new: AppModel, r: AppEffect) -> bool {
    if !old.authenticated {
        new == AppModel { status_message: new.status_message, ..old } && new.status_message@
            == "Authenticate first to sync."@ && r is Nothing
    } else if old.syncing {
        new == old && r is Nothing
    } else {
        new == AppModel { syncing: true, status_message: new.status_message, ..old }
            && new.status_message@ == "Syncing with Google Tasks..."@ && r is RunSync
    }
}

pub open spec fn post_list_created(
    old: AppModel,
    new: AppModel,
    r: AppEffect,
    lists: Vec<TaskList>,
    tasks: Vec<Task>,
    counts: Vec<(String, usize, usize)>,
    list_id: String,
) -> bool {
    let mid = AppModel {
        creating_list: false,
        new_list_title: new.new_list_title,
        active_view: ActiveView::List(list_id),
        pending_view: None,
        view_fade_direction: ViewFadeDirection::Idle,
        lists: lists,
        tasks: tasks,
        subtask_counts: counts,
        status_message: new.status_message,
        syncing: new.syncing,
        ..old
    };
    &&& new.new_list_title@.len() == 0
    &&& new == mid
    &&& if old.authenticated {
        if old.syncing {
            new.status_message@ == "List created. Syncing with Google Tasks..."@ && r is Nothing
                && new.syncing
        } else {
            new.status_message@ == "Syncing with Google Tasks..."@ && r is RunSync && new.syncing
        }
    } else {
        new.status_message@ == "List created (pending sync)."@ && r is Nothing && new.syncing
            == old.syncing
    }
}

pub open spec fn post_sync_finished(
    old: AppModel,
    new: AppModel,
    r: AppEffect,
    result: Result<SyncReport, String>,
) -> bool {
    match result {
        Ok(report) => new == AppModel {
            syncing: false,
            offline: false,
            token_revoked: false,
            status_message: new.status_message,
            ..old
        } && new.status_message@ == crate::ui::sync_success_text(report) && r
            == AppEffect::SyncSucceeded(old.active_view),
        Err(e) => {
            let f = crate::ui::sync_failure_of(e@);
            &&& new == AppModel {
                syncing: false,
                status_message: new.status_message,
                offline: if f == SyncFailure::Offline {
                    true
                } else {
                    old.offline
                },
                token_revoked: if f == SyncFailure::Revoked {
                    true
                } else {
                    old.token_revoked
                },
                authenticated: if f == SyncFailure::Revoked {
                    false
                } else {
                    old.authenticated
                },
                ..old
            }
            &&& new.status_message@ == "Sync failed: "@ + e@
            &&& r is SyncFailed
        },
    }
}

pub open spec fn post_auth_finished(
    old: AppModel,
    new: AppModel,
    r: AppEffect,
    result: Result<(), String>,
) -> bool {
    match result {
        Ok(()) => new == AppModel {
            authenticated: true,
            token_revoked: false,
            offline: false,
            status_message: new.status_message,
            ..old
        } && new.status_message@ == "Successfully authenticated! Run sync."@ && r is Restart,
        Err(e) => new == AppModel {
            status_message: new.status_message,
            keyring_error: if crate::ui::has_infix(crate::text::unicode_lowercase(e@), "keyring"@) {
                Some(e)
            } else {
                old.keyring_error
            },
            ..old
        } && new.status_message@ == "Authentication failed: "@ + e@ && r is Nothing,
    }
}

pub open spec fn post_select_task(old: AppModel, new: AppModel, r: AppEffect, id: Option<String>) -> bool {
    &&& new == AppModel {
        selected_task_id: id,
        new_subtask_title: new.new_subtask_title,
        detail_subtasks: new.detail_subtasks,
        detail: new.detail,
        ..old
    }
    &&& new.new_subtask_title@.len() == 0
    &&& new.detail_subtasks@.len() == 0
    &&& match id {
        Some(i) => detail_of(new.detail, old.tasks@, i@) && r == AppEffect::LoadSubtasks(i),
        None => empty_detail(new.detail) && r is Nothing,
    }
}

pub open spec fn post_detail_title(old: AppModel, new: AppModel, r: AppEffect, title: String) -> bool {
    match old.selected_task_id {
        Some(id) => new == AppModel {
            detail: DetailFields { title: title, ..old.detail },
            tasks: new.tasks,
            ..old
        } && new.tasks@ == title_set(old.tasks@, id@, title) && r == (AppEffect::StoreTitle {
            id: id,
            title: title,
        }),
        None => new == AppModel { detail: DetailFields { title: title, ..old.detail }, ..old } && r is Nothing,
    }
}

pub open spec fn post_detail_notes(old: AppModel, new: AppModel, r: AppEffect, notes: String) -> bool {
    match old.selected_task_id {
        Some(id) => {
            let stored = if trim_by(notes@, TrimSet::WhiteSpace).len() == 0 {
                None
            } else {
                Some(notes)
            };
            new == AppModel {
                detail: DetailFields { notes: notes, ..old.detail },
                tasks: new.tasks,
                ..old
            } && new.tasks@ == notes_set(old.tasks@, id@, stored) && r == (AppEffect::StoreNotes {
                id: id,
                notes: stored,
            })
        },
        None => new == AppModel { detail: DetailFields { notes: notes, ..old.detail }, ..old } && r is Nothing,
    }
}

pub open spec fn post_save_date_time(old: AppModel, new: AppModel, r: AppEffect, ctx: UpdateContext) -> bool {
    match old.selected_task_id {
        Some(id) => {
            &&& new == AppModel { detail: new.detail, ..old }
            &&& new.detail.title == old.detail.title
            &&& new.detail.notes == old.detail.notes
            &&& r matches AppEffect::StoreSchedule { id: rid, due, reminder, view }
            &&& rid == id && view == old.active_view
            &&& (trim_by(old.detail.due_date@, TrimSet::WhiteSpace).len() == 0 ==> due is None)
            &&& (trim_by(old.detail.due_date@, TrimSet::WhiteSpace).len() > 0 ==> crate::parser::opt_ymd(due) == (match crate::parser::parsed_input(
                old.detail.due_date@,
                ctx.today.ymd(),
            ).1 {
                Some(d) => Some(d),
                None => crate::db::read_date(old.detail.due_date@),
            }))
            &&& (trim_by(old.detail.reminder_time@, TrimSet::WhiteSpace).len() == 0 ==> reminder is None)
            &&& (trim_by(old.detail.reminder_time@, TrimSet::WhiteSpace).len() > 0 ==> crate::parser::opt_hms(reminder) == (match crate::parser::parsed_input(
                "at "@ + old.detail.reminder_time@,
                ctx.today.ymd(),
            ).2 {
                Some(t) => Some(t),
                None => match crate::calendar::chrono_parsed_time(old.detail.reminder_time@, "%H:%M"@) {
                    Some(p) => Some((p.0 as int, p.1 as int, p.2 as int)),
                    None => None,
                },
            }))
            &&& new.detail.due_date@ == (match due {
                Some(d) => crate::db::date_text(d),
                None => Seq::<char>::empty(),
            })
            &&& new.detail.reminder_time@ == (match reminder {
                Some(t) => crate::calendar::chrono_formatted_time(t.hms(), "%H:%M"@),
                None => Seq::<char>::empty(),
            })
        },
        None => new == old && r is Nothing,
    }
}

pub open spec fn post_set_due_shortcut(old: AppModel, new: AppModel, r: AppEffect, due: Option<Date>) -> bool {
    match old.selected_task_id {
        Some(id) => new == AppModel { detail: DetailFields { due_date: new.detail.due_date, ..old.detail }, ..old }
            && new.detail.due_date@ == (match due {
            Some(d) => crate::db::date_text(d),
            None => Seq::<char>::empty(),
        }) && r == (AppEffect::StoreDue { id: id, due: due, view: old.active_view }),
        None => new == old && r is Nothing,
    }
}

pub open spec fn post_add_subtask(old: AppModel, new: AppModel, r: AppEffect) -> bool {
    let title = trim_by(old.new_subtask_title@, TrimSet::WhiteSpace);
    if title.len() == 0 {
        new == old && r is Nothing
    } else {
        &&& new == AppModel { new_subtask_title: new.new_subtask_title, ..old }
        &&& new.new_subtask_title@.len() == 0
        &&& match old.selected_task_id {
            Some(p) => r matches AppEffect::AddSubtask { parent_id, title: t, view } && parent_id
                == p && t@ == title && view == old.active_view,
            None => r is Nothing,
        }
    }
}

pub open spec fn post_delete_task(old: AppModel, new: AppModel, r: AppEffect, id: String) -> bool {
    &&& new == AppModel {
        selected_task_id: if old.selected_task_id matches Some(s) && s@ == id@ {
            None
        } else {
            old.selected_task_id
        },
        ..old
    }
    &&& r == (AppEffect::SoftDelete { id: id, view: old.active_view })
}

pub open spec fn post_delete_list(old: AppModel, new: AppModel, r: AppEffect, list_id: String) -> bool {
    &&& new == AppModel {
        active_view: if old.active_view matches ActiveView::List(x) && x@ == list_id@ {
            ActiveView::Today
        } else {
            old.active_view
        },
        status_message: new.status_message,
        ..old
    }
    &&& new.status_message@ == "Deleting list..."@
    &&& r == (AppEffect::DeleteList {
        list_id: list_id,
        google_id: list_google_id(old.lists@, list_id@),
        authenticated: old.authenticated,
    })
}

pub open spec fn post_create_list(old: AppModel, new: AppModel, r: AppEffect, ctx: UpdateContext) -> bool {
    &&& new == old
    &&& if trim_by(old.new_list_title@, TrimSet::WhiteSpace).len() == 0 {
        r is Nothing
    } else {
        r matches AppEffect::StoreNewList(l) && l.id == ctx.new_id && l.google_id is None && l.title@
            == trim_by(old.new_list_title@, TrimSet::WhiteSpace) && l.position
            == crate::ui::max_position(old.lists@) + 1 && !l.is_default && l.updated_at == ctx.now
    }
}

pub open spec fn post_command(old: AppModel, new: AppModel, r: AppEffect, c: PaletteCommand) -> bool {
    match c {
        PaletteCommand::CreateList => new == AppModel {
            creating_list: true,
            new_list_title: new.new_list_title,
            ..old
        } && new.new_list_title@.len() == 0 && r == AppEffect::Focus(InputId::NewList),
        PaletteCommand::SyncNow => post_trigger_sync(old, new, r),
        PaletteCommand::ShowView(v) => r is Nothing && if crate::ui::same_view(old.active_view, v) {
            new == old
        } else {
            new == AppModel {
                pending_view: Some(v),
                view_fade_direction: ViewFadeDirection::FadeOut,
                ..old
            }
        },
        PaletteCommand::ToggleTheme => new == AppModel {
            theme: match old.theme {
                AppTheme::Dark => AppTheme::Light,
                AppTheme::Light => AppTheme::Dark,
            },
            ..old
        } && r is Nothing,
        PaletteCommand::ToggleComplete(id) => new == old && if is_open_task(old.tasks@, id@) {
            r == AppEffect::StartCompleting(id)
        } else {
            r == (AppEffect::StoreToggleComplete { id: id, view: old.active_view })
        },
    }
}

pub open spec fn post_palette_submit(old: AppModel, new: AppModel, r: AppEffect) -> bool {
    let items = crate::ui::palette_spec(old.command_palette_text@, old.lists@, old.tasks@);
    if old.selected_palette_index < items.len() {
        post_command(
            AppModel { command_palette_open: false, ..old },
            new,
            r,
            items[old.selected_palette_index as int].1,
        )
    } else {
        new == old && r is Nothing
    }
}

pub open spec fn post_init(old: AppModel, new: AppModel, r: AppEffect, keyring: Result<bool, String>) -> bool {
    &&& (match keyring {
                Err(e) => new == (AppModel { keyring_error: Some(e), ..old })
                    && r is Nothing,
                Ok(b) => new == (AppModel {
                    keyring_error: None,
                    authenticated: b,
                    ..old
                }) && r == AppEffect::LoadData(old.active_view),
            })
}

pub open spec fn post_loaded_data(old: AppModel, new: AppModel, r: AppEffect, lists: Vec<TaskList>, tasks: Vec<Task>, counts: Vec<(String, usize, usize)>) -> bool {
    &&& (new == (AppModel {
                lists: lists,
                tasks: tasks,
                subtask_counts: counts,
                ..old
            }))
    &&& (old.view_fade_direction == ViewFadeDirection::Idle ==> (r matches AppEffect::AnimateNew {
                ids,
                clear,
            } && !clear && (old.tasks@.len() == 0 ==> ids@.len() == 0) && (old.tasks@.len()
                > 0 ==> crate::ui::id_views(ids@) == crate::ui::ids_of(
                tasks@.filter(|t: Task| !crate::ui::ids_of(old.tasks@).contains(t.id@)),
            ))))
    &&& (old.view_fade_direction != ViewFadeDirection::Idle ==> (r matches AppEffect::AnimateNew {
                ids,
                clear,
            } && clear && ids@.len() == 0))
}

pub open spec fn post_select_view(old: AppModel, new: AppModel, r: AppEffect, view: ActiveView) -> bool {
    &&& (r is Nothing)
    &&& (crate::ui::same_view(old.active_view, view) ==> new == old)
    &&& (!crate::ui::same_view(old.active_view, view) ==> new == (AppModel {
                pending_view: Some(view),
                view_fade_direction: ViewFadeDirection::FadeOut,
                ..old
            }))
}

pub open spec fn post_fade_out_done(old: AppModel, new: AppModel, r: AppEffect) -> bool {
    &&& (match old.pending_view {
                Some(v) => new == (AppModel {
                    active_view: v,
                    pending_view: None,
                    view_fade_direction: ViewFadeDirection::FadeIn,
                    quick_add_text: new.quick_add_text,
                    ..old
                }) && new.quick_add_text@.len() == 0 && r == AppEffect::LoadData(v),
                None => new == old && r is Nothing,
            })
}

pub open spec fn post_toggle_complete(old: AppModel, new: AppModel, r: AppEffect, id: String) -> bool {
    &&& (new == old)
    &&& (is_open_task(old.tasks@, id@) ==> r == AppEffect::StartCompleting(id))
    &&& (!is_open_task(old.tasks@, id@) ==> r == (AppEffect::StoreToggleComplete {
                id: id,
                view: old.active_view,
            }))
}

pub open spec fn post_toggle_starred(old: AppModel, new: AppModel, r: AppEffect, id: String) -> bool {
    &&& (new == (AppModel {
                tasks: new.tasks,
                detail_subtasks: new.detail_subtasks,
                ..old
            }))
    &&& (new.tasks@ == star_flipped(old.tasks@, id@))
    &&& (new.detail_subtasks@ == star_flipped(old.detail_subtasks@, id@))
    &&& (r == (AppEffect::StoreToggleStar {
                id: id,
                view: old.active_view,
                parent: old.selected_task_id,
            }))
}

pub open spec fn post_quick_add_submit(old: AppModel, new: AppModel, r: AppEffect, ctx: UpdateContext) -> bool {
    &&& (new.quick_add_text@.len() == 0)
    &&& (({
                let p = crate::parser::parsed_input(
                    trim_by(old.quick_add_text@, TrimSet::WhiteSpace),
                    ctx.today.ymd(),
                );
                if p.0.len() == 0 {
                    new == (AppModel {
                        quick_add_text: new.quick_add_text,
                        ..old
                    }) && r is Nothing
                } else {
                    match crate::ui::quick_add_list_spec(old.active_view, old.lists@) {
                        None => new == (AppModel {
                            quick_add_text: new.quick_add_text,
                            status_message: new.status_message,
                            ..old
                        }) && new.status_message@ == crate::ui::need_list_text()
                            && r is Nothing,
                        Some(list_id) => {
                            &&& new == (AppModel {
                                quick_add_text: new.quick_add_text,
                                ..old
                            })
                            &&& r matches AppEffect::StoreNewTask { task, view } && view
                            == old.active_view && crate::ui::is_new_task(
                            task,
                            ctx.new_id,
                            list_id,
                            p.0,
                            task.due_date,
                            task.reminder_time,
                            None,
                            ctx.now,
                        ) && crate::parser::opt_hms(task.reminder_time) == p.2
                            && crate::parser::opt_ymd(task.due_date) == crate::ui::quick_due_ymd(
                            p.1,
                            old.active_view,
                            p.2,
                            ctx.today.ymd(),
                        )
                        },
                    }
                }
            }))
}

pub open spec fn post_start_create_list(old: AppModel, new: AppModel, r: AppEffect) -> bool {
    &&& (new == (AppModel {
                creating_list: true,
                new_list_title: new.new_list_title,
                ..old
            }))
    &&& (new.new_list_title@.len() == 0)
    &&& (r == AppEffect::Focus(InputId::NewList))
}


/// The key is a character key typing one of the given texts.
pub open spec fn key_is(key: Key, a: Seq<char>, b: Seq<char>) -> bool {
    key matches Key::Char(c) && (c@ == a || c@ == b)
}

fn key_is_exec(key: &Key, a: &str, b: &str) -> (r: bool)
    ensures
        r == key_is(*key, a@, b@),
{
    match key {
        Key::Char(c) => {
            let v = chars_of(c.as_str());
            crate::text::eq_str(&v, a) || crate::text::eq_str(&v, b)
        },
        _ => false,
    }
}

/// The list shortcut a key names: Control with 1 to 9 picks that list.
pub open spec fn list_shortcut(key: Key, lists: Seq<TaskList>) -> Option<int> {
    match key {
        Key::Char(c) => match crate::text::parse_u32_spec(c@) {
            Some(n) => if 1 <= n <= 9 && n - 1 < lists.len() {
                Some(n - 1)
            } else {
                None
            },
            None => None,
        },
        _ => None,
    }
}

/// How a key press changes the app.
pub open spec fn post_key(
    old: AppModel,
    new: AppModel,
    r: AppEffect,
    control: bool,
    key: Key,
    ctx: UpdateContext,
) -> bool {
    if control && key_is(key, "k"@, "K"@) {
        if old.command_palette_open {
            new == AppModel { command_palette_open: false, ..old } && r is Nothing
        } else {
            new == AppModel {
                command_palette_open: true,
                command_palette_text: new.command_palette_text,
                selected_palette_index: 0,
                ..old
            } && new.command_palette_text@.len() == 0 && r == AppEffect::Focus(InputId::CommandPalette)
        }
    } else if old.command_palette_open {
        let n = crate::ui::palette_spec(old.command_palette_text@, old.lists@, old.tasks@).len();
        match key {
            Key::Escape => new == AppModel { command_palette_open: false, ..old } && r is Nothing,
            Key::ArrowDown => r is Nothing && new == AppModel {
                selected_palette_index: if n > 0 {
                    ((old.selected_palette_index + 1) % crate::ui::palette_shown(n as int)) as usize
                } else {
                    old.selected_palette_index
                },
                ..old
            },
            Key::ArrowUp => r is Nothing && new == AppModel {
                selected_palette_index: if n > 0 {
                    if old.selected_palette_index == 0 {
                        (crate::ui::palette_shown(n as int) - 1) as usize
                    } else {
                        (old.selected_palette_index - 1) as usize
                    }
                } else {
                    old.selected_palette_index
                },
                ..old
            },
            Key::Enter => post_palette_submit(old, new, r),
            _ => new == old && r is Nothing,
        }
    } else if control && key_is(key, "n"@, "N"@) {
        new == old && r == AppEffect::Focus(InputId::QuickAdd)
    } else if control && key_is(key, "s"@, "S"@) {
        post_trigger_sync(old, new, r)
    } else if control && list_shortcut(key, old.lists@) is Some {
        let i = list_shortcut(key, old.lists@)->0;
        post_select_view(old, new, r, ActiveView::List(old.lists@[i].id))
    } else {
        exists|order: Seq<Seq<char>>|
            #![trigger crate::ui::nav_order_spec(old.active_view, old.tasks@, ctx.utc_today, order)]
            crate::ui::nav_order_spec(old.active_view, old.tasks@, ctx.utc_today, order) && post_nav_key(
                old,
                new,
                r,
                key,
                order,
            )
    }
}

/// How a navigation key moves through the ids `order` of the shown tasks.
pub open spec fn post_nav_key(old: AppModel, new: AppModel, r: AppEffect, key: Key, order: Seq<Seq<char>>) -> bool {
    let sel = opt_view(old.selected_task_id);
    if key is ArrowDown || key_is(key, "j"@, "J"@) {
        if order.len() > 0 {
            new.selected_task_id matches Some(id) && id@ == order[crate::ui::nav_down_index(order, sel)]
                && post_select_task(old, new, r, Some(id))
        } else {
            new == old && r is Nothing
        }
    } else if key is ArrowUp || key_is(key, "k"@, "K"@) {
        if order.len() > 0 {
            new.selected_task_id matches Some(id) && id@ == order[crate::ui::nav_up_index(order, sel)]
                && post_select_task(old, new, r, Some(id))
        } else {
            new == old && r is Nothing
        }
    } else if key is Escape {
        post_select_task(old, new, r, None)
    } else if key is Space || key is Enter {
        match old.selected_task_id {
            Some(id) => post_toggle_complete(old, new, r, id),
            None => new == old && r is Nothing,
        }
    } else {
        new == old && r is Nothing
    }
}


impl AppModel {
    /// Reacts to a key press: Control-K toggles the command palette, which
    /// while open takes Escape, the arrows and Enter; Control-N focuses the
    /// quick-add box, Control-S syncs, Control-1 to 9 show a list; the
    /// arrows (or J and K) move the selection, Escape clears it, and Space
    /// or Enter completes the selected task.
    pub fn on_key(&mut self, control: bool, key: Key, ctx: &UpdateContext) -> (r: AppEffect)
        requires
            old(self).selected_palette_index < usize::MAX,
        ensures
            post_key(*old(self), *final(self), r, control, key, *ctx),
    {
        if control && key_is_exec(&key, "k", "K") {
            if self.command_palette_open {
                self.command_palette_open = false;
                return AppEffect::Nothing;
            } else {
                self.command_palette_open = true;
                self.command_palette_text = String::new();
                self.selected_palette_index = 0;
                return AppEffect::Focus(InputId::CommandPalette);
            }
        }
        if self.command_palette_open {
            match key {
                Key::Escape => {
                    self.command_palette_open = false;
                    return AppEffect::Nothing;
                },
                Key::ArrowDown => {
                    let n = palette_matches(self.command_palette_text.as_str(), &self.lists, &self.tasks).len();
                    self.selected_palette_index = crate::ui::palette_down(self.selected_palette_index, n);
                    return AppEffect::Nothing;
                },
                Key::ArrowUp => {
                    let n = palette_matches(self.command_palette_text.as_str(), &self.lists, &self.tasks).len();
                    self.selected_palette_index = crate::ui::palette_up(self.selected_palette_index, n);
                    return AppEffect::Nothing;
                },
                Key::Enter => {
                    return self.on_palette_submit();
                },
                _ => {
                    return AppEffect::Nothing;
                },
            }
        }
        if control && key_is_exec(&key, "n", "N") {
            return AppEffect::Focus(InputId::QuickAdd);
        }
        if control && key_is_exec(&key, "s", "S") {
            return self.on_trigger_sync();
        }
        if control {
            if let Key::Char(c) = &key {
                match crate::text::parse_u32(&chars_of(c.as_str())) {
                    Some(n) => {
                        if 1 <= n && n <= 9 && ((n - 1) as usize) < self.lists.len() {
                            let id = self.lists[(n - 1) as usize].id.clone();
                            return self.on_select_view(ActiveView::List(id));
                        }
                    },
                    None => {},
                }
            }
        }
        let order = nav_order(&self.active_view, &self.tasks, ctx.utc_today);
        let is_down = match &key {
            Key::ArrowDown => true,
            _ => key_is_exec(&key, "j", "J"),
        };
        let is_up = match &key {
            Key::ArrowUp => true,
            _ => key_is_exec(&key, "k", "K"),
        };
        if is_down {
            if order.len() > 0 {
                let next = nav_down(&order, &self.selected_task_id);
                return self.on_select_task(next);
            }
        } else if is_up {
            if order.len() > 0 {
                let next = nav_up(&order, &self.selected_task_id);
                return self.on_select_task(next);
            }
        } else {
            match key {
                Key::Escape => {
                    return self.on_select_task(None);
                },
                Key::Space | Key::Enter => {
                    match &self.selected_task_id {
                        Some(id) => {
                            let id = id.clone();
                            return self.on_toggle_complete(id);
                        },
                        None => {},
                    }
                },
                _ => {},
            }
        }
        AppEffect::Nothing
    }
}

/// How a message changes the app and what it asks the shell to do.
pub open spec fn post_update(old: AppModel, msg: AppMessage, ctx: UpdateContext, new: AppModel, r: AppEffect) -> bool {
    match msg {
        AppMessage::Init(k) => post_init(old, new, r, k),
        AppMessage::Nothing => new == old && r is Nothing,
        AppMessage::LoadedData(Ok((l, t, c))) => post_loaded_data(old, new, r, l, t, c),
        AppMessage::LoadedData(Err(e)) => new == AppModel { status_message: new.status_message, ..old }
            && new.status_message@ == "Error loading data: "@ + e@ && r is Nothing,
        AppMessage::SelectTask(id) => post_select_task(old, new, r, id),
        AppMessage::LoadedSubtasks(Ok(st)) => new == AppModel { detail_subtasks: st, ..old } && r is Nothing,
        AppMessage::LoadedSubtasks(Err(e)) => new == AppModel { status_message: new.status_message, ..old }
            && new.status_message@ == "Error loading subtasks: "@ + e@ && r is Nothing,
        AppMessage::LoadedDataAndSubtasks(l, t, st, c) => new == AppModel {
            lists: l,
            tasks: t,
            detail_subtasks: st,
            subtask_counts: c,
            ..old
        } && r is Nothing,
        AppMessage::DetailTitleChanged(t) => post_detail_title(old, new, r, t),
        AppMessage::DetailNotesChanged(n) => post_detail_notes(old, new, r, n),
        AppMessage::DetailDueDateStrChanged(d) => new == AppModel {
            detail: DetailFields { due_date: d, ..old.detail },
            ..old
        } && r is Nothing,
        AppMessage::DetailReminderTimeStrChanged(d) => new == AppModel {
            detail: DetailFields { reminder_time: d, ..old.detail },
            ..old
        } && r is Nothing,
        AppMessage::SaveDateTime => post_save_date_time(old, new, r, ctx),
        AppMessage::SetDueDateShortcut(d) => post_set_due_shortcut(old, new, r, d),
        AppMessage::NewSubtaskTitleChanged(t) => new == AppModel { new_subtask_title: t, ..old } && r is Nothing,
        AppMessage::AddSubtask => post_add_subtask(old, new, r),
        AppMessage::DeleteTask(id) => post_delete_task(old, new, r, id),
        AppMessage::DeleteSubtask(id) => new == old && match old.selected_task_id {
            Some(p) => r == (AppEffect::DeleteSubtask { id: id, parent_id: p, view: old.active_view }),
            None => r is Nothing,
        },
        AppMessage::ToggleSubtaskComplete(id) => new == old && match old.selected_task_id {
            Some(p) => r == (AppEffect::ToggleSubtask { id: id, parent_id: p, view: old.active_view }),
            None => r is Nothing,
        },
        AppMessage::SelectView(v) => post_select_view(old, new, r, v),
        AppMessage::FadeOutDone => post_fade_out_done(old, new, r),
        AppMessage::FadeInDone => new == AppModel { view_fade_direction: ViewFadeDirection::Idle, ..old }
            && r is Nothing,
        AppMessage::ToggleComplete(id) => post_toggle_complete(old, new, r, id),
        AppMessage::CompletionDone(id) => new == old && r == (AppEffect::StoreToggleComplete {
            id: id,
            view: old.active_view,
        }),
        AppMessage::ToggleStarred(id) => post_toggle_starred(old, new, r, id),
        AppMessage::QuickAddChanged(t) => new == AppModel { quick_add_text: t, ..old } && r is Nothing,
        AppMessage::QuickAddSubmit => post_quick_add_submit(old, new, r, ctx),
        AppMessage::StartCreateList => post_start_create_list(old, new, r),
        AppMessage::CancelCreateList => new == AppModel {
            creating_list: false,
            new_list_title: new.new_list_title,
            ..old
        } && new.new_list_title@.len() == 0 && r is Nothing,
        AppMessage::NewListTitleChanged(t) => new == AppModel { new_list_title: t, ..old } && r is Nothing,
        AppMessage::CreateList => post_create_list(old, new, r, ctx),
        AppMessage::ListCreated(Ok((l, t, c, id))) => post_list_created(old, new, r, l, t, c, id),
        AppMessage::ListCreated(Err(e)) => new == AppModel { status_message: new.status_message, ..old }
            && new.status_message@ == "Error creating list: "@ + e@ && r is Nothing,
        AppMessage::DeleteList(id) => post_delete_list(old, new, r, id),
        AppMessage::TriggerSync => post_trigger_sync(old, new, r),
        AppMessage::SyncFinished(res) => post_sync_finished(old, new, r, res),
        AppMessage::Authenticate => new == AppModel { status_message: new.status_message, ..old }
            && new.status_message@ == "Redirecting to browser for authentication..."@ && r is RunAuthentication,
        AppMessage::AuthFinished(res) => post_auth_finished(old, new, r, res),
        AppMessage::Logout => new == AppModel {
            authenticated: false,
            token_revoked: false,
            status_message: new.status_message,
            ..old
        } && new.status_message@ == "Logged out successfully."@ && r is SignOut,
        AppMessage::KeyPressed { control, key } => post_key(old, new, r, control, key, ctx),
        AppMessage::CommandPaletteChanged(t) => new == AppModel {
            command_palette_text: t,
            selected_palette_index: 0,
            ..old
        } && r is Nothing,
        AppMessage::CommandPaletteSubmit => post_palette_submit(old, new, r),
        AppMessage::ToggleTheme => new == AppModel {
            theme: match old.theme {
                AppTheme::Dark => AppTheme::Light,
                AppTheme::Light => AppTheme::Dark,
            },
            ..old
        } && r is Nothing,
        AppMessage::SetSyncInterval(m) => new == AppModel { sync_interval_mins: m, ..old } && r is Nothing,
        AppMessage::ToggleCompletedSection => new == AppModel {
            completed_section_collapsed: !old.completed_section_collapsed,
            ..old
        } && r is Nothing,
        AppMessage::CloseRevocationModal => new == AppModel { token_revoked: false, offline: true, ..old }
            && r is Nothing,
    }
}

/// The app can take the message: a message that reads typed dates needs
/// each relative date word in them to name a date in chrono's range, creating a list needs list
/// positions with room for one more, and a key press needs a palette
/// selection that can move down.
pub open spec fn update_ok(m: AppModel, msg: AppMessage, ctx: UpdateContext) -> bool {
    match msg {
        AppMessage::SaveDateTime => date_time_ok(m, ctx),
        AppMessage::QuickAddSubmit => quick_add_ok(m, ctx),
        AppMessage::CreateList => positions_ok(m.lists@),
        AppMessage::KeyPressed { .. } => m.selected_palette_index < usize::MAX,
        _ => true,
    }
}

impl AppModel {
    /// Reacts to a message: the next state and the work to do.
    pub fn update(&mut self, msg: AppMessage, ctx: UpdateContext) -> (r: AppEffect)
        requires
            update_ok(*old(self), msg, ctx),
        ensures
            post_update(*old(self), msg, ctx, *final(self), r),
    {
        match msg {
            AppMessage::Init(k) => self.on_init(k),
            AppMessage::Nothing => AppEffect::Nothing,
            AppMessage::LoadedData(Ok((l, t, c))) => self.on_loaded_data(l, t, c),
            AppMessage::LoadedData(Err(e)) => {
                self.set_status("Error loading data: ", &e);
                AppEffect::Nothing
            },
            AppMessage::SelectTask(id) => self.on_select_task(id),
            AppMessage::LoadedSubtasks(Ok(st)) => {
                self.detail_subtasks = st;
                AppEffect::Nothing
            },
            AppMessage::LoadedSubtasks(Err(e)) => {
                self.set_status("Error loading subtasks: ", &e);
                AppEffect::Nothing
            },
            AppMessage::LoadedDataAndSubtasks(l, t, st, c) => {
                self.lists = l;
                self.tasks = t;
                self.detail_subtasks = st;
                self.subtask_counts = c;
                AppEffect::Nothing
            },
            AppMessage::DetailTitleChanged(t) => self.on_detail_title(t),
            AppMessage::DetailNotesChanged(n) => self.on_detail_notes(n),
            AppMessage::DetailDueDateStrChanged(d) => {
                self.detail.due_date = d;
                AppEffect::Nothing
            },
            AppMessage::DetailReminderTimeStrChanged(d) => {
                self.detail.reminder_time = d;
                AppEffect::Nothing
            },
            AppMessage::SaveDateTime => self.on_save_date_time(ctx),
            AppMessage::SetDueDateShortcut(d) => self.on_set_due_shortcut(d),
            AppMessage::NewSubtaskTitleChanged(t) => {
                self.new_subtask_title = t;
                AppEffect::Nothing
            },
            AppMessage::AddSubtask => self.on_add_subtask(),
            AppMessage::DeleteTask(id) => self.on_delete_task(id),
            AppMessage::DeleteSubtask(id) => match &self.selected_task_id {
                Some(p) => AppEffect::DeleteSubtask {
                    id,
                    parent_id: p.clone(),
                    view: self.active_view.clone_view(),
                },
                None => AppEffect::Nothing,
            },
            AppMessage::ToggleSubtaskComplete(id) => match &self.selected_task_id {
                Some(p) => AppEffect::ToggleSubtask {
                    id,
                    parent_id: p.clone(),
                    view: self.active_view.clone_view(),
                },
                None => AppEffect::Nothing,
            },
            AppMessage::SelectView(v) => self.on_select_view(v),
            AppMessage::FadeOutDone => self.on_fade_out_done(),
            AppMessage::FadeInDone => {
                self.view_fade_direction = ViewFadeDirection::Idle;
                AppEffect::Nothing
            },
            AppMessage::ToggleComplete(id) => self.on_toggle_complete(id),
            AppMessage::CompletionDone(id) => AppEffect::StoreToggleComplete {
                id,
                view: self.active_view.clone_view(),
            },
            AppMessage::ToggleStarred(id) => self.on_toggle_starred(id),
            AppMessage::QuickAddChanged(t) => {
                self.quick_add_text = t;
                AppEffect::Nothing
            },
            AppMessage::QuickAddSubmit => self.on_quick_add_submit(ctx),
            AppMessage::StartCreateList => self.on_start_create_list(),
            AppMessage::CancelCreateList => {
                self.creating_list = false;
                self.new_list_title = String::new();
                AppEffect::Nothing
            },
            AppMessage::NewListTitleChanged(t) => {
                self.new_list_title = t;
                AppEffect::Nothing
            },
            AppMessage::CreateList => self.on_create_list(ctx),
            AppMessage::ListCreated(Ok((l, t, c, id))) => self.on_list_created(l, t, c, id),
            AppMessage::ListCreated(Err(e)) => {
                self.set_status("Error creating list: ", &e);
                AppEffect::Nothing
            },
            AppMessage::DeleteList(id) => self.on_delete_list(id),
            AppMessage::TriggerSync => self.on_trigger_sync(),
            AppMessage::SyncFinished(res) => self.on_sync_finished(res),
            AppMessage::Authenticate => {
                self.status_message = String::from_str("Redirecting to browser for authentication...");
                AppEffect::RunAuthentication
            },
            AppMessage::AuthFinished(res) => self.on_auth_finished(res),
            AppMessage::Logout => {
                self.authenticated = false;
                self.token_revoked = false;
                self.status_message = String::from_str("Logged out successfully.");
                AppEffect::SignOut
            },
            AppMessage::KeyPressed { control, key } => self.on_key(control, key, &ctx),
            AppMessage::CommandPaletteChanged(t) => {
                self.command_palette_text = t;
                self.selected_palette_index = 0;
                AppEffect::Nothing
            },
            AppMessage::CommandPaletteSubmit => self.on_palette_submit(),
            AppMessage::ToggleTheme => {
                self.theme = self.theme.toggled();
                AppEffect::Nothing
            },
            AppMessage::SetSyncInterval(m) => {
                self.sync_interval_mins = m;
                AppEffect::Nothing
            },
            AppMessage::ToggleCompletedSection => {
                self.completed_section_collapsed = !self.completed_section_collapsed;
                AppEffect::Nothing
            },
            AppMessage::CloseRevocationModal => {
                self.token_revoked = false;
                self.offline = true;
                AppEffect::Nothing
            },
        }
    }
}

/// Switching the theme twice gives back the theme, and the rest of the
/// state is untouched.
pub proof fn lemma_theme_toggle_twice(
    a: AppModel,
    b: AppModel,
    c: AppModel,
    ctx: UpdateContext,
    r1: AppEffect,
    r2: AppEffect,
)
    requires
        post_update(a, AppMessage::ToggleTheme, ctx, b, r1),
        post_update(b, AppMessage::ToggleTheme, ctx, c, r2),
    ensures
        c == a,
{
}

/// Folding the completed section twice gives back the state.
pub proof fn lemma_completed_section_twice(
    a: AppModel,
    b: AppModel,
    c: AppModel,
    ctx: UpdateContext,
    r1: AppEffect,
    r2: AppEffect,
)
    requires
        post_update(a, AppMessage::ToggleCompletedSection, ctx, b, r1),
        post_update(b, AppMessage::ToggleCompletedSection, ctx, c, r2),
    ensures
        c == a,
{
}

/// At most one sync runs at a time, and only a signed-in user starts one:
/// asking for a sync starts it exactly when the user is signed in and no
/// sync is running, after which a sync is running; asking again while a
/// signed-in user's sync runs changes nothing.
pub proof fn lemma_one_sync_at_a_time(a: AppModel, b: AppModel, r: AppEffect, ctx: UpdateContext)
    requires
        post_update(a, AppMessage::TriggerSync, ctx, b, r),
    ensures
        (r is RunSync) <==> (a.authenticated && !a.syncing),
        r is RunSync ==> b.syncing,
        a.syncing && a.authenticated ==> b == a,
{
}

/// A finished sync, whatever its outcome, leaves no sync running.
pub proof fn lemma_sync_ends(
    a: AppModel,
    b: AppModel,
    r: AppEffect,
    ctx: UpdateContext,
    res: Result<SyncReport, String>,
)
    requires
        post_update(a, AppMessage::SyncFinished(res), ctx, b, r),
    ensures
        !b.syncing,
{
}

} // verus!
