//! The decisions of the desktop app: themes and their colours, views,
//! quick add, task and list edits, status messages, the command palette and
//! keyboard navigation. The app draws the screen and runs the database and
//! network work; these functions say what to show and what to store.
use crate::calendar::{day_number, Date, Time};
use crate::db::date_text;
use crate::models::{
    clone_opt_rule, clone_opt_string, decimal, decimal_string, SyncState, Task, TaskList, Timestamp,
};
use crate::notes::opt_view;
use crate::parser::{opt_hms, opt_ymd, parse_task_input, parsed_input, relative_dates_ok};
use crate::sync::SyncReport;
use crate::order::{goes_before, is_stable_order, stable_order, text_order, SortKey};
use crate::text::{chars_of, string_of, to_lowercase, unicode_lowercase, trim_set, trim_by, words, TrimSet};
use vstd::prelude::*;

verus! {

// ------------------------------------------------------------------
// Themes

/// The colour scheme of the app.
#[derive(Debug, Clone, Copy, PartialEq, Eq, Structural)]
pub enum AppTheme {
    Dark,
    Light,
}

impl Default for AppTheme {
    fn default() -> (r: AppTheme)
        ensures
            r == AppTheme::Dark,
    {
        AppTheme::Dark
    }
}

/// A colour given by its red, green and blue bytes.
#[derive(Debug, Clone, Copy, PartialEq, Eq, Structural)]
pub struct Rgb {
    pub r: u8,
    pub g: u8,
    pub b: u8,
}

/// The colours a theme uses.
#[derive(Debug, Clone, Copy, PartialEq, Eq, Structural)]
pub struct ColorTokens {
    pub bg_base: Rgb,
    pub bg_surface: Rgb,
    pub bg_surface_hover: Rgb,
    pub border_subtle: Rgb,
    pub text_primary: Rgb,
    pub text_secondary: Rgb,
    pub accent_primary: Rgb,
    pub accent_success: Rgb,
    pub accent_warning: Rgb,
    pub accent_danger: Rgb,
}

pub open spec fn rgb(r: u8, g: u8, b: u8) -> Rgb {
    Rgb { r, g, b }
}

/// The colours of each theme.
pub open spec fn theme_colors(t: AppTheme) -> ColorTokens {
    match t {
        AppTheme::Dark => ColorTokens {
            bg_base: rgb(0x15, 0x16, 0x1B),
            bg_surface: rgb(0x1C, 0x1E, 0x26),
            bg_surface_hover: rgb(0x26, 0x28, 0x33),
            border_subtle: rgb(0x2A, 0x2D, 0x3A),
            text_primary: rgb(0xE7, 0xE8, 0xEC),
            text_secondary: rgb(0x8B, 0x8D, 0x98),
            accent_primary: rgb(0x7C, 0x9E, 0xFF),
            accent_success: rgb(0x5F, 0xD9, 0xA4),
            accent_warning: rgb(0xF2, 0xB8, 0x6C),
            accent_danger: rgb(0xF2, 0x74, 0x6C),
        },
        AppTheme::Light => ColorTokens {
            bg_base: rgb(0xF8, 0xF9, 0xFA),
            bg_surface: rgb(0xFF, 0xFF, 0xFF),
            bg_surface_hover: rgb(0xF0, 0xF1, 0xF3),
            border_subtle: rgb(0xE2, 0xE4, 0xE8),
            text_primary: rgb(0x1A, 0x1B, 0x1E),
            text_secondary: rgb(0x6B, 0x6E, 0x7B),
            accent_primary: rgb(0x4F, 0x75, 0xFF),
            accent_success: rgb(0x2E, 0xB8, 0x72),
            accent_warning: rgb(0xD9, 0x8C, 0x38),
            accent_danger: rgb(0xD9, 0x48, 0x38),
        },
    }
}

fn mk(r: u8, g: u8, b: u8) -> (c: Rgb)
    ensures
        c == rgb(r, g, b),
{
    Rgb { r, g, b }
}

impl AppTheme {
    /// The colours of the theme.
    pub fn colors(&self) -> (r: ColorTokens)
        ensures
            r == theme_colors(*self),
    {
        match self {
            AppTheme::Dark => ColorTokens {
                bg_base: mk(0x15, 0x16, 0x1B),
                bg_surface: mk(0x1C, 0x1E, 0x26),
                bg_surface_hover: mk(0x26, 0x28, 0x33),
                border_subtle: mk(0x2A, 0x2D, 0x3A),
                text_primary: mk(0xE7, 0xE8, 0xEC),
                text_secondary: mk(0x8B, 0x8D, 0x98),
                accent_primary: mk(0x7C, 0x9E, 0xFF),
                accent_success: mk(0x5F, 0xD9, 0xA4),
                accent_warning: mk(0xF2, 0xB8, 0x6C),
                accent_danger: mk(0xF2, 0x74, 0x6C),
            },
            AppTheme::Light => ColorTokens {
                bg_base: mk(0xF8, 0xF9, 0xFA),
                bg_surface: mk(0xFF, 0xFF, 0xFF),
                bg_surface_hover: mk(0xF0, 0xF1, 0xF3),
                border_subtle: mk(0xE2, 0xE4, 0xE8),
                text_primary: mk(0x1A, 0x1B, 0x1E),
                text_secondary: mk(0x6B, 0x6E, 0x7B),
                accent_primary: mk(0x4F, 0x75, 0xFF),
                accent_success: mk(0x2E, 0xB8, 0x72),
                accent_warning: mk(0xD9, 0x8C, 0x38),
                accent_danger: mk(0xD9, 0x48, 0x38),
            },
        }
    }

    /// The other theme.
    pub fn toggled(&self) -> (r: AppTheme)
        ensures
            r != *self,
    {
        match self {
            AppTheme::Dark => AppTheme::Light,
            AppTheme::Light => AppTheme::Dark,
        }
    }
}

// ------------------------------------------------------------------
// Views

/// The main view of the app.
#[derive(Debug)]
pub enum ActiveView {
    Today,
    Upcoming,
    /// A task list, by its local id.
    List(String),
    Settings,
}

/// Where a view transition stands.
#[derive(Debug, Clone, Copy, PartialEq, Eq, Structural)]
pub enum ViewFadeDirection {
    FadeOut,
    FadeIn,
    Idle,
}

/// Two views are the same view.
pub open spec fn same_view(a: ActiveView, b: ActiveView) -> bool {
    match (a, b) {
        (ActiveView::Today, ActiveView::Today) => true,
        (ActiveView::Upcoming, ActiveView::Upcoming) => true,
        (ActiveView::Settings, ActiveView::Settings) => true,
        (ActiveView::List(x), ActiveView::List(y)) => x@ == y@,
        _ => false,
    }
}

/// `a` and `b` hold the same text.
pub fn same_string(a: &String, b: &String) -> (r: bool)
    ensures
        r == (a@ == b@),
{
    let x = chars_of(a.as_str());
    let y = chars_of(b.as_str());
    if x.len() != y.len() {
        return false;
    }
    let mut i: usize = 0;
    while i < x.len()
        invariant
            x@ == a@,
            y@ == b@,
            x@.len() == y@.len(),
            i <= x@.len(),
            forall|j: int| 0 <= j < i ==> x@[j] == y@[j],
        decreases x.len() - i,
    {
        if x[i] != y[i] {
            return false;
        }
        i += 1;
    }
    assert(x@ =~= y@);
    true
}

impl ActiveView {
    /// The same view again.
    pub fn clone_view(&self) -> (r: ActiveView)
        ensures
            r == *self,
    {
        match self {
            ActiveView::Today => ActiveView::Today,
            ActiveView::Upcoming => ActiveView::Upcoming,
            ActiveView::List(id) => ActiveView::List(id.clone()),
            ActiveView::Settings => ActiveView::Settings,
        }
    }

    /// Whether two views are the same view.
    pub fn is_same(&self, other: &ActiveView) -> (r: bool)
        ensures
            r == same_view(*self, *other),
    {
        match (self, other) {
            (ActiveView::Today, ActiveView::Today) => true,
            (ActiveView::Upcoming, ActiveView::Upcoming) => true,
            (ActiveView::Settings, ActiveView::Settings) => true,
            (ActiveView::List(x), ActiveView::List(y)) => same_string(x, y),
            _ => false,
        }
    }

    /// Whether this is the view of the list `list_id`.
    pub fn shows_list(&self, list_id: &String) -> (r: bool)
        ensures
            r == (*self matches ActiveView::List(x) && x@ == list_id@),
    {
        match self {
            ActiveView::List(x) => same_string(x, list_id),
            _ => false,
        }
    }
}

/// The view change asked for, or `None` where that view is already shown;
/// a change starts by fading out.
pub fn select_view(active: &ActiveView, requested: ActiveView) -> (r: Option<(ActiveView, ViewFadeDirection)>)
    ensures
        same_view(*active, requested) ==> r is None,
        !same_view(*active, requested) ==> r == Some((requested, ViewFadeDirection::FadeOut)),
{
    if active.is_same(&requested) {
        None
    } else {
        Some((requested, ViewFadeDirection::FadeOut))
    }
}

// ------------------------------------------------------------------
// Task edits

/// The status of a completed task.
pub open spec fn completed_text() -> Seq<char> {
    "completed"@
}

/// The status of an open task.
pub open spec fn needs_action_text() -> Seq<char> {
    "needsAction"@
}

/// `t` is `old` with a local edit made at `now`: pending sync.
pub open spec fn edited(t: Task, old: Task, now: Timestamp) -> bool {
    &&& t.sync_state == SyncState::Pending
    &&& t.updated_at == now
}

/// `t` keeps every field of `old` but status, completion time, starred,
/// sync state and edit time.
pub open spec fn same_content(t: Task, old: Task) -> bool {
    &&& t.id == old.id
    &&& t.google_id == old.google_id
    &&& t.list_id == old.list_id
    &&& t.title == old.title
    &&& t.notes == old.notes
    &&& t.due_date == old.due_date
    &&& t.reminder_time == old.reminder_time
    &&& t.parent_id == old.parent_id
    &&& t.position == old.position
    &&& t.google_updated_at == old.google_updated_at
    &&& t.is_deleted == old.is_deleted
    &&& t.recurrence_rule == old.recurrence_rule
}

/// `r` is `task` completed (where it was open) or reopened (where it was
/// completed), as an edit made at `now`: completing stamps the completion
/// time, reopening clears it; content and star stay.
pub open spec fn completion_toggled(r: Task, task: Task, now: Timestamp) -> bool {
    &&& same_content(r, task)
    &&& r.starred == task.starred
    &&& edited(r, task, now)
    &&& task.status@ == completed_text() ==> r.status@ == needs_action_text() && r.completed_at
        is None
    &&& task.status@ != completed_text() ==> r.status@ == completed_text() && r.completed_at
        == Some(now)
}

/// Completes an open task or reopens a completed one, as an edit made at
/// `now`.
pub fn toggle_completion(task: Task, now: Timestamp) -> (r: Task)
    ensures
        completion_toggled(r, task, now),
{
    let mut t = task;
    if t.is_completed() {
        t.status = String::from_str("needsAction");
        t.completed_at = None;
    } else {
        t.status = String::from_str("completed");
        t.completed_at = Some(now);
    }
    t.sync_state = SyncState::Pending;
    t.updated_at = now;
    t
}

/// `r` is `task` with its star flipped, as an edit made at `now`.
pub open spec fn star_toggled(r: Task, task: Task, now: Timestamp) -> bool {
    &&& same_content(r, task)
    &&& r.status == task.status
    &&& r.completed_at == task.completed_at
    &&& r.starred == !task.starred
    &&& edited(r, task, now)
}

/// Stars an unstarred task or unstars a starred one, as an edit made at
/// `now`.
pub fn toggle_star(task: Task, now: Timestamp) -> (r: Task)
    ensures
        star_toggled(r, task, now),
{
    let mut t = task;
    t.starred = !t.starred;
    t.sync_state = SyncState::Pending;
    t.updated_at = now;
    t
}

/// Completing a task twice undoes the first: an open (`needsAction`) or
/// completed task gets its status back, with its content and star; a task
/// that was open is open again without a completion time.
pub proof fn lemma_complete_twice(a: Task, b: Task, c: Task, n1: Timestamp, n2: Timestamp)
    requires
        a.status@ == completed_text() || a.status@ == needs_action_text(),
        completion_toggled(b, a, n1),
        completion_toggled(c, b, n2),
    ensures
        c.status@ == a.status@,
        same_content(c, a),
        c.starred == a.starred,
        a.status@ == needs_action_text() ==> c.completed_at is None,
{
    reveal_strlit("completed");
    reveal_strlit("needsAction");
    assert(completed_text() != needs_action_text()) by {
        assert(completed_text().len() != needs_action_text().len());
    }
}

/// Starring a task twice gives back its star, status and completion time.
pub proof fn lemma_star_twice(a: Task, b: Task, c: Task, n1: Timestamp, n2: Timestamp)
    requires
        star_toggled(b, a, n1),
        star_toggled(c, b, n2),
    ensures
        c.starred == a.starred,
        c.status == a.status,
        c.completed_at == a.completed_at,
        same_content(c, a),
{
}

// ------------------------------------------------------------------
// Quick add

/// The list a quick-added task goes to: the list shown, else the default
/// list, else the first list.
pub open spec fn quick_add_list_spec(view: ActiveView, lists: Seq<TaskList>) -> Option<Seq<char>> {
    match view {
        ActiveView::List(id) => Some(id@),
        _ => if exists|i: int| 0 <= i < lists.len() && lists[i].is_default {
            Some(lists[first_default(lists)].id@)
        } else if lists.len() > 0 {
            Some(lists[0].id@)
        } else {
            None
        },
    }
}

/// The index of the first default list.
pub open spec fn first_default(lists: Seq<TaskList>) -> int
    decreases lists.len(),
{
    if lists.len() == 0 {
        0
    } else if lists[0].is_default {
        0
    } else {
        1 + first_default(lists.drop_first())
    }
}

proof fn lemma_first_default(lists: Seq<TaskList>)
    requires
        exists|i: int| 0 <= i < lists.len() && lists[i].is_default,
    ensures
        0 <= first_default(lists) < lists.len(),
        lists[first_default(lists)].is_default,
        forall|j: int| 0 <= j < first_default(lists) ==> !lists[j].is_default,
    decreases lists.len(),
{
    if !lists[0].is_default {
        let i = choose|i: int| 0 <= i < lists.len() && lists[i].is_default;
        assert(lists.drop_first()[i - 1].is_default);
        lemma_first_default(lists.drop_first());
        assert forall|j: int| 0 <= j < first_default(lists) implies !lists[j].is_default by {
            if j > 0 {
                assert(lists[j] == lists.drop_first()[j - 1]);
            }
        }
    }
}

/// Picks the list a quick-added task goes to.
pub fn quick_add_list(view: &ActiveView, lists: &Vec<TaskList>) -> (r: Option<String>)
    ensures
        opt_view(r) == quick_add_list_spec(*view, lists@),
{
    match view {
        ActiveView::List(id) => Some(id.clone()),
        _ => {
            let mut i: usize = 0;
            while i < lists.len()
                invariant
                    !(*view is List),
                    i <= lists@.len(),
                    forall|j: int| 0 <= j < i ==> !lists@[j].is_default,
                decreases lists.len() - i,
            {
                if lists[i].is_default {
                    proof {
                        assert(lists@[i as int].is_default);
                        assert(exists|k: int| 0 <= k < lists@.len() && lists@[k].is_default);
                        lemma_first_default(lists@);
                        if first_default(lists@) < i {
                            assert(!lists@[first_default(lists@)].is_default);
                        }
                        if first_default(lists@) > i {
                            assert(!lists@[i as int].is_default);
                        }
                        assert(first_default(lists@) == i);
                    }
                    return Some(lists[i].id.clone());
                }
                i += 1;
            }
            if lists.len() > 0 {
                Some(lists[0].id.clone())
            } else {
                None
            }
        },
    }
}

/// The due date of a quick-added task: the date typed, else today in the
/// Today view or where a time was typed, else none.
pub open spec fn quick_add_due_spec(
    parsed: Option<Date>,
    view: ActiveView,
    reminder: Option<Time>,
    today: Date,
) -> Option<Date> {
    match parsed {
        Some(d) => Some(d),
        None => if view is Today || reminder is Some {
            Some(today)
        } else {
            None
        },
    }
}

/// The due date of a quick-added task, as year, month and day.
pub open spec fn quick_due_ymd(
    parsed: Option<(int, int, int)>,
    view: ActiveView,
    reminder: Option<(int, int, int)>,
    today: (int, int, int),
) -> Option<(int, int, int)> {
    match parsed {
        Some(d) => Some(d),
        None => if view is Today || reminder is Some {
            Some(today)
        } else {
            None
        },
    }
}

/// Picks the due date of a quick-added task.
pub fn quick_add_due(parsed: Option<Date>, view: &ActiveView, reminder: Option<Time>, today: Date) -> (r:
    Option<Date>)
    ensures
        r == quick_add_due_spec(parsed, *view, reminder, today),
{
    match parsed {
        Some(d) => Some(d),
        None => match view {
            ActiveView::Today => Some(today),
            _ => if reminder.is_some() {
                Some(today)
            } else {
                None
            },
        },
    }
}

/// A new local task, not yet on Google, created at `now`.
pub open spec fn is_new_task(
    t: Task,
    id: String,
    list_id: Seq<char>,
    title: Seq<char>,
    due: Option<Date>,
    reminder: Option<Time>,
    parent: Option<String>,
    now: Timestamp,
) -> bool {
    &&& t.id == id
    &&& t.google_id is None
    &&& t.list_id@ == list_id
    &&& t.title@ == title
    &&& t.notes is None
    &&& t.status@ == needs_action_text()
    &&& t.due_date == due
    &&& t.reminder_time == reminder
    &&& t.parent_id == parent
    &&& t.position is None
    &&& t.completed_at is None
    &&& t.updated_at == now
    &&& t.google_updated_at is None
    &&& t.sync_state == SyncState::Pending
    &&& !t.is_deleted
    &&& t.recurrence_rule is None
    &&& !t.starred
}

/// Makes a new local task.
pub fn new_local_task(
    id: String,
    list_id: String,
    title: String,
    due: Option<Date>,
    reminder: Option<Time>,
    parent: Option<String>,
    now: Timestamp,
) -> (r: Task)
    ensures
        is_new_task(r, id, list_id@, title@, due, reminder, parent, now),
{
    Task {
        id,
        google_id: None,
        list_id,
        title,
        notes: None,
        status: String::from_str("needsAction"),
        due_date: due,
        reminder_time: reminder,
        parent_id: parent,
        position: None,
        completed_at: None,
        updated_at: now,
        google_updated_at: None,
        sync_state: SyncState::Pending,
        is_deleted: false,
        recurrence_rule: None,
        starred: false,
    }
}

/// What submitting the quick-add box does.
#[derive(Debug)]
pub enum QuickAdd {
    /// The line holds no title: no task.
    Ignore,
    /// There is no list to add to.
    NeedList,
    /// A new task to keep.
    Create(Task),
}

/// The message shown where a task has no list to go to.
pub open spec fn need_list_text() -> Seq<char> {
    "Create a task list first."@
}

/// Decides what the quick-add box does with `input`, typed in `view` on
/// `today`: the title, date and time are read from the trimmed text; an
/// empty title adds nothing; the task goes to the list of
/// `quick_add_list_spec` with the due date of `quick_add_due_spec`.
pub fn quick_add(
    input: &str,
    view: &ActiveView,
    lists: &Vec<TaskList>,
    today: Date,
    id: String,
    now: Timestamp,
) -> (r: QuickAdd)
    requires
        relative_dates_ok(words(trim_by(input@, TrimSet::WhiteSpace)), today.ymd()),
    ensures
        ({
            let p = parsed_input(trim_by(input@, TrimSet::WhiteSpace), today.ymd());
            if p.0.len() == 0 {
                r is Ignore
            } else {
                match quick_add_list_spec(*view, lists@) {
                    None => r is NeedList,
                    Some(list_id) => r matches QuickAdd::Create(t) && is_new_task(
                        t,
                        id,
                        list_id,
                        p.0,
                        t.due_date,
                        t.reminder_time,
                        None,
                        now,
                    ) && opt_hms(t.reminder_time) == p.2 && opt_ymd(t.due_date) == quick_due_ymd(
                        p.1,
                        *view,
                        p.2,
                        today.ymd(),
                    ),
                }
            }
        }),
{
    let trimmed = string_of(&trim_set(&chars_of(input), TrimSet::WhiteSpace));
    let (title, parsed_date, reminder) = parse_task_input(trimmed.as_str(), today);
    if title.as_str().unicode_len() == 0 {
        return QuickAdd::Ignore;
    }
    let list_id = match quick_add_list(view, lists) {
        Some(l) => l,
        None => return QuickAdd::NeedList,
    };
    let due = quick_add_due(parsed_date, view, reminder, today);
    QuickAdd::Create(new_local_task(id, list_id, title, due, reminder, None, now))
}

// ------------------------------------------------------------------
// Lists

/// The largest position of the lists, or 0 where there are none.
pub open spec fn max_position(lists: Seq<TaskList>) -> int
    decreases lists.len(),
{
    if lists.len() == 0 {
        0
    } else {
        let m = max_position(lists.drop_last());
        if lists.last().position > m {
            lists.last().position as int
        } else {
            m
        }
    }
}

/// The position of a new list: after every existing one.
pub fn next_list_position(lists: &Vec<TaskList>) -> (r: i32)
    requires
        forall|i: int| 0 <= i < lists@.len() ==> lists@[i].position < i32::MAX,
    ensures
        r == max_position(lists@) + 1,
{
    let mut m: i32 = 0;
    let mut i: usize = 0;
    while i < lists.len()
        invariant
            i <= lists@.len(),
            m == max_position(lists@.take(i as int)),
            m < i32::MAX,
            forall|k: int| 0 <= k < lists@.len() ==> lists@[k].position < i32::MAX,
        decreases lists.len() - i,
    {
        proof {
            assert(lists@.take(i + 1).drop_last() =~= lists@.take(i as int));
        }
        if lists[i].position > m {
            m = lists[i].position;
        }
        i += 1;
    }
    proof {
        assert(lists@.take(lists@.len() as int) =~= lists@);
    }
    m + 1
}

/// A new local list, not yet on Google, created at `now`, with the title
/// trimmed; `None` where the trimmed title is empty.
pub fn new_list(id: String, title: &str, position: i32, now: Timestamp) -> (r: Option<TaskList>)
    ensures
        trim_by(title@, TrimSet::WhiteSpace).len() == 0 ==> r is None,
        trim_by(title@, TrimSet::WhiteSpace).len() > 0 ==> (r matches Some(l) && l.id == id
            && l.google_id is None && l.title@ == trim_by(title@, TrimSet::WhiteSpace)
            && l.position == position && !l.is_default && l.updated_at == now),
{
    let t = trim_set(&chars_of(title), TrimSet::WhiteSpace);
    if t.len() == 0 {
        None
    } else {
        Some(
            TaskList {
                id,
                google_id: None,
                title: string_of(&t),
                position,
                is_default: false,
                updated_at: now,
            },
        )
    }
}

/// The view after deleting the list `list_id`: Today where that list was
/// shown, else the view unchanged.
pub fn view_after_list_delete(view: ActiveView, list_id: &String) -> (r: ActiveView)
    ensures
        (view matches ActiveView::List(x) && x@ == list_id@) ==> r is Today,
        !(view matches ActiveView::List(x) && x@ == list_id@) ==> r == view,
{
    if view.shows_list(list_id) {
        ActiveView::Today
    } else {
        view
    }
}

// ------------------------------------------------------------------
// Status messages

/// The decimal text of a count.
pub fn decimal_usize(n: usize) -> (r: String)
    ensures
        r@ == decimal(n as nat),
    decreases n,
{
    let d: u32 = (n % 10) as u32;
    let last = decimal_string(d);
    if n < 10 {
        last
    } else {
        let mut s = decimal_usize(n / 10);
        s.append(last.as_str());
        proof {
            assert(decimal(d as nat) =~= seq![(('0' as nat) + d) as char]);
        }
        s
    }
}

/// The message after a successful sync.
pub open spec fn sync_success_text(r: SyncReport) -> Seq<char> {
    "Sync success! Lists: +"@ + decimal(r.lists_pulled as nat) + "/^"@ + decimal(
        r.lists_pushed as nat,
    ) + ", Tasks: +"@ + decimal(r.tasks_pulled as nat) + "/^"@ + decimal(r.tasks_pushed as nat)
        + "/-"@ + decimal(r.tasks_deleted as nat)
}

/// The message after a successful sync: lists pulled and pushed, tasks
/// pulled, pushed and deleted.
pub fn sync_success_message(report: &SyncReport) -> (r: String)
    ensures
        r@ == sync_success_text(*report),
{
    let mut s = String::from_str("Sync success! Lists: +");
    s.append(decimal_usize(report.lists_pulled).as_str());
    s.append("/^");
    s.append(decimal_usize(report.lists_pushed).as_str());
    s.append(", Tasks: +");
    s.append(decimal_usize(report.tasks_pulled).as_str());
    s.append("/^");
    s.append(decimal_usize(report.tasks_pushed).as_str());
    s.append("/-");
    s.append(decimal_usize(report.tasks_deleted).as_str());
    s
}

/// `t` occurs in `s` as a contiguous piece.
pub open spec fn has_infix(s: Seq<char>, t: Seq<char>) -> bool {
    exists|i: int| 0 <= i <= s.len() - t.len() && #[trigger] s.subrange(i, i + t.len()) == t
}

fn matches_at(s: &Vec<char>, t: &Vec<char>, i: usize) -> (r: bool)
    requires
        i + t@.len() <= s@.len(),
    ensures
        r == (s@.subrange(i as int, i + t@.len()) == t@),
{
    let n = s.len();
    let mut k: usize = 0;
    while k < t.len()
        invariant
            n == s@.len(),
            i + t@.len() <= s@.len(),
            k <= t@.len(),
            forall|j: int| 0 <= j < k ==> s@[i + j] == t@[j],
        decreases t.len() - k,
    {
        if s[i + k] != t[k] {
            assert(s@.subrange(i as int, i + t@.len())[k as int] != t@[k as int]);
            return false;
        }
        k += 1;
    }
    assert(s@.subrange(i as int, i + t@.len()) =~= t@);
    true
}

/// Whether `t` occurs in `s`.
pub fn contains_seq(s: &Vec<char>, t: &Vec<char>) -> (r: bool)
    ensures
        r == has_infix(s@, t@),
{
    if t.len() > s.len() {
        return false;
    }
    let last = s.len() - t.len();
    let mut i: usize = 0;
    loop
        invariant
            last == s@.len() - t@.len(),
            t@.len() <= s@.len(),
            i <= last,
            forall|j: int| 0 <= j < i ==> #[trigger] s@.subrange(j, j + t@.len()) != t@,
        decreases last - i,
    {
        if matches_at(s, t, i) {
            return true;
        }
        if i == last {
            return false;
        }
        i += 1;
    }
}

/// How a failed sync is shown.
#[derive(Debug, Clone, Copy, PartialEq, Eq, Structural)]
pub enum SyncFailure {
    /// Google could not be reached: the app goes offline.
    Offline,
    /// Google refused the sign-in: the user has to sign in again.
    Revoked,
    /// Anything else.
    Other,
}

/// The error texts that mean Google could not be reached.
pub open spec fn offline_marks() -> Seq<Seq<char>> {
    seq![
        "network request failed"@,
        "refresh request failed"@,
        "connect error"@,
        "dns error"@,
        "timeout"@,
        "temporary failure in name resolution"@,
    ]
}

/// The error texts that mean the sign-in was refused.
pub open spec fn revoked_marks() -> Seq<Seq<char>> {
    seq!["failed to refresh token"@, "invalid_grant"@, "token revoked"@]
}

/// Some mark occurs in `s`.
pub open spec fn has_any(s: Seq<char>, marks: Seq<Seq<char>>) -> bool {
    exists|i: int| 0 <= i < marks.len() && has_infix(s, #[trigger] marks[i])
}

/// How a sync error is classified, by the lower-cased error text.
pub open spec fn sync_failure_of(error: Seq<char>) -> SyncFailure {
    let lower = unicode_lowercase(error);
    if has_any(lower, offline_marks()) {
        SyncFailure::Offline
    } else if has_any(lower, revoked_marks()) {
        SyncFailure::Revoked
    } else {
        SyncFailure::Other
    }
}

fn has_any_exec(s: &Vec<char>, marks: &Vec<Vec<char>>) -> (r: bool)
    ensures
        r == has_any(s@, marks@.map_values(|m: Vec<char>| m@)),
{
    let ghost ms = marks@.map_values(|m: Vec<char>| m@);
    let mut i: usize = 0;
    while i < marks.len()
        invariant
            i <= marks@.len(),
            ms == marks@.map_values(|m: Vec<char>| m@),
            forall|j: int| 0 <= j < i ==> !has_infix(s@, #[trigger] ms[j]),
        decreases marks.len() - i,
    {
        if contains_seq(s, &marks[i]) {
            assert(has_infix(s@, ms[i as int]));
            return true;
        }
        i += 1;
    }
    false
}

fn marks_of(items: &[&str]) -> (r: Vec<Vec<char>>)
    ensures
        r@.len() == items@.len(),
        forall|i: int| 0 <= i < items@.len() ==> r@[i]@ == items@[i]@,
{
    let mut v: Vec<Vec<char>> = Vec::new();
    let mut i: usize = 0;
    while i < items.len()
        invariant
            i <= items@.len(),
            v@.len() == i,
            forall|k: int| 0 <= k < i ==> v@[k]@ == items@[k]@,
        decreases items.len() - i,
    {
        v.push(chars_of(items[i]));
        i += 1;
    }
    v
}

/// Classifies a sync error: network trouble makes the app go offline, a
/// refused sign-in asks for a new one.
pub fn classify_sync_error(error: &str) -> (r: SyncFailure)
    ensures
        r == sync_failure_of(error@),
{
    let lower = to_lowercase(&chars_of(error));
    let offline = marks_of(
        &[
            "network request failed",
            "refresh request failed",
            "connect error",
            "dns error",
            "timeout",
            "temporary failure in name resolution",
        ],
    );
    let revoked = marks_of(&["failed to refresh token", "invalid_grant", "token revoked"]);
    proof {
        assert(offline@.map_values(|m: Vec<char>| m@) =~= offline_marks());
        assert(revoked@.map_values(|m: Vec<char>| m@) =~= revoked_marks());
    }
    if has_any_exec(&lower, &offline) {
        SyncFailure::Offline
    } else if has_any_exec(&lower, &revoked) {
        SyncFailure::Revoked
    } else {
        SyncFailure::Other
    }
}

/// An authentication error that comes from the keyring.
pub fn is_keyring_error(error: &str) -> (r: bool)
    ensures
        r == has_infix(unicode_lowercase(error@), "keyring"@),
{
    let lower = to_lowercase(&chars_of(error));
    contains_seq(&lower, &chars_of("keyring"))
}

/// The message shown at start-up for what reading the keyring gave: an
/// error, a stored sign-in, or none.
pub fn startup_status(keyring: &Result<bool, String>) -> (r: String)
    ensures
        r@ == (match keyring {
            Err(_) => "Keyring error occurred."@,
            Ok(true) => "Logged in. Hit Sync to refresh."@,
            Ok(false) => "Not authenticated. Log in from settings."@,
        }),
{
    match keyring {
        Err(_) => String::from_str("Keyring error occurred."),
        Ok(true) => String::from_str("Logged in. Hit Sync to refresh."),
        Ok(false) => String::from_str("Not authenticated. Log in from settings."),
    }
}

/// Notes typed in the detail panel: none where only white space was typed.
pub fn notes_from_input(notes: &String) -> (r: Option<String>)
    ensures
        trim_by(notes@, TrimSet::WhiteSpace).len() == 0 ==> r is None,
        trim_by(notes@, TrimSet::WhiteSpace).len() > 0 ==> r == Some(*notes),
{
    let t = trim_set(&chars_of(notes.as_str()), TrimSet::WhiteSpace);
    if t.len() == 0 {
        None
    } else {
        Some(notes.clone())
    }
}

// ------------------------------------------------------------------
// Command palette

/// What a palette entry does.
#[derive(Debug)]
pub enum PaletteCommand {
    CreateList,
    SyncNow,
    ShowView(ActiveView),
    ToggleTheme,
    ToggleComplete(String),
}

/// An entry of the command palette: its title, what it does, and its
/// category.
#[derive(Debug)]
pub struct PaletteItem {
    pub title: String,
    pub command: PaletteCommand,
    pub category: String,
}

/// The fixed actions of the palette.
pub open spec fn palette_actions() -> Seq<(Seq<char>, PaletteCommand)> {
    seq![
        ("Create New List"@, PaletteCommand::CreateList),
        ("Sync Now"@, PaletteCommand::SyncNow),
        ("Go to Today View"@, PaletteCommand::ShowView(ActiveView::Today)),
        ("Go to Upcoming View"@, PaletteCommand::ShowView(ActiveView::Upcoming)),
        ("Go to Settings"@, PaletteCommand::ShowView(ActiveView::Settings)),
        ("Toggle Dark/Light Mode"@, PaletteCommand::ToggleTheme),
    ]
}

/// An entry as its texts and command.
pub open spec fn item_view(i: PaletteItem) -> (Seq<char>, PaletteCommand, Seq<char>) {
    (i.title@, i.command, i.category@)
}

/// The title matches the (lower-cased) query, ignoring case.
pub open spec fn title_matches(title: Seq<char>, query: Seq<char>) -> bool {
    has_infix(unicode_lowercase(title), query)
}

/// The actions that match the query.
pub open spec fn action_matches(acts: Seq<(Seq<char>, PaletteCommand)>, q: Seq<char>) -> Seq<
    (Seq<char>, PaletteCommand, Seq<char>),
>
    decreases acts.len(),
{
    if acts.len() == 0 {
        Seq::empty()
    } else {
        let prev = action_matches(acts.drop_last(), q);
        let a = acts.last();
        if title_matches(a.0, q) {
            prev.push((a.0, a.1, "Action"@))
        } else {
            prev
        }
    }
}

/// The list entries that match the query.
pub open spec fn list_matches(lists: Seq<TaskList>, q: Seq<char>) -> Seq<
    (Seq<char>, PaletteCommand, Seq<char>),
>
    decreases lists.len(),
{
    if lists.len() == 0 {
        Seq::empty()
    } else {
        let prev = list_matches(lists.drop_last(), q);
        let l = lists.last();
        let title = "Go to List: "@ + l.title@;
        if title_matches(title, q) {
            prev.push((title, PaletteCommand::ShowView(ActiveView::List(l.id)), "List"@))
        } else {
            prev
        }
    }
}

/// The task entries that match the query.
pub open spec fn task_matches(tasks: Seq<Task>, q: Seq<char>) -> Seq<
    (Seq<char>, PaletteCommand, Seq<char>),
>
    decreases tasks.len(),
{
    if tasks.len() == 0 {
        Seq::empty()
    } else {
        let prev = task_matches(tasks.drop_last(), q);
        let t = tasks.last();
        let title = "Toggle: "@ + t.title@;
        if title_matches(title, q) {
            prev.push((title, PaletteCommand::ToggleComplete(t.id), "Task"@))
        } else {
            prev
        }
    }
}

/// The palette entries for a query: the matching actions, then lists, then
/// tasks, each in their order; a title matches where the lower-cased query
/// occurs in the lower-cased title.
pub open spec fn palette_spec(query: Seq<char>, lists: Seq<TaskList>, tasks: Seq<Task>) -> Seq<
    (Seq<char>, PaletteCommand, Seq<char>),
> {
    let q = unicode_lowercase(query);
    action_matches(palette_actions(), q) + list_matches(lists, q) + task_matches(tasks, q)
}

/// The palette entry for a task.
pub open spec fn task_entry(t: Task) -> (Seq<char>, PaletteCommand, Seq<char>) {
    ("Toggle: "@ + t.title@, PaletteCommand::ToggleComplete(t.id), "Task"@)
}

proof fn lemma_action_entries(acts: Seq<(Seq<char>, PaletteCommand)>, q: Seq<char>)
    ensures
        forall|i: int|
            0 <= i < action_matches(acts, q).len() ==> (#[trigger] action_matches(acts, q)[i]).2
                == "Action"@,
    decreases acts.len(),
{
    if acts.len() > 0 {
        lemma_action_entries(acts.drop_last(), q);
        let prev = action_matches(acts.drop_last(), q);
        let am = action_matches(acts, q);
        assert forall|i: int| 0 <= i < am.len() implies (#[trigger] am[i]).2 == "Action"@ by {
            if i < prev.len() {
                assert(am[i] == prev[i]);
            }
        }
    }
}

proof fn lemma_list_entries(lists: Seq<TaskList>, q: Seq<char>)
    ensures
        forall|i: int|
            0 <= i < list_matches(lists, q).len() ==> (#[trigger] list_matches(lists, q)[i]).2 == "List"@,
    decreases lists.len(),
{
    if lists.len() > 0 {
        lemma_list_entries(lists.drop_last(), q);
        let prev = list_matches(lists.drop_last(), q);
        let lm = list_matches(lists, q);
        assert forall|i: int| 0 <= i < lm.len() implies (#[trigger] lm[i]).2 == "List"@ by {
            if i < prev.len() {
                assert(lm[i] == prev[i]);
            }
        }
    }
}

/// Task `k` gives a palette entry for the query `q`.
pub open spec fn entry_of_task(tasks: Seq<Task>, q: Seq<char>, e: (Seq<char>, PaletteCommand, Seq<char>), k: int) -> bool {
    0 <= k < tasks.len() && e == task_entry(tasks[k]) && has_infix(
        unicode_lowercase("Toggle: "@ + tasks[k].title@),
        q,
    )
}

proof fn lemma_task_entry_source(tasks: Seq<Task>, q: Seq<char>, i: int) -> (k: int)
    requires
        0 <= i < task_matches(tasks, q).len(),
    ensures
        entry_of_task(tasks, q, task_matches(tasks, q)[i], k),
    decreases tasks.len(),
{
    let d = tasks.drop_last();
    let prev = task_matches(d, q);
    let tm = task_matches(tasks, q);
    if i < prev.len() {
        assert(tm[i] == prev[i]);
        let k = lemma_task_entry_source(d, q, i);
        assert(d[k] == tasks[k]);
        k
    } else {
        tasks.len() - 1
    }
}

proof fn lemma_task_listed(tasks: Seq<Task>, q: Seq<char>, k: int)
    requires
        0 <= k < tasks.len(),
        has_infix(unicode_lowercase("Toggle: "@ + tasks[k].title@), q),
    ensures
        task_matches(tasks, q).contains(task_entry(tasks[k])),
    decreases tasks.len(),
{
    let d = tasks.drop_last();
    let prev = task_matches(d, q);
    if k == tasks.len() - 1 {
        assert(task_matches(tasks, q)[prev.len() as int] == task_entry(tasks[k]));
    } else {
        assert(d[k] == tasks[k]);
        lemma_task_listed(d, q, k);
        let j = choose|j: int| 0 <= j < prev.len() && prev[j] == task_entry(tasks[k]);
        assert(task_matches(tasks, q)[j] == task_entry(tasks[k]));
    }
}

/// Action `k` of `acts` gives a palette entry for the query `q`.
pub open spec fn entry_of_action(acts: Seq<(Seq<char>, PaletteCommand)>, q: Seq<char>, e: (Seq<char>, PaletteCommand, Seq<char>), k: int) -> bool {
    0 <= k < acts.len() && e == (acts[k].0, acts[k].1, "Action"@) && has_infix(unicode_lowercase(acts[k].0), q)
}

proof fn lemma_action_entry_source(acts: Seq<(Seq<char>, PaletteCommand)>, q: Seq<char>, i: int) -> (k: int)
    requires
        0 <= i < action_matches(acts, q).len(),
    ensures
        entry_of_action(acts, q, action_matches(acts, q)[i], k),
    decreases acts.len(),
{
    let d = acts.drop_last();
    let prev = action_matches(d, q);
    let am = action_matches(acts, q);
    if i < prev.len() {
        assert(am[i] == prev[i]);
        let k = lemma_action_entry_source(d, q, i);
        assert(d[k] == acts[k]);
        k
    } else {
        acts.len() - 1
    }
}

proof fn lemma_action_listed(acts: Seq<(Seq<char>, PaletteCommand)>, q: Seq<char>, k: int)
    requires
        0 <= k < acts.len(),
        has_infix(unicode_lowercase(acts[k].0), q),
    ensures
        action_matches(acts, q).contains((acts[k].0, acts[k].1, "Action"@)),
    decreases acts.len(),
{
    let d = acts.drop_last();
    let prev = action_matches(d, q);
    let e = (acts[k].0, acts[k].1, "Action"@);
    if k == acts.len() - 1 {
        assert(action_matches(acts, q)[prev.len() as int] == e);
    } else {
        assert(d[k] == acts[k]);
        lemma_action_listed(d, q, k);
        let j = choose|j: int| 0 <= j < prev.len() && prev[j] == e;
        assert(action_matches(acts, q)[j] == e);
    }
}

/// The palette offers one of its fixed actions exactly when the lower-cased
/// query occurs in the lower-cased action title.
pub proof fn lemma_palette_lists_action(query: Seq<char>, lists: Seq<TaskList>, tasks: Seq<Task>, k: int)
    requires
        0 <= k < palette_actions().len(),
    ensures
        palette_spec(query, lists, tasks).contains(
            (palette_actions()[k].0, palette_actions()[k].1, "Action"@),
        ) <==> has_infix(unicode_lowercase(palette_actions()[k].0), unicode_lowercase(query)),
{
    reveal_strlit("Action");
    reveal_strlit("List");
    reveal_strlit("Task");
    let acts = palette_actions();
    let q = unicode_lowercase(query);
    let a = action_matches(acts, q);
    let l = list_matches(lists, q);
    let t = task_matches(tasks, q);
    let all = palette_spec(query, lists, tasks);
    assert(all == a + l + t);
    let e = (acts[k].0, acts[k].1, "Action"@);
    lemma_list_entries(lists, q);
    if all.contains(e) {
        let i = choose|i: int| 0 <= i < all.len() && all[i] == e;
        if i < a.len() {
            assert(all[i] == a[i]);
            let j = lemma_action_entry_source(acts, q, i);
        } else if i < a.len() + l.len() {
            assert(all[i] == l[i - a.len()]);
            assert(l[i - a.len()].2 == "List"@);
            assert(e.2.len() == 6);
        } else {
            assert(all[i] == t[i - a.len() - l.len()]);
            let j = lemma_task_entry_source(tasks, q, i - a.len() - l.len());
            assert(e.2.len() == 6);
        }
    }
    if has_infix(unicode_lowercase(acts[k].0), q) {
        lemma_action_listed(acts, q, k);
        let j = choose|j: int| 0 <= j < a.len() && a[j] == e;
        assert(all[j] == e);
    }
}

/// The palette lists the matching actions first, then the matching lists,
/// then the matching tasks.
pub proof fn lemma_palette_groups(query: Seq<char>, lists: Seq<TaskList>, tasks: Seq<Task>, i: int, j: int)
    requires
        0 <= i < j < palette_spec(query, lists, tasks).len(),
    ensures
        palette_spec(query, lists, tasks)[j].2 == "Action"@ ==> palette_spec(query, lists, tasks)[i].2
            == "Action"@,
        palette_spec(query, lists, tasks)[j].2 == "List"@ ==> palette_spec(query, lists, tasks)[i].2
            != "Task"@,
{
    reveal_strlit("Action");
    reveal_strlit("List");
    reveal_strlit("Task");
    let q = unicode_lowercase(query);
    let a = action_matches(palette_actions(), q);
    let l = list_matches(lists, q);
    let t = task_matches(tasks, q);
    let all = palette_spec(query, lists, tasks);
    assert(all == a + l + t);
    lemma_action_entries(palette_actions(), q);
    lemma_list_entries(lists, q);
    assert forall|x: int| 0 <= x < all.len() implies (#[trigger] all[x]).2 == (if x < a.len() {
        "Action"@
    } else if x < a.len() + l.len() {
        "List"@
    } else {
        "Task"@
    }) by {
        if x < a.len() {
            assert(all[x] == a[x]);
        } else if x < a.len() + l.len() {
            assert(all[x] == l[x - a.len()]);
        } else {
            assert(all[x] == t[x - a.len() - l.len()]);
            let k = lemma_task_entry_source(tasks, q, x - a.len() - l.len());
        }
    }
    assert(all[i].2 == "Action"@ || all[i].2 == "List"@ || all[i].2 == "Task"@);
    assert("Action"@ != "List"@ && "Action"@ != "Task"@ && "List"@ != "Task"@) by {
        assert("List"@[0] != "Task"@[0]);
    }
}

/// The palette entry for a list.
pub open spec fn list_entry(l: TaskList) -> (Seq<char>, PaletteCommand, Seq<char>) {
    ("Go to List: "@ + l.title@, PaletteCommand::ShowView(ActiveView::List(l.id)), "List"@)
}

/// List `k` gives a palette entry for the query `q`.
pub open spec fn entry_of_list(lists: Seq<TaskList>, q: Seq<char>, e: (Seq<char>, PaletteCommand, Seq<char>), k: int) -> bool {
    0 <= k < lists.len() && e == list_entry(lists[k]) && has_infix(
        unicode_lowercase("Go to List: "@ + lists[k].title@),
        q,
    )
}

proof fn lemma_list_entry_source(lists: Seq<TaskList>, q: Seq<char>, i: int) -> (k: int)
    requires
        0 <= i < list_matches(lists, q).len(),
    ensures
        entry_of_list(lists, q, list_matches(lists, q)[i], k),
    decreases lists.len(),
{
    let d = lists.drop_last();
    let prev = list_matches(d, q);
    let lm = list_matches(lists, q);
    if i < prev.len() {
        assert(lm[i] == prev[i]);
        let k = lemma_list_entry_source(d, q, i);
        assert(d[k] == lists[k]);
        k
    } else {
        lists.len() - 1
    }
}

proof fn lemma_list_listed(lists: Seq<TaskList>, q: Seq<char>, k: int)
    requires
        0 <= k < lists.len(),
        has_infix(unicode_lowercase("Go to List: "@ + lists[k].title@), q),
    ensures
        list_matches(lists, q).contains(list_entry(lists[k])),
    decreases lists.len(),
{
    let d = lists.drop_last();
    let prev = list_matches(d, q);
    if k == lists.len() - 1 {
        assert(list_matches(lists, q)[prev.len() as int] == list_entry(lists[k]));
    } else {
        assert(d[k] == lists[k]);
        lemma_list_listed(d, q, k);
        let j = choose|j: int| 0 <= j < prev.len() && prev[j] == list_entry(lists[k]);
        assert(list_matches(lists, q)[j] == list_entry(lists[k]));
    }
}

/// The palette offers a list exactly when the lower-cased query occurs in
/// the lower-cased entry title `Go to List: <title>`.
pub proof fn lemma_palette_lists_list(query: Seq<char>, lists: Seq<TaskList>, tasks: Seq<Task>, k: int)
    requires
        0 <= k < lists.len(),
    ensures
        palette_spec(query, lists, tasks).contains(list_entry(lists[k])) <==> has_infix(
            unicode_lowercase("Go to List: "@ + lists[k].title@),
            unicode_lowercase(query),
        ),
{
    reveal_strlit("Action");
    reveal_strlit("List");
    reveal_strlit("Task");
    let q = unicode_lowercase(query);
    let a = action_matches(palette_actions(), q);
    let l = list_matches(lists, q);
    let t = task_matches(tasks, q);
    let all = palette_spec(query, lists, tasks);
    assert(all == a + l + t);
    let e = list_entry(lists[k]);
    lemma_action_entries(palette_actions(), q);
    if all.contains(e) {
        let i = choose|i: int| 0 <= i < all.len() && all[i] == e;
        if i < a.len() {
            assert(all[i] == a[i]);
            assert(a[i].2 == "Action"@);
            assert(e.2.len() == 4);
        } else if i < a.len() + l.len() {
            assert(all[i] == l[i - a.len()]);
            let j = lemma_list_entry_source(lists, q, i - a.len());
            assert(lists[j].title@ =~= lists[k].title@) by {
                reveal_strlit("Go to List: ");
                let pj = "Go to List: "@ + lists[j].title@;
                let pk = "Go to List: "@ + lists[k].title@;
                assert(pj == pk);
                assert(pj.skip(12) =~= lists[j].title@);
                assert(pk.skip(12) =~= lists[k].title@);
            }
        } else {
            assert(all[i] == t[i - a.len() - l.len()]);
            let j = lemma_task_entry_source(tasks, q, i - a.len() - l.len());
            assert(e.2[0] == 'L');
        }
    }
    if has_infix(unicode_lowercase("Go to List: "@ + lists[k].title@), q) {
        lemma_list_listed(lists, q, k);
        let j = choose|j: int| 0 <= j < l.len() && l[j] == e;
        assert(all[a.len() + j] == e);
    }
}

/// The palette lists a task exactly when the lower-cased query occurs in
/// the lower-cased entry title `Toggle: <title>`; so the case of the title
/// and of the query does not matter.
pub proof fn lemma_palette_lists_task(query: Seq<char>, lists: Seq<TaskList>, tasks: Seq<Task>, k: int)
    requires
        0 <= k < tasks.len(),
    ensures
        palette_spec(query, lists, tasks).contains(task_entry(tasks[k])) <==> has_infix(
            unicode_lowercase("Toggle: "@ + tasks[k].title@),
            unicode_lowercase(query),
        ),
{
    reveal_strlit("Action");
    reveal_strlit("List");
    reveal_strlit("Task");
    let q = unicode_lowercase(query);
    let a = action_matches(palette_actions(), q);
    let l = list_matches(lists, q);
    let t = task_matches(tasks, q);
    let all = palette_spec(query, lists, tasks);
    assert(all == a + l + t);
    let e = task_entry(tasks[k]);
    lemma_action_entries(palette_actions(), q);
    lemma_list_entries(lists, q);
    if all.contains(e) {
        let i = choose|i: int| 0 <= i < all.len() && all[i] == e;
        if i < a.len() {
            assert(all[i] == a[i]);
            assert(a[i].2 == "Action"@);
            assert(e.2.len() == 4);
        } else if i < a.len() + l.len() {
            assert(all[i] == l[i - a.len()]);
            assert(l[i - a.len()].2 == "List"@);
            assert(e.2[0] == 'T');
        } else {
            assert(all[i] == t[i - a.len() - l.len()]);
            let j = lemma_task_entry_source(tasks, q, i - a.len() - l.len());
            assert(tasks[j].title@ =~= tasks[k].title@) by {
                reveal_strlit("Toggle: ");
                let pj = "Toggle: "@ + tasks[j].title@;
                let pk = "Toggle: "@ + tasks[k].title@;
                assert(pj == pk);
                assert(pj.skip(8) =~= tasks[j].title@);
                assert(pk.skip(8) =~= tasks[k].title@);
            }
        }
    }
    if has_infix(unicode_lowercase("Toggle: "@ + tasks[k].title@), q) {
        lemma_task_listed(tasks, q, k);
        let j = choose|j: int| 0 <= j < t.len() && t[j] == e;
        assert(all[a.len() + l.len() + j] == e);
    }
}

fn push_if_match(
    out: &mut Vec<PaletteItem>,
    q: &Vec<char>,
    title: String,
    command: PaletteCommand,
    category: &str,
) -> (matched: bool)
    ensures
        matched == title_matches(title@, q@),
        matched ==> final(out)@.map_values(|i: PaletteItem| item_view(i)) == old(out)@.map_values(
            |i: PaletteItem| item_view(i),
        ).push((title@, command, category@)),
        !matched ==> final(out)@ == old(out)@,
{
    let lower = to_lowercase(&chars_of(title.as_str()));
    if contains_seq(&lower, q) {
        let ghost before = out@.map_values(|i: PaletteItem| item_view(i));
        out.push(PaletteItem { title, command, category: String::from_str(category) });
        assert(out@.map_values(|i: PaletteItem| item_view(i)) =~= before.push(
            (title@, command, category@),
        ));
        true
    } else {
        false
    }
}

fn fixed_actions() -> (r: Vec<(String, PaletteCommand)>)
    ensures
        r@.map_values(|a: (String, PaletteCommand)| (a.0@, a.1)) == palette_actions(),
{
    let v = vec![
        (String::from_str("Create New List"), PaletteCommand::CreateList),
        (String::from_str("Sync Now"), PaletteCommand::SyncNow),
        (String::from_str("Go to Today View"), PaletteCommand::ShowView(ActiveView::Today)),
        (String::from_str("Go to Upcoming View"), PaletteCommand::ShowView(ActiveView::Upcoming)),
        (String::from_str("Go to Settings"), PaletteCommand::ShowView(ActiveView::Settings)),
        (String::from_str("Toggle Dark/Light Mode"), PaletteCommand::ToggleTheme),
    ];
    assert(v@.map_values(|a: (String, PaletteCommand)| (a.0@, a.1)) =~= palette_actions());
    v
}

impl PaletteCommand {
    /// The same command again.
    pub fn clone_command(&self) -> (r: PaletteCommand)
        ensures
            r == *self,
    {
        match self {
            PaletteCommand::CreateList => PaletteCommand::CreateList,
            PaletteCommand::SyncNow => PaletteCommand::SyncNow,
            PaletteCommand::ShowView(v) => PaletteCommand::ShowView(v.clone_view()),
            PaletteCommand::ToggleTheme => PaletteCommand::ToggleTheme,
            PaletteCommand::ToggleComplete(id) => PaletteCommand::ToggleComplete(id.clone()),
        }
    }
}

fn clone_action(a: &(String, PaletteCommand)) -> (r: (String, PaletteCommand))
    ensures
        r.0@ == a.0@,
        r.1 == a.1,
{
    (a.0.clone(), a.1.clone_command())
}

fn concat(prefix: &str, s: &String) -> (r: String)
    ensures
        r@ == prefix@ + s@,
{
    let mut r = String::from_str(prefix);
    r.append(s.as_str());
    r
}

/// The palette entries that match the typed query.
pub fn palette_matches(query: &str, lists: &Vec<TaskList>, tasks: &Vec<Task>) -> (r: Vec<
    PaletteItem,
>)
    ensures
        r@.map_values(|i: PaletteItem| item_view(i)) == palette_spec(query@, lists@, tasks@),
{
    let q = to_lowercase(&chars_of(query));
    let ghost qs = q@;
    let mut out: Vec<PaletteItem> = Vec::new();
    let acts = fixed_actions();
    let ghost av = acts@.map_values(|a: (String, PaletteCommand)| (a.0@, a.1));
    let mut j: usize = 0;
    proof {
        assert(out@.map_values(|it: PaletteItem| item_view(it)) =~= action_matches(av.take(0), qs));
    }
    while j < acts.len()
        invariant
            j <= acts@.len(),
            qs == q@,
            av == acts@.map_values(|a: (String, PaletteCommand)| (a.0@, a.1)),
            out@.map_values(|it: PaletteItem| item_view(it)) == action_matches(av.take(j as int), qs),
        decreases acts.len() - j,
    {
        let (title, command) = clone_action(&acts[j]);
        push_if_match(&mut out, &q, title, command, "Action");
        proof {
            assert(av.take(j + 1).drop_last() =~= av.take(j as int));
            assert(av.take(j + 1).last() == av[j as int]);
        }
        j += 1;
    }
    proof {
        assert(av.take(av.len() as int) =~= av);
    }
    let ghost after_actions = out@.map_values(|i: PaletteItem| item_view(i));
    let mut i: usize = 0;
    while i < lists.len()
        invariant
            i <= lists@.len(),
            qs == q@,
            out@.map_values(|it: PaletteItem| item_view(it)) == after_actions + list_matches(
                lists@.take(i as int),
                qs,
            ),
        decreases lists.len() - i,
    {
        let l = &lists[i];
        let ghost before = out@.map_values(|it: PaletteItem| item_view(it));
        push_if_match(&mut out, &q, concat("Go to List: ", &l.title), PaletteCommand::ShowView(ActiveView::List(l.id.clone())), "List");
        proof {
            assert(lists@.take(i + 1).drop_last() =~= lists@.take(i as int));
            assert(lists@.take(i + 1).last() == lists@[i as int]);
        }
        i += 1;
    }
    proof {
        assert(lists@.take(lists@.len() as int) =~= lists@);
    }
    let ghost after_lists = out@.map_values(|it: PaletteItem| item_view(it));
    let mut k: usize = 0;
    while k < tasks.len()
        invariant
            k <= tasks@.len(),
            qs == q@,
            out@.map_values(|it: PaletteItem| item_view(it)) == after_lists + task_matches(
                tasks@.take(k as int),
                qs,
            ),
        decreases tasks.len() - k,
    {
        let t = &tasks[k];
        push_if_match(&mut out, &q, concat("Toggle: ", &t.title), PaletteCommand::ToggleComplete(t.id.clone()), "Task");
        proof {
            assert(tasks@.take(k + 1).drop_last() =~= tasks@.take(k as int));
            assert(tasks@.take(k + 1).last() == tasks@[k as int]);
        }
        k += 1;
    }
    proof {
        assert(tasks@.take(tasks@.len() as int) =~= tasks@);
    }
    out
}

/// At most this many palette entries are shown.
pub open spec fn palette_shown(n: int) -> int {
    if n < 8 {
        n
    } else {
        8
    }
}

/// The palette selection after Arrow Down among `n` entries: the next
/// shown entry, wrapping to the first; no move without entries.
pub open spec fn palette_next(index: int, n: int) -> int {
    if n == 0 {
        index
    } else {
        (index + 1) % palette_shown(n)
    }
}

/// The palette selection after Arrow Up among `n` entries: the previous
/// entry, wrapping to the last shown one; no move without entries.
pub open spec fn palette_prev(index: int, n: int) -> int {
    if n == 0 {
        index
    } else if index == 0 {
        palette_shown(n) - 1
    } else {
        index - 1
    }
}

/// The palette selection after Arrow Down.
pub fn palette_down(index: usize, n: usize) -> (r: usize)
    requires
        index < usize::MAX,
    ensures
        r == palette_next(index as int, n as int),
{
    if n == 0 {
        index
    } else {
        let shown = if n < 8 {
            n
        } else {
            8
        };
        (index + 1) % shown
    }
}

/// The palette selection after Arrow Up.
pub fn palette_up(index: usize, n: usize) -> (r: usize)
    ensures
        r == palette_prev(index as int, n as int),
{
    if n == 0 {
        index
    } else if index == 0 {
        if n < 8 {
            n - 1
        } else {
            7
        }
    } else {
        index - 1
    }
}

/// Arrow Up undoes Arrow Down, and Arrow Down undoes Arrow Up, on a shown
/// palette entry.
pub proof fn lemma_palette_moves_undo(index: int, n: int)
    requires
        0 < n,
        0 <= index < palette_shown(n),
    ensures
        palette_prev(palette_next(index, n), n) == index,
        palette_next(palette_prev(index, n), n) == index,
{
    let k = palette_shown(n);
    vstd::arithmetic::div_mod::lemma_mod_self_0(k);
    if index + 1 < k {
        vstd::arithmetic::div_mod::lemma_small_mod((index + 1) as nat, k as nat);
    }
    if index > 0 {
        vstd::arithmetic::div_mod::lemma_small_mod(index as nat, k as nat);
    }
}

// ------------------------------------------------------------------
// Task order

/// A local date and time of day, as chrono's `NaiveDateTime` holds it.
#[derive(Debug, Clone, Copy)]
pub struct LocalNow {
    pub date: Date,
    pub time: Time,
    /// Nanoseconds into the second, below one second.
    pub nanos: u32,
}

/// The whole seconds (rounded towards zero) from `now` to `at`, each given
/// as year, month, day, hour, minute, second (and, for `now`, nanosecond
/// below one second): the difference of their day numbers in days, plus
/// that of their seconds of the day, less the nanoseconds of `now`.
pub open spec fn seconds_between(
    at: (int, int, int, int, int, int),
    now: (int, int, int, int, int, int, int),
) -> int {
    let whole = (day_number((at.0, at.1, at.2)) - day_number((now.0, now.1, now.2))) * 86400 + (at.3
        * 3600 + at.4 * 60 + at.5) - (now.3 * 3600 + now.4 * 60 + now.5);
    if now.6 == 0 || whole <= 0 {
        whole
    } else {
        whole - 1
    }
}

/// chrono's `NaiveDateTime` subtraction read with `TimeDelta::num_seconds`:
/// the whole seconds from `now` to `at`, rounded towards zero.
#[verifier::external_body]
fn chrono_num_seconds_between(at_date: Date, at_time: Time, now: LocalNow) -> (r: i64)
    requires
        now.nanos < 1_000_000_000,
    ensures
        r as int == seconds_between(
            (at_date.ymd().0, at_date.ymd().1, at_date.ymd().2, at_time.hms().0, at_time.hms().1, at_time.hms().2),
            (now.date.ymd().0, now.date.ymd().1, now.date.ymd().2, now.time.hms().0, now.time.hms().1, now.time.hms().2, now.nanos as int),
        ),
{
    let at = chrono::NaiveDate::from_ymd_opt(at_date.year(), at_date.month(), at_date.day()).expect(
        "valid date",
    ).and_hms_opt(at_time.hour(), at_time.minute(), at_time.second()).expect("valid time");
    let n = chrono::NaiveDate::from_ymd_opt(now.date.year(), now.date.month(), now.date.day()).expect(
        "valid date",
    ).and_hms_nano_opt(now.time.hour(), now.time.minute(), now.time.second(), now.nanos).expect(
        "valid time",
    );
    (at - n).num_seconds()
}

/// The moment a task is due: its date at its reminder time, or at
/// midnight.
pub open spec fn due_moment(t: Task) -> Option<(Date, (int, int, int))> {
    match t.due_date {
        Some(d) => Some(
            (
                d,
                match t.reminder_time {
                    Some(r) => r.hms(),
                    None => (0, 0, 0),
                },
            ),
        ),
        None => None,
    }
}

/// How far from `now`, in whole seconds, a task is due.
pub open spec fn due_distance(t: Task, now: LocalNow) -> int {
    let m = due_moment(t)->0;
    let s = seconds_between(
        (m.0.ymd().0, m.0.ymd().1, m.0.ymd().2, m.1.0, m.1.1, m.1.2),
        (now.date.ymd().0, now.date.ymd().1, now.date.ymd().2, now.time.hms().0, now.time.hms().1, now.time.hms().2, now.nanos as int),
    );
    if s < 0 {
        -s
    } else {
        s
    }
}

/// The sort key of a task in a task list: open tasks first; among them
/// starred first, then those with a due date by how near it is to `now`,
/// then the rest by lower-cased title; completed tasks last, the most
/// recently completed first, then those without a completion time by most
/// recent edit.
pub open spec fn is_task_key(k: SortKey, t: Task, now: LocalNow) -> bool {
    if t.status@ != completed_text() {
        &&& k.a == 0
        &&& k.b == (if t.starred {
            0int
        } else {
            1int
        })
        &&& match t.due_date {
            Some(_) => k.c == 0 && k.d == due_distance(t, now) && k.text@ == Seq::<char>::empty(),
            None => k.c == 1 && k.d == 0 && k.text@ == unicode_lowercase(t.title@),
        }
        &&& k.e == 0
        &&& k.f == 0
    } else {
        &&& k.a == 1
        &&& k.b == 0
        &&& k.d == 0
        &&& k.text@ == Seq::<char>::empty()
        &&& match t.completed_at {
            Some(c) => k.c == 0 && k.e == -c.seconds() && k.f == -c.subsec(),
            None => k.c == 1 && k.e == -t.updated_at.seconds() && k.f == -t.updated_at.subsec(),
        }
    }
}

fn task_key(t: &Task, now: LocalNow) -> (k: SortKey)
    requires
        now.nanos < 1_000_000_000,
    ensures
        is_task_key(k, *t, now),
{
    if !t.is_completed() {
        let b: i128 = if t.starred {
            0
        } else {
            1
        };
        match t.due_date {
            Some(d) => {
                let at = match t.reminder_time {
                    Some(r) => r,
                    None => Time::midnight(),
                };
                let s = chrono_num_seconds_between(d, at, now) as i128;
                let dist = if s < 0 {
                    -s
                } else {
                    s
                };
                SortKey { a: 0, b, c: 0, d: dist, text: Vec::new(), e: 0, f: 0 }
            },
            None => SortKey {
                a: 0,
                b,
                c: 1,
                d: 0,
                text: to_lowercase(&chars_of(t.title.as_str())),
                e: 0,
                f: 0,
            },
        }
    } else {
        match t.completed_at {
            Some(c) => SortKey {
                a: 1,
                b: 0,
                c: 0,
                d: 0,
                text: Vec::new(),
                e: -(c.timestamp() as i128),
                f: -(c.timestamp_subsec_nanos() as i128),
            },
            None => SortKey {
                a: 1,
                b: 0,
                c: 1,
                d: 0,
                text: Vec::new(),
                e: -(t.updated_at.timestamp() as i128),
                f: -(t.updated_at.timestamp_subsec_nanos() as i128),
            },
        }
    }
}

/// The sort keys of tasks.
pub open spec fn are_task_keys(keys: Seq<SortKey>, tasks: Seq<Task>, now: LocalNow) -> bool {
    &&& keys.len() == tasks.len()
    &&& forall|i: int| 0 <= i < tasks.len() ==> is_task_key(#[trigger] keys[i], tasks[i], now)
}

fn all_chosen(n: usize) -> (r: Vec<bool>)
    ensures
        r@.len() == n,
        forall|i: int| 0 <= i < n ==> r@[i],
{
    let mut v: Vec<bool> = Vec::new();
    let mut i: usize = 0;
    while i < n
        invariant
            i <= n,
            v@.len() == i,
            forall|k: int| 0 <= k < i ==> v@[k],
        decreases n - i,
    {
        v.push(true);
        i += 1;
    }
    v
}

/// `sorted` is `tasks` put in the order `order`.
pub open spec fn arranged(sorted: Seq<Task>, tasks: Seq<Task>, order: Seq<usize>) -> bool {
    &&& sorted.len() == order.len()
    &&& forall|k: int| 0 <= k < order.len() ==> sorted[k] == tasks[order[k] as int]
}

fn arrange(tasks: &Vec<Task>, order: &Vec<usize>) -> (r: Vec<Task>)
    requires
        forall|k: int| 0 <= k < order@.len() ==> order@[k] < tasks@.len(),
    ensures
        arranged(r@, tasks@, order@),
{
    let mut out: Vec<Task> = Vec::new();
    let mut k: usize = 0;
    while k < order.len()
        invariant
            k <= order@.len(),
            forall|j: int| 0 <= j < order@.len() ==> order@[j] < tasks@.len(),
            out@.len() == k,
            forall|j: int| 0 <= j < k ==> out@[j] == tasks@[order@[j] as int],
        decreases order.len() - k,
    {
        out.push(tasks[order[k]].clone_task());
        k += 1;
    }
    out
}

/// Sorts the tasks of a view for display, as of the local time `now`:
/// a stable sort by `is_task_key`.
pub fn sort_tasks(tasks: &Vec<Task>, now: LocalNow) -> (r: Vec<Task>)
    requires
        now.nanos < 1_000_000_000,
    ensures
        exists|keys: Seq<SortKey>, order: Seq<usize>|
            are_task_keys(keys, tasks@, now) && is_stable_order(
                keys,
                Seq::new(tasks@.len(), |i: int| true),
                order,
            ) && arranged(r@, tasks@, order),
{
    let mut keys: Vec<SortKey> = Vec::new();
    let mut i: usize = 0;
    while i < tasks.len()
        invariant
            i <= tasks@.len(),
            now.nanos < 1_000_000_000,
            keys@.len() == i,
            forall|k: int| 0 <= k < i ==> is_task_key(#[trigger] keys@[k], tasks@[k], now),
        decreases tasks.len() - i,
    {
        keys.push(task_key(&tasks[i], now));
        i += 1;
    }
    let chosen = all_chosen(tasks.len());
    let order = stable_order(&keys, &chosen);
    proof {
        assert(chosen@ =~= Seq::new(tasks@.len(), |i: int| true));
    }
    let r = arrange(tasks, &order);
    proof {
        assert(are_task_keys(keys@, tasks@, now));
    }
    r
}

/// In a sorted task view, completed tasks come after all open ones, and
/// among open tasks the starred ones come first.
pub proof fn lemma_sorted_view_groups(
    tasks: Seq<Task>,
    now: LocalNow,
    keys: Seq<SortKey>,
    order: Seq<usize>,
    sorted: Seq<Task>,
    p: int,
    q: int,
)
    requires
        are_task_keys(keys, tasks, now),
        is_stable_order(keys, Seq::new(tasks.len(), |i: int| true), order),
        arranged(sorted, tasks, order),
        0 <= p < q < sorted.len(),
    ensures
        sorted[p].status@ == completed_text() ==> sorted[q].status@ == completed_text(),
        sorted[p].status@ != completed_text() && sorted[q].status@ != completed_text()
            && sorted[q].starred ==> sorted[p].starred,
{
    let i = order[p] as int;
    let j = order[q] as int;
    assert(goes_before(keys, i, j));
    assert(is_task_key(keys[i], tasks[i], now));
    assert(is_task_key(keys[j], tasks[j], now));
}

/// How far, in whole seconds, the moment a task is due lies from `now`:
/// its due date at its reminder time, or at midnight where it has none.
pub open spec fn seconds_from_due(t: Task, now: LocalNow) -> int {
    let d = t.due_date->0.ymd();
    let at = match t.reminder_time {
        Some(r) => r.hms(),
        None => (0int, 0int, 0int),
    };
    let s = seconds_between(
        (d.0, d.1, d.2, at.0, at.1, at.2),
        (now.date.ymd().0, now.date.ymd().1, now.date.ymd().2, now.time.hms().0, now.time.hms().1, now.time.hms().2, now.nanos as int),
    );
    if s < 0 {
        -s
    } else {
        s
    }
}

/// In a sorted task view, of two open tasks with due dates, both starred or
/// both not, the one placed first is due nearer to `now`, counting its
/// reminder time.
pub proof fn lemma_sorted_by_nearest_due(
    tasks: Seq<Task>,
    now: LocalNow,
    keys: Seq<SortKey>,
    order: Seq<usize>,
    sorted: Seq<Task>,
    p: int,
    q: int,
)
    requires
        are_task_keys(keys, tasks, now),
        is_stable_order(keys, Seq::new(tasks.len(), |i: int| true), order),
        arranged(sorted, tasks, order),
        0 <= p < q < sorted.len(),
        sorted[p].status@ != completed_text() && sorted[q].status@ != completed_text(),
        sorted[p].starred == sorted[q].starred,
        sorted[p].due_date is Some && sorted[q].due_date is Some,
    ensures
        seconds_from_due(sorted[p], now) <= seconds_from_due(sorted[q], now),
{
    let i = order[p] as int;
    let j = order[q] as int;
    assert(goes_before(keys, i, j));
    assert(is_task_key(keys[i], tasks[i], now));
    assert(is_task_key(keys[j], tasks[j], now));
}

/// In a sorted task view, among open tasks that are both starred or both
/// not, those with a due date come before those without, and those without
/// go by their lower-cased titles; among completed tasks, those with a
/// completion time come first, the later completed before the earlier.
pub proof fn lemma_sorted_view_rest(
    tasks: Seq<Task>,
    now: LocalNow,
    keys: Seq<SortKey>,
    order: Seq<usize>,
    sorted: Seq<Task>,
    p: int,
    q: int,
)
    requires
        are_task_keys(keys, tasks, now),
        is_stable_order(keys, Seq::new(tasks.len(), |i: int| true), order),
        arranged(sorted, tasks, order),
        0 <= p < q < sorted.len(),
    ensures
        sorted[p].status@ != completed_text() && sorted[q].status@ != completed_text()
            && sorted[p].starred == sorted[q].starred ==> (sorted[q].due_date is Some
            ==> sorted[p].due_date is Some) && (sorted[p].due_date is None ==> text_order(
            unicode_lowercase(sorted[p].title@),
            unicode_lowercase(sorted[q].title@),
        ) <= 0),
        sorted[p].status@ == completed_text() && sorted[q].status@ == completed_text() ==> (
        sorted[q].completed_at is Some ==> sorted[p].completed_at is Some),
        sorted[p].status@ == completed_text() && sorted[q].status@ == completed_text()
            && sorted[p].completed_at is Some && sorted[q].completed_at is Some ==> ({
            let cp = sorted[p].completed_at->0;
            let cq = sorted[q].completed_at->0;
            cp.seconds() > cq.seconds() || (cp.seconds() == cq.seconds() && cp.subsec()
                >= cq.subsec())
        }),
{
    let i = order[p] as int;
    let j = order[q] as int;
    assert(goes_before(keys, i, j));
    assert(is_task_key(keys[i], tasks[i], now));
    assert(is_task_key(keys[j], tasks[j], now));
    crate::order::lemma_text_order_range(keys[i].text@, keys[j].text@);
}

// ------------------------------------------------------------------
// Keyboard navigation

/// Dates in calendar order.
pub open spec fn ymd_before(a: (int, int, int), b: (int, int, int)) -> bool {
    a.0 < b.0 || (a.0 == b.0 && (a.1 < b.1 || (a.1 == b.1 && a.2 < b.2)))
}

pub(crate) fn date_before(a: &Date, b: &Date) -> (r: bool)
    ensures
        r == ymd_before(a.ymd(), b.ymd()),
{
    let ay: i32 = a.year();
    let am: u32 = a.month();
    let ad: u32 = a.day();
    let by: i32 = b.year();
    let bm: u32 = b.month();
    let bd: u32 = b.day();
    ay < by || (ay == by && (am < bm || (am == bm && ad < bd)))
}

/// A top-level task (not a subtask).
pub open spec fn is_top(t: Task) -> bool {
    t.parent_id is None
}

/// An open top-level task due before `today`.
pub open spec fn is_overdue(t: Task, today: Date) -> bool {
    is_top(t) && t.status@ != completed_text() && (t.due_date matches Some(d) && ymd_before(
        d.ymd(),
        today.ymd(),
    ))
}

/// An open top-level task due `today` or without a due date.
pub open spec fn is_for_today(t: Task, today: Date) -> bool {
    is_top(t) && t.status@ != completed_text() && match t.due_date {
        Some(d) => d.ymd() == today.ymd(),
        None => true,
    }
}

/// A completed top-level task.
pub open spec fn is_done_top(t: Task) -> bool {
    is_top(t) && t.status@ == completed_text()
}

/// An open top-level task.
pub open spec fn is_open_top(t: Task) -> bool {
    is_top(t) && t.status@ != completed_text()
}

/// The ids of tasks.
pub open spec fn ids_of(tasks: Seq<Task>) -> Seq<Seq<char>> {
    tasks.map_values(|t: Task| t.id@)
}

/// The ids of strings.
pub open spec fn id_views(ids: Seq<String>) -> Seq<Seq<char>> {
    ids.map_values(|s: String| s@)
}

fn push_ids_where(
    out: &mut Vec<String>,
    tasks: &Vec<Task>,
    today: &Date,
    which: u8,
)
    requires
        which < 4,
    ensures
        id_views(final(out)@) == id_views(old(out)@) + ids_of(tasks@.filter(|t: Task| nav_class(t, *today, which))),
{
    let mut i: usize = 0;
    proof {
        reveal(Seq::filter);
        assert(tasks@.take(0).filter(|t: Task| nav_class(t, *today, which)) =~= Seq::<Task>::empty());
        assert(id_views(out@) =~= id_views(old(out)@) + ids_of(Seq::<Task>::empty()));
    }
    while i < tasks.len()
        invariant
            i <= tasks@.len(),
            which < 4,
            id_views(out@) == id_views(old(out)@) + ids_of(tasks@.take(i as int).filter(|t: Task| nav_class(t, *today, which))),
        decreases tasks.len() - i,
    {
        let t = &tasks[i];
        let top = t.parent_id.is_none();
        let done = t.is_completed();
        let keep = if which == 0 {
            top && !done && match t.due_date {
                Some(d) => date_before(&d, today),
                None => false,
            }
        } else if which == 1 {
            top && !done && match t.due_date {
                Some(d) => !date_before(&d, today) && !date_before(today, &d),
                None => true,
            }
        } else if which == 2 {
            top && done
        } else {
            top && !done
        };
        proof {
            reveal(Seq::filter);
            assert(tasks@.take(i + 1).drop_last() =~= tasks@.take(i as int));
            assert(tasks@.take(i + 1).last() == tasks@[i as int]);
            if which == 1 {
                if let Some(d) = t.due_date {
                    if !ymd_before(d.ymd(), today.ymd()) && !ymd_before(today.ymd(), d.ymd()) {
                        assert(d.ymd() == today.ymd());
                    }
                }
            }
        }
        let ghost before = id_views(out@);
        if keep {
            out.push(t.id.clone());
            proof {
                assert(id_views(out@) =~= before.push(t.id@));
            }
        }
        proof {
            let f = |t: Task| nav_class(t, *today, which);
            if keep {
                assert(tasks@.take(i + 1).filter(f) == tasks@.take(i as int).filter(f).push(tasks@[i as int]));
                assert(ids_of(tasks@.take(i + 1).filter(f)) =~= ids_of(tasks@.take(i as int).filter(f)).push(t.id@));
                assert(id_views(out@) =~= id_views(old(out)@) + ids_of(tasks@.take(i + 1).filter(f)));
            } else {
                assert(tasks@.take(i + 1).filter(f) == tasks@.take(i as int).filter(f));
            }
        }
        i += 1;
    }
    proof {
        assert(tasks@.take(tasks@.len() as int) =~= tasks@);
    }
}

/// The classes of tasks that keyboard navigation walks through, in turn.
pub open spec fn nav_class(t: Task, today: Date, which: u8) -> bool {
    if which == 0 {
        is_overdue(t, today)
    } else if which == 1 {
        is_for_today(t, today)
    } else if which == 2 {
        is_done_top(t)
    } else {
        is_open_top(t)
    }
}

/// The sort key of a task in the Upcoming view: undated tasks first, then
/// by due date.
pub open spec fn is_upcoming_key(k: SortKey, t: Task) -> bool {
    &&& match t.due_date {
        Some(d) => k.a == 1 && k.b == d.ymd().0 && k.c == d.ymd().1 && k.d == d.ymd().2,
        None => k.a == 0 && k.b == 0 && k.c == 0 && k.d == 0,
    }
    &&& k.text@ == Seq::<char>::empty()
    &&& k.e == 0
    &&& k.f == 0
}

/// Which tasks are top-level.
pub open spec fn top_flags(tasks: Seq<Task>) -> Seq<bool> {
    tasks.map_values(|t: Task| is_top(t))
}

/// The Upcoming sort keys of tasks.
pub open spec fn upcoming_keys(keys: Seq<SortKey>, tasks: Seq<Task>) -> bool {
    &&& keys.len() == tasks.len()
    &&& forall|i: int| 0 <= i < tasks.len() ==> is_upcoming_key(#[trigger] keys[i], tasks[i])
}

/// The order in which keyboard navigation walks the tasks shown in a view
/// (their ids): in Today, overdue tasks, then today's and undated ones,
/// then completed ones; in a list, open tasks then completed ones; in
/// Upcoming, grouped by due date with undated ones first; subtasks are
/// skipped. `today` is the date the Today view is taken on.
pub open spec fn nav_order_spec(view: ActiveView, tasks: Seq<Task>, today: Date, r: Seq<Seq<char>>) -> bool {
    match view {
        ActiveView::Today => r == ids_of(tasks.filter(|t: Task| nav_class(t, today, 0)))
            + ids_of(tasks.filter(|t: Task| nav_class(t, today, 1))) + ids_of(
            tasks.filter(|t: Task| nav_class(t, today, 2)),
        ),
        ActiveView::List(_) => r == ids_of(tasks.filter(|t: Task| nav_class(t, today, 3)))
            + ids_of(tasks.filter(|t: Task| nav_class(t, today, 2))),
        ActiveView::Upcoming => exists|keys: Seq<SortKey>, order: Seq<usize>|
            #![trigger is_stable_order(keys, top_flags(tasks), order)]
            {
                &&& upcoming_keys(keys, tasks)
                &&& is_stable_order(keys, top_flags(tasks), order)
                &&& r == order.map_values(|k: usize| tasks[k as int].id@)
            },
        ActiveView::Settings => r.len() == 0,
    }
}

fn upcoming_key(t: &Task) -> (k: SortKey)
    ensures
        is_upcoming_key(k, *t),
{
    match t.due_date {
        Some(d) => SortKey {
            a: 1,
            b: d.year() as i128,
            c: d.month() as i128,
            d: d.day() as i128,
            text: Vec::new(),
            e: 0,
            f: 0,
        },
        None => SortKey { a: 0, b: 0, c: 0, d: 0, text: Vec::new(), e: 0, f: 0 },
    }
}

/// The ids of the shown tasks in the order keyboard navigation walks them.
pub fn nav_order(view: &ActiveView, tasks: &Vec<Task>, today: Date) -> (r: Vec<String>)
    ensures
        nav_order_spec(*view, tasks@, today, id_views(r@)),
{
    let mut out: Vec<String> = Vec::new();
    match view {
        ActiveView::Today => {
            push_ids_where(&mut out, tasks, &today, 0);
            push_ids_where(&mut out, tasks, &today, 1);
            push_ids_where(&mut out, tasks, &today, 2);
            proof {
                assert(id_views(Seq::<String>::empty()) =~= Seq::<Seq<char>>::empty());
            }
        },
        ActiveView::List(_) => {
            push_ids_where(&mut out, tasks, &today, 3);
            push_ids_where(&mut out, tasks, &today, 2);
            proof {
                assert(id_views(Seq::<String>::empty()) =~= Seq::<Seq<char>>::empty());
            }
        },
        ActiveView::Upcoming => {
            let mut keys: Vec<SortKey> = Vec::new();
            let mut chosen: Vec<bool> = Vec::new();
            let mut i: usize = 0;
            while i < tasks.len()
                invariant
                    i <= tasks@.len(),
                    keys@.len() == i,
                    chosen@.len() == i,
                    forall|k: int| 0 <= k < i ==> is_upcoming_key(#[trigger] keys@[k], tasks@[k]),
                    forall|k: int| 0 <= k < i ==> chosen@[k] == is_top(tasks@[k]),
                decreases tasks.len() - i,
            {
                keys.push(upcoming_key(&tasks[i]));
                chosen.push(tasks[i].parent_id.is_none());
                i += 1;
            }
            let order = stable_order(&keys, &chosen);
            let mut k: usize = 0;
            while k < order.len()
                invariant
                    k <= order@.len(),
                    forall|j: int| 0 <= j < order@.len() ==> order@[j] < tasks@.len(),
                    id_views(out@) == order@.take(k as int).map_values(|x: usize| tasks@[x as int].id@),
                decreases order.len() - k,
            {
                let ghost before = id_views(out@);
                out.push(tasks[order[k]].id.clone());
                proof {
                    assert(order@.take(k + 1) =~= order@.take(k as int).push(order@[k as int]));
                    assert(id_views(out@) =~= before.push(tasks@[order@[k as int] as int].id@));
                    assert(order@.take(k + 1).map_values(|x: usize| tasks@[x as int].id@) =~= order@.take(k as int).map_values(|x: usize| tasks@[x as int].id@).push(tasks@[order@[k as int] as int].id@));
                }
                k += 1;
            }
            proof {
                assert(order@.take(order@.len() as int) =~= order@);
                assert(chosen@ =~= top_flags(tasks@));
                assert(upcoming_keys(keys@, tasks@));
            }
        },
        ActiveView::Settings => {},
    }
    out
}

/// The task selected after moving down: the next one in `order`, staying
/// on the last; the first where nothing (or a task not shown) is selected;
/// `None` where nothing is shown.
pub fn nav_down(order: &Vec<String>, selected: &Option<String>) -> (r: Option<String>)
    ensures
        order@.len() == 0 ==> r is None,
        order@.len() > 0 ==> (r matches Some(id) && id@ == id_views(order@)[nav_down_index(
            id_views(order@),
            opt_view(*selected),
        )]),
{
    if order.len() == 0 {
        return None;
    }
    let i = nav_step(order, selected, true);
    Some(order[i].clone())
}

/// The task selected after moving up: the previous one in `order`, staying
/// on the first; the first where nothing (or a task not shown) is selected.
pub fn nav_up(order: &Vec<String>, selected: &Option<String>) -> (r: Option<String>)
    ensures
        order@.len() == 0 ==> r is None,
        order@.len() > 0 ==> (r matches Some(id) && id@ == id_views(order@)[nav_up_index(
            id_views(order@),
            opt_view(*selected),
        )]),
{
    if order.len() == 0 {
        return None;
    }
    let i = nav_step(order, selected, false);
    Some(order[i].clone())
}

/// The first place of `id` in `ids`, if any.
pub open spec fn first_place(ids: Seq<Seq<char>>, id: Seq<char>) -> Option<int>
    decreases ids.len(),
{
    if ids.len() == 0 {
        None
    } else if ids[0] == id {
        Some(0)
    } else {
        match first_place(ids.drop_first(), id) {
            Some(p) => Some(p + 1),
            None => None,
        }
    }
}

/// Where moving down lands.
pub open spec fn nav_down_index(ids: Seq<Seq<char>>, selected: Option<Seq<char>>) -> int {
    match selected {
        Some(id) => match first_place(ids, id) {
            Some(p) => if p + 1 < ids.len() {
                p + 1
            } else {
                ids.len() - 1
            },
            None => 0,
        },
        None => 0,
    }
}

/// Where moving up lands.
pub open spec fn nav_up_index(ids: Seq<Seq<char>>, selected: Option<Seq<char>>) -> int {
    match selected {
        Some(id) => match first_place(ids, id) {
            Some(p) => if p > 0 {
                p - 1
            } else {
                0
            },
            None => 0,
        },
        None => 0,
    }
}

proof fn lemma_first_place(ids: Seq<Seq<char>>, id: Seq<char>, i: int)
    requires
        0 <= i < ids.len(),
        ids[i] == id,
        forall|j: int| 0 <= j < i ==> ids[j] != id,
    ensures
        first_place(ids, id) == Some(i),
    decreases i,
{
    if i > 0 {
        assert forall|j: int| 0 <= j < i - 1 implies ids.drop_first()[j] != id by {
            assert(ids.drop_first()[j] == ids[j + 1]);
        }
        lemma_first_place(ids.drop_first(), id, i - 1);
    }
}

/// With distinct ids, moving down from any task but the last and then
/// moving up comes back to it, and moving up from any task but the first and
/// then down comes back too.
pub proof fn lemma_down_then_up(ids: Seq<Seq<char>>, p: int)
    requires
        0 <= p < ids.len(),
        forall|i: int, j: int| 0 <= i < j < ids.len() ==> ids[i] != ids[j],
    ensures
        p + 1 < ids.len() ==> nav_up_index(ids, Some(ids[nav_down_index(ids, Some(ids[p]))])) == p,
        p > 0 ==> nav_down_index(ids, Some(ids[nav_up_index(ids, Some(ids[p]))])) == p,
{
    lemma_first_place(ids, ids[p], p);
    if p + 1 < ids.len() {
        lemma_first_place(ids, ids[p + 1], p + 1);
    }
    if p > 0 {
        lemma_first_place(ids, ids[p - 1], p - 1);
    }
}

proof fn lemma_no_place(ids: Seq<Seq<char>>, id: Seq<char>)
    requires
        forall|j: int| 0 <= j < ids.len() ==> ids[j] != id,
    ensures
        first_place(ids, id) is None,
    decreases ids.len(),
{
    if ids.len() > 0 {
        assert forall|j: int| 0 <= j < ids.drop_first().len() implies ids.drop_first()[j] != id by {
            assert(ids.drop_first()[j] == ids[j + 1]);
        }
        lemma_no_place(ids.drop_first(), id);
    }
}

fn nav_step(order: &Vec<String>, selected: &Option<String>, down: bool) -> (r: usize)
    requires
        order@.len() > 0,
    ensures
        r < order@.len(),
        down ==> r == nav_down_index(id_views(order@), opt_view(*selected)),
        !down ==> r == nav_up_index(id_views(order@), opt_view(*selected)),
{
    let ghost ids = id_views(order@);
    match selected {
        None => 0,
        Some(sel) => {
            let mut i: usize = 0;
            while i < order.len()
                invariant
                    i <= order@.len(),
                    ids == id_views(order@),
                    opt_view(*selected) == Some(sel@),
                    forall|j: int| 0 <= j < i ==> ids[j] != sel@,
                decreases order.len() - i,
            {
                if same_string(&order[i], sel) {
                    proof {
                        assert(ids[i as int] == order@[i as int]@);
                        lemma_first_place(ids, sel@, i as int);
                    }
                    if down {
                        return if i + 1 < order.len() {
                            i + 1
                        } else {
                            order.len() - 1
                        };
                    } else {
                        return if i > 0 {
                            i - 1
                        } else {
                            0
                        };
                    }
                }
                assert(ids[i as int] == order@[i as int]@);
                i += 1;
            }
            proof {
                lemma_no_place(ids, sel@);
            }
            0
        },
    }
}

// ------------------------------------------------------------------
// Task details and badges

/// The texts of the detail panel of a task.
#[derive(Debug)]
pub struct DetailFields {
    pub title: String,
    pub notes: String,
    pub due_date: String,
    pub reminder_time: String,
}

/// The detail fields of a task: its title, its notes (or nothing), its due
/// date as `%Y-%m-%d` and its reminder as `%H:%M` (or nothing); all empty
/// where no task is given.
pub fn detail_fields(task: Option<&Task>) -> (r: DetailFields)
    ensures
        match task {
            Some(t) => {
                &&& r.title@ == t.title@
                &&& r.notes@ == (match t.notes {
                    Some(n) => n@,
                    None => Seq::<char>::empty(),
                })
                &&& r.due_date@ == (match t.due_date {
                    Some(d) => date_text(d),
                    None => Seq::<char>::empty(),
                })
                &&& r.reminder_time@ == (match t.reminder_time {
                    Some(x) => crate::calendar::chrono_formatted_time(x.hms(), "%H:%M"@),
                    None => Seq::<char>::empty(),
                })
            },
            None => r.title@.len() == 0 && r.notes@.len() == 0 && r.due_date@.len() == 0
                && r.reminder_time@.len() == 0,
        },
{
    match task {
        Some(t) => DetailFields {
            title: t.title.clone(),
            notes: match &t.notes {
                Some(n) => n.clone(),
                None => String::new(),
            },
            due_date: match t.due_date {
                Some(d) => d.format("%Y-%m-%d"),
                None => String::new(),
            },
            reminder_time: match t.reminder_time {
                Some(x) => x.format("%H:%M"),
                None => String::new(),
            },
        },
        None => DetailFields {
            title: String::new(),
            notes: String::new(),
            due_date: String::new(),
            reminder_time: String::new(),
        },
    }
}

/// The due date typed in the detail panel: none where only white space
/// was typed; else the date the quick-add reader finds in it, else the text
/// read as `%Y-%m-%d`.
pub fn detail_due_date(text: &String, today: Date) -> (r: Option<Date>)
    requires
        relative_dates_ok(words(text@), today.ymd()),
    ensures
        trim_by(text@, TrimSet::WhiteSpace).len() == 0 ==> r is None,
        trim_by(text@, TrimSet::WhiteSpace).len() > 0 ==> opt_ymd(r) == (match parsed_input(
            text@,
            today.ymd(),
        ).1 {
            Some(d) => Some(d),
            None => crate::db::read_date(text@),
        }),
{
    if trim_set(&chars_of(text.as_str()), TrimSet::WhiteSpace).len() == 0 {
        return None;
    }
    let (_, d, _) = parse_task_input(text.as_str(), today);
    match d {
        Some(x) => Some(x),
        None => crate::calendar::parse_date_str(&chars_of(text.as_str()), "%Y-%m-%d"),
    }
}

/// The reminder time typed in the detail panel: none where only white
/// space was typed; else the time the quick-add reader finds after `at`,
/// else the text read as `%H:%M`.
pub fn detail_reminder_time(text: &String, today: Date) -> (r: Option<Time>)
    requires
        relative_dates_ok(words("at "@ + text@), today.ymd()),
    ensures
        trim_by(text@, TrimSet::WhiteSpace).len() == 0 ==> r is None,
        trim_by(text@, TrimSet::WhiteSpace).len() > 0 ==> opt_hms(r) == (match parsed_input(
            "at "@ + text@,
            today.ymd(),
        ).2 {
            Some(t) => Some(t),
            None => match crate::calendar::chrono_parsed_time(text@, "%H:%M"@) {
                Some(p) => Some((p.0 as int, p.1 as int, p.2 as int)),
                None => None,
            },
        }),
{
    if trim_set(&chars_of(text.as_str()), TrimSet::WhiteSpace).len() == 0 {
        return None;
    }
    let line = concat("at ", text);
    let (_, _, t) = parse_task_input(line.as_str(), today);
    match t {
        Some(x) => Some(x),
        None => crate::calendar::parse_time_str(&chars_of(text.as_str()), "%H:%M"),
    }
}

/// How a badge is coloured.
#[derive(Debug, Clone, Copy, PartialEq, Eq, Structural)]
pub enum Tone {
    Secondary,
    Primary,
    Warning,
    Danger,
}

/// The small labels under a task title.
#[derive(Debug)]
pub struct TaskBadges {
    /// The due date as `%b %e`.
    pub due: Option<(String, Tone)>,
    /// The reminder time as `%I:%M %p`.
    pub reminder: Option<(String, Tone)>,
    /// The task recurs.
    pub recurring: Option<Tone>,
    /// The title of the task's list, in the Today and Upcoming views.
    pub list_chip: Option<String>,
    /// Completed and total subtasks, as `completed/total`.
    pub subtasks: Option<String>,
}

/// The title of the list `id`, the first such list.
pub open spec fn list_title_of(lists: Seq<TaskList>, id: Seq<char>) -> Option<Seq<char>>
    decreases lists.len(),
{
    if lists.len() == 0 {
        None
    } else if lists[0].id@ == id {
        Some(lists[0].title@)
    } else {
        list_title_of(lists.drop_first(), id)
    }
}

fn find_list_title(lists: &Vec<TaskList>, id: &String) -> (r: Option<String>)
    ensures
        opt_view(r) == list_title_of(lists@, id@),
{
    let mut i: usize = 0;
    proof {
        assert(lists@.skip(0) =~= lists@);
    }
    while i < lists.len()
        invariant
            i <= lists@.len(),
            list_title_of(lists@, id@) == list_title_of(lists@.skip(i as int), id@),
        decreases lists.len() - i,
    {
        proof {
            assert(lists@.skip(i as int)[0] == lists@[i as int]);
            assert(lists@.skip(i as int).drop_first() =~= lists@.skip(i + 1));
        }
        if same_string(&lists[i].id, id) {
            return Some(lists[i].title.clone());
        }
        i += 1;
    }
    proof {
        assert(lists@.skip(i as int).len() == 0);
    }
    None
}

/// Decides the labels of a task row. `completed` says whether the row shows
/// as completed (done, or being completed); `overdue` whether it sits in the
/// overdue section; `subtask_counts` gives completed and total subtasks.
pub fn task_badges(
    task: &Task,
    completed: bool,
    overdue: bool,
    view: &ActiveView,
    lists: &Vec<TaskList>,
    subtask_counts: Option<(usize, usize)>,
) -> (r: TaskBadges)
    ensures
        match task.due_date {
            Some(d) => r.due matches Some((s, tone)) && s@ == crate::calendar::chrono_formatted_date(
                d.ymd(),
                "%b %e"@,
            ) && tone == (if !completed && overdue {
                Tone::Danger
            } else {
                Tone::Secondary
            }),
            None => r.due is None,
        },
        match task.reminder_time {
            Some(x) => r.reminder matches Some((s, tone)) && s@ == crate::calendar::chrono_formatted_time(
                x.hms(),
                "%I:%M %p"@,
            ) && tone == (if completed {
                Tone::Secondary
            } else {
                Tone::Warning
            }),
            None => r.reminder is None,
        },
        r.recurring == (if task.recurrence_rule is Some {
            Some(
                if completed {
                    Tone::Secondary
                } else {
                    Tone::Primary
                },
            )
        } else {
            None
        }),
        opt_view(r.list_chip) == (if *view is Today || *view is Upcoming {
            list_title_of(lists@, task.list_id@)
        } else {
            None
        }),
        match subtask_counts {
            Some((c, t)) => r.subtasks matches Some(s) && s@ == decimal(c as nat) + "/"@ + decimal(
                t as nat,
            ),
            None => r.subtasks is None,
        },
{
    let due = match task.due_date {
        Some(d) => Some(
            (
                d.format("%b %e"),
                if !completed && overdue {
                    Tone::Danger
                } else {
                    Tone::Secondary
                },
            ),
        ),
        None => None,
    };
    let reminder = match task.reminder_time {
        Some(x) => Some(
            (
                x.format("%I:%M %p"),
                if completed {
                    Tone::Secondary
                } else {
                    Tone::Warning
                },
            ),
        ),
        None => None,
    };
    let recurring = if task.recurrence_rule.is_some() {
        Some(
            if completed {
                Tone::Secondary
            } else {
                Tone::Primary
            },
        )
    } else {
        None
    };
    let list_chip = match view {
        ActiveView::Today | ActiveView::Upcoming => find_list_title(lists, &task.list_id),
        _ => None,
    };
    let subtasks = match subtask_counts {
        Some((c, t)) => {
            let mut s = decimal_usize(c);
            s.append("/");
            s.append(decimal_usize(t).as_str());
            Some(s)
        },
        None => None,
    };
    TaskBadges { due, reminder, recurring, list_chip, subtasks }
}

/// The first `count` chars of a title struck through (each followed by
/// U+0336 COMBINING LONG STROKE OVERLAY), the rest as they are.
pub open spec fn struck(s: Seq<char>, count: int) -> Seq<char>
    decreases s.len(),
{
    if s.len() == 0 {
        Seq::empty()
    } else if s.len() - 1 < count {
        struck(s.drop_last(), count) + seq![s.last(), '\u{0336}']
    } else {
        struck(s.drop_last(), count).push(s.last())
    }
}

/// Strikes through the first `count` chars of a title.
pub fn strike_through(s: &str, count: usize) -> (r: String)
    ensures
        r@ == struck(s@, count as int),
{
    let v = chars_of(s);
    let mut out: Vec<char> = Vec::new();
    let mut i: usize = 0;
    while i < v.len()
        invariant
            v@ == s@,
            i <= v@.len(),
            out@ == struck(v@.take(i as int), count as int),
        decreases v.len() - i,
    {
        proof {
            assert(v@.take(i + 1).drop_last() =~= v@.take(i as int));
            assert(v@.take(i + 1).last() == v@[i as int]);
        }
        out.push(v[i]);
        if i < count {
            out.push('\u{0336}');
            proof {
                assert(out@ =~= struck(v@.take(i as int), count as int) + seq![v@[i as int], '\u{0336}']);
            }
        }
        i += 1;
    }
    proof {
        assert(v@.take(v@.len() as int) =~= v@);
    }
    string_of(&out)
}

/// The ids of `new` tasks that `old` did not hold; none where `old` was
/// empty (the first load animates nothing).
pub fn newly_shown(old: &Vec<Task>, new: &Vec<Task>) -> (r: Vec<String>)
    ensures
        old@.len() == 0 ==> r@.len() == 0,
        old@.len() > 0 ==> id_views(r@) == ids_of(new@.filter(|t: Task| !ids_of(old@).contains(t.id@))),
{
    let mut out: Vec<String> = Vec::new();
    if old.len() == 0 {
        return out;
    }
    let ghost olds = ids_of(old@);
    let ghost f = |t: Task| !ids_of(old@).contains(t.id@);
    let mut i: usize = 0;
    proof {
        reveal(Seq::filter);
        assert(new@.take(0).filter(f) =~= Seq::<Task>::empty());
        assert(id_views(out@) =~= ids_of(Seq::<Task>::empty()));
    }
    while i < new.len()
        invariant
            i <= new@.len(),
            olds == ids_of(old@),
            f == (|t: Task| !ids_of(old@).contains(t.id@)),
            id_views(out@) == ids_of(new@.take(i as int).filter(f)),
        decreases new.len() - i,
    {
        let t = &new[i];
        let mut seen = false;
        let mut k: usize = 0;
        while k < old.len()
            invariant
                k <= old@.len(),
                olds == ids_of(old@),
                seen == (exists|j: int| 0 <= j < k && olds[j] == t.id@),
            decreases old.len() - k,
        {
            if same_string(&old[k].id, &t.id) {
                seen = true;
            }
            assert(olds[k as int] == old@[k as int].id@);
            k += 1;
        }
        proof {
            reveal(Seq::filter);
            assert(new@.take(i + 1).drop_last() =~= new@.take(i as int));
            assert(new@.take(i + 1).last() == new@[i as int]);
            if seen {
                let j = choose|j: int| 0 <= j < old@.len() && olds[j] == t.id@;
                assert(olds.contains(t.id@));
            } else {
                assert(!olds.contains(t.id@));
            }
        }
        let ghost before = id_views(out@);
        if !seen {
            out.push(t.id.clone());
            proof {
                assert(id_views(out@) =~= before.push(t.id@));
                assert(ids_of(new@.take(i + 1).filter(f)) =~= ids_of(new@.take(i as int).filter(f)).push(t.id@));
            }
        }
        i += 1;
    }
    proof {
        assert(new@.take(new@.len() as int) =~= new@);
    }
    out
}

} // verus!
