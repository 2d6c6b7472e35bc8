//! The decisions of the two-way sync with Google Tasks: conflict
//! resolution, what a remote list or task does to the local data, and what
//! a local task sends. The caller runs the sync, performs the database and
//! network work each decision names, and hands the results back.
use crate::calendar::{chrono_parsed_date, chrono_formatted_date, parse_date_str, ymd_of, ymd_text, Date, Time};
use crate::google::{GoogleTask, GoogleTaskList};
use crate::models::{
    chrono_parsed_rfc3339, chrono_rfc3339_text, clone_opt_rule, clone_opt_string, instant_le,
    instant_ok, rfc3339_years, timestamp_le, SyncState, Task, TaskList, Timestamp,
};
use crate::notes::{
    extract_reminder_from_notes, extracted, lemma_pull_reads_pushed_notes, has_crlf, clean_notes, notes_for_push,
    opt_view, pushed_notes,
};
use crate::parser::{opt_hms, opt_ymd};
use vstd::prelude::*;
use vstd::utf8::{decode_utf8, encode_scalar, encode_utf8, encode_utf8_decode_utf8, is_char_boundary};

verus! {

// ------------------------------------------------------------------
// Conflicts

/// Which side of a conflict wins.
#[derive(Clone, Copy, Debug, PartialEq, Eq, Structural)]
pub enum ConflictResolution {
    UseLocal,
    UseRemote,
}

/// Resolves a conflict by most-recent-write-wins: the local edit wins
/// unless the remote one is strictly newer.
pub fn resolve_conflict(local_updated: Timestamp, remote_updated: Timestamp) -> (r:
    ConflictResolution)
    ensures
        (r == ConflictResolution::UseLocal) <==> instant_le(remote_updated, local_updated),
{
    if timestamp_le(&remote_updated, &local_updated) {
        ConflictResolution::UseLocal
    } else {
        ConflictResolution::UseRemote
    }
}

/// Most-recent-write-wins is consistent: of two different edit times the
/// newer wins whichever side holds it, and a tie keeps the local edit.
pub proof fn lemma_conflict_newer_wins(a: Timestamp, b: Timestamp)
    ensures
        instant_le(a, b) || instant_le(b, a),
        instant_le(a, b) && instant_le(b, a) ==> a == b,
{
    if instant_le(a, b) && instant_le(b, a) {
        Timestamp::lemma_parts_determine(a, b);
    }
}

// ------------------------------------------------------------------
// Instants and remote fields

pub open spec fn parts(t: Timestamp) -> (int, int) {
    (t.seconds(), t.subsec())
}

/// Seconds-then-nanoseconds order on instants given by their parts.
pub open spec fn pair_le(a: (int, int), b: (int, int)) -> bool {
    a.0 < b.0 || (a.0 == b.0 && a.1 <= b.1)
}

pub open spec fn opt_parts(t: Option<Timestamp>) -> Option<(int, int)> {
    match t {
        Some(x) => Some(parts(x)),
        None => None,
    }
}

/// The instant a text reads as, if any.
pub open spec fn read_instant(s: Option<String>) -> Option<(int, int)> {
    match s {
        Some(x) => match chrono_parsed_rfc3339(x@) {
            Some(p) => Some((p.0 as int, p.1 as int)),
            None => None,
        },
        None => None,
    }
}

/// Reads an optional RFC 3339 text.
pub fn parse_instant(s: &Option<String>) -> (r: Option<Timestamp>)
    ensures
        opt_parts(r) == read_instant(*s),
{
    match s {
        Some(x) => Timestamp::parse_from_rfc3339(x.as_str()),
        None => None,
    }
}

/// The first ten bytes of a text, read as text.
pub open spec fn first_ten_bytes(s: Seq<char>) -> Seq<char> {
    decode_utf8(encode_utf8(s).subrange(0, 10))
}

/// A remote due value can be cut after its tenth byte.
pub open spec fn due_cuttable(due: Option<String>) -> bool {
    due matches Some(s) ==> is_char_boundary(encode_utf8(s@), 10)
}

/// The date of a remote due value: its first ten bytes as `%Y-%m-%d`.
pub open spec fn remote_due(due: Option<String>) -> Option<(int, int, int)> {
    match due {
        Some(s) => match chrono_parsed_date(first_ten_bytes(s@), "%Y-%m-%d"@) {
            Some(t) => Some(ymd_of(t)),
            None => None,
        },
        None => None,
    }
}

/// Reads the date of a remote due value.
pub fn parse_remote_due(due: &Option<String>) -> (r: Option<Date>)
    requires
        due_cuttable(*due),
    ensures
        opt_ymd(r) == remote_due(*due),
{
    match due {
        Some(s) => {
            let (head, _) = s.as_str().split_at(10);
            proof {
                encode_utf8_decode_utf8(head@);
            }
            let chars = crate::text::chars_of(head);
            parse_date_str(&chars, "%Y-%m-%d")
        },
        None => None,
    }
}

/// A text or the empty text.
pub open spec fn text_or_empty(s: Option<String>) -> Seq<char> {
    match s {
        Some(x) => x@,
        None => Seq::empty(),
    }
}

/// A status or `needsAction`.
pub open spec fn status_or_default(s: Option<String>) -> Seq<char> {
    match s {
        Some(x) => x@,
        None => "needsAction"@,
    }
}

fn string_or_empty(s: &Option<String>) -> (r: String)
    ensures
        r@ == text_or_empty(*s),
{
    match s {
        Some(x) => x.clone(),
        None => String::new(),
    }
}

fn status_or_needs_action(s: &Option<String>) -> (r: String)
    ensures
        r@ == status_or_default(*s),
{
    match s {
        Some(x) => x.clone(),
        None => String::from_str("needsAction"),
    }
}

/// The instant of a remote edit: its `updated` value, or `now` where that
/// is missing or unreadable.
pub open spec fn remote_edit_time(remote: GoogleTask, now: Timestamp) -> (int, int) {
    match read_instant(remote.updated) {
        Some(p) => p,
        None => parts(now),
    }
}

/// Reads the instant of a remote edit.
pub fn remote_updated_at(remote: &GoogleTask, now: Timestamp) -> (r: Timestamp)
    ensures
        parts(r) == remote_edit_time(*remote, now),
{
    match parse_instant(&remote.updated) {
        Some(t) => t,
        None => now,
    }
}

/// `new` takes the remote task's content: title, notes cleaned of reminder
/// lines, status, due date, completion time, position, edit times and the
/// synced state.
pub open spec fn takes_remote_content(new: Task, remote: GoogleTask, edit: (int, int)) -> bool {
    &&& new.title@ == text_or_empty(remote.title)
    &&& opt_view(new.notes) == extracted(opt_view(remote.notes)).0
    &&& new.status@ == status_or_default(remote.status)
    &&& opt_ymd(new.due_date) == remote_due(remote.due)
    &&& opt_parts(new.completed_at) == read_instant(remote.completed)
    &&& new.position == remote.position
    &&& parts(new.updated_at) == edit
    &&& opt_parts(new.google_updated_at) == Some(edit)
    &&& new.sync_state == SyncState::Synced
}

/// `new` keeps the identity of `old`: ids, list, parent and rule, and the
/// reminder time, which stays local.
pub open spec fn keeps_identity(new: Task, old: Task) -> bool {
    &&& new.reminder_time == old.reminder_time
    &&& new.id == old.id
    &&& new.google_id == old.google_id
    &&& new.list_id == old.list_id
    &&& new.parent_id == old.parent_id
    &&& new.recurrence_rule == old.recurrence_rule
}

/// The remote's starred flag, false where missing.
pub open spec fn starred_of(remote: GoogleTask) -> bool {
    match remote.starred {
        Some(b) => b,
        None => false,
    }
}

/// Overwrites a local task with the remote content; the local reminder time
/// stays. A restore (of a task deleted locally) also undeletes it and keeps
/// the local star.
fn apply_remote(local: Task, remote: &GoogleTask, edit: Timestamp, restore: bool) -> (r: Task)
    requires
        due_cuttable(remote.due),
    ensures
        takes_remote_content(r, *remote, parts(edit)),
        keeps_identity(r, local),
        r.is_deleted == (if restore {
            false
        } else {
            local.is_deleted
        }),
        r.starred == (if restore {
            local.starred
        } else {
            starred_of(*remote)
        }),
{
    let (notes, _) = extract_reminder_from_notes(&remote.notes);
    let mut t = local;
    t.title = string_or_empty(&remote.title);
    t.notes = notes;
    t.status = status_or_needs_action(&remote.status);
    t.due_date = parse_remote_due(&remote.due);
    t.completed_at = parse_instant(&remote.completed);
    t.position = clone_opt_string(&remote.position);
    t.updated_at = edit;
    t.google_updated_at = Some(edit);
    if restore {
        t.is_deleted = false;
    } else {
        t.starred = match remote.starred {
            Some(b) => b,
            None => false,
        };
    }
    t.sync_state = SyncState::Synced;
    t
}

// ------------------------------------------------------------------
// Pulling tasks

/// What a remote task does to the local data.
#[derive(Debug)]
pub enum TaskAction {
    /// Nothing to do.
    Skip,
    /// Store a new local task (a pull).
    Create(Task),
    /// Delete the local task with this id.
    HardDelete(String),
    /// Store the updated local task (a pull); `note` tells of a resolved
    /// conflict; `completed_now` asks for the recurrence check.
    Update { task: Task, note: Option<String>, completed_now: bool },
    /// Keep the local edit, marked pending, and tell of the conflict.
    KeepLocal { task: Task, notice: String },
}

/// The note for a conflict resolved in favour of the remote edit.
pub open spec fn remote_won_note(title: Seq<char>) -> Seq<char> {
    "Updated '"@ + title + "' with remote edits (remote changes were newer)"@
}

/// The note for a conflict resolved in favour of the local edit.
pub open spec fn local_won_note(title: Seq<char>) -> Seq<char> {
    "Kept your local edits for '"@ + title + "' (local changes were newer)"@
}

/// The note for a locally deleted task that came back.
pub open spec fn restored_note(title: Seq<char>) -> Seq<char> {
    "Restored deleted task '"@ + title + "' because it was modified remotely"@
}

fn quoted_note(prefix: &str, title: &String, suffix: &str) -> (r: String)
    ensures
        r@ == prefix@ + title@ + suffix@,
{
    let mut s = String::from_str(prefix);
    s.append(title.as_str());
    s.append(suffix);
    s
}

/// The status went from not completed to completed.
pub open spec fn became_completed(old_status: Seq<char>, new_status: Seq<char>) -> bool {
    old_status != "completed"@ && new_status == "completed"@
}

/// The fields of a task pulled from Google for the first time.
pub open spec fn is_pulled_task(t: Task, remote: GoogleTask, list_id: Seq<char>, id: String, edit: (
    int,
    int,
)) -> bool {
    &&& takes_remote_content(t, remote, edit)
    &&& t.id == id
    &&& t.google_id == remote.id
    &&& t.list_id@ == list_id
    &&& t.parent_id is None
    &&& !t.is_deleted
    &&& t.recurrence_rule is None
    &&& t.starred == starred_of(remote)
    &&& opt_hms(t.reminder_time) == extracted(opt_view(remote.notes)).1
}

/// What `remote_task_action` decides for a remote task, as described
/// there.
pub open spec fn is_remote_task_action(
    r: TaskAction,
    existing: Option<Task>,
    remote: GoogleTask,
    list_id: Seq<char>,
    new_id: String,
    now: Timestamp,
) -> bool {
    let edit = remote_edit_time(remote, now);
    let deleted = remote.deleted == Some(true);
    if remote.id is None {
        r is Skip
    } else {
        match existing {
            None => if deleted {
                r is Skip
            } else {
                r matches TaskAction::Create(t) && is_pulled_task(
                    t,
                    remote,
                    list_id,
                    new_id,
                    edit,
                )
            },
            Some(local) => if deleted {
                r == TaskAction::HardDelete(local.id)
            } else {
                match local.sync_state {
                    SyncState::Synced => r matches TaskAction::Update {
                        task,
                        note,
                        completed_now,
                    } && takes_remote_content(task, remote, edit) && keeps_identity(
                        task,
                        local,
                    ) && task.is_deleted == local.is_deleted && task.starred
                        == starred_of(remote) && note is None && completed_now
                        == became_completed(local.status@, task.status@),
                    SyncState::DeletedPending => if pair_le(edit, parts(local.updated_at)) {
                        r is Skip
                    } else {
                        r matches TaskAction::Update { task, note, completed_now }
                            && takes_remote_content(task, remote, edit)
                            && keeps_identity(task, local) && !task.is_deleted
                            && task.starred == local.starred && opt_view(note) == Some(
                            restored_note(task.title@),
                        ) && !completed_now
                    },
                    _ => if pair_le(edit, parts(local.updated_at)) {
                        r matches TaskAction::KeepLocal { task, notice } && task == (Task {
                            sync_state: SyncState::Pending,
                            ..local
                        }) && notice@ == local_won_note(local.title@)
                    } else {
                        r matches TaskAction::Update { task, note, completed_now }
                            && takes_remote_content(task, remote, edit)
                            && keeps_identity(task, local) && task.is_deleted
                            == local.is_deleted && task.starred == starred_of(remote)
                            && opt_view(note) == Some(remote_won_note(task.title@))
                            && completed_now == became_completed(
                            local.status@,
                            task.status@,
                        )
                    },
                }
            },
        }
    }
}

/// A pull asks for the recurrence check exactly when it completes the task:
/// whenever a pulled remote task updates a known local task, `completed_now`
/// holds exactly when the local task was not completed and the updated one
/// is, except that a locally deleted task that comes back never asks.
pub proof fn lemma_pull_flags_completion(
    r: TaskAction,
    existing: Option<Task>,
    remote: GoogleTask,
    list_id: Seq<char>,
    new_id: String,
    now: Timestamp,
)
    requires
        is_remote_task_action(r, existing, remote, list_id, new_id, now),
    ensures
        r matches TaskAction::Update { task, completed_now, .. } ==> (existing matches Some(local)
            && completed_now == (!(local.sync_state is DeletedPending) && local.status@ != "completed"@
            && task.status@ == "completed"@)),
{
}

/// Most-recent-write-wins on a pull: where a pulled remote task meets a
/// local task with unsynced edits (pending, in conflict, or deleted
/// locally), the local side stays exactly when the remote edit is not
/// strictly later (seconds, then nanoseconds) than the local one (a local
/// edit is kept and marked pending, a local deletion stands); a strictly
/// later remote edit replaces the local content.
pub proof fn lemma_pull_newer_edit_wins(
    r: TaskAction,
    local: Task,
    remote: GoogleTask,
    list_id: Seq<char>,
    new_id: String,
    now: Timestamp,
)
    requires
        is_remote_task_action(r, Some(local), remote, list_id, new_id, now),
        remote.id is Some,
        remote.deleted != Some(true),
        !(local.sync_state is Synced),
    ensures
        ({
            let e = remote_edit_time(remote, now);
            let l = local.updated_at;
            let remote_later = e.0 > l.seconds() || (e.0 == l.seconds() && e.1 > l.subsec());
            &&& remote_later ==> (r matches TaskAction::Update { task, .. } && takes_remote_content(
                task,
                remote,
                e,
            ))
            &&& !remote_later && local.sync_state is DeletedPending ==> r is Skip
            &&& !remote_later && !(local.sync_state is DeletedPending) ==> (r matches TaskAction::KeepLocal {
                task,
                ..
            } && task == (Task { sync_state: SyncState::Pending, ..local }))
        }),
{
}

/// `a` and `b` hold the same content, field by field.
pub open spec fn same_task(a: Task, b: Task) -> bool {
    &&& a.id == b.id
    &&& a.google_id == b.google_id
    &&& a.list_id == b.list_id
    &&& a.title@ == b.title@
    &&& opt_view(a.notes) == opt_view(b.notes)
    &&& a.status@ == b.status@
    &&& a.due_date == b.due_date
    &&& a.reminder_time == b.reminder_time
    &&& a.parent_id == b.parent_id
    &&& a.position == b.position
    &&& a.completed_at == b.completed_at
    &&& a.updated_at == b.updated_at
    &&& a.google_updated_at == b.google_updated_at
    &&& a.sync_state == b.sync_state
    &&& a.is_deleted == b.is_deleted
    &&& a.recurrence_rule == b.recurrence_rule
    &&& a.starred == b.starred
}

/// Pulling a remote task again changes nothing: a synced local task that
/// already took the remote content (as a pull stores it) is updated to the
/// same content, with no note and no recurrence check. So the overlap of
/// successive pull windows is harmless.
pub proof fn lemma_pulling_again_changes_nothing(
    local: Task,
    remote: GoogleTask,
    list_id: Seq<char>,
    new_id: String,
    now: Timestamp,
    r: TaskAction,
)
    requires
        local.sync_state == SyncState::Synced,
        takes_remote_content(local, remote, remote_edit_time(remote, now)),
        local.starred == starred_of(remote),
        remote.id is Some,
        remote.deleted != Some(true),
        is_remote_task_action(r, Some(local), remote, list_id, new_id, now),
    ensures
        r matches TaskAction::Update { task, note, completed_now } && same_task(task, local)
            && note is None && !completed_now,
{
    if let TaskAction::Update { task, note, completed_now } = r {
        match (task.due_date, local.due_date) {
            (Some(x), Some(y)) => Date::lemma_ymd_determines(x, y),
            _ => {},
        }
        match (task.reminder_time, local.reminder_time) {
            (Some(x), Some(y)) => Time::lemma_hms_determines(x, y),
            _ => {},
        }
        match (task.completed_at, local.completed_at) {
            (Some(x), Some(y)) => Timestamp::lemma_parts_determine(x, y),
            _ => {},
        }
        match (task.google_updated_at, local.google_updated_at) {
            (Some(x), Some(y)) => Timestamp::lemma_parts_determine(x, y),
            _ => {},
        }
        Timestamp::lemma_parts_determine(task.updated_at, local.updated_at);
    }
}

/// Decides what a remote task does to the local data. `existing` is the
/// local task with the same Google id, if any; `new_id` is the id for a new
/// local task; `now` stands in for a missing remote edit time.
///
/// A new remote task is created locally unless Google marks it deleted; a
/// remote deletion deletes the local task; a synced local task takes the
/// remote content; a pending or conflicting one goes to the newer edit; a
/// locally deleted one comes back only where the remote edit is newer.
pub fn remote_task_action(
    existing: Option<Task>,
    remote: &GoogleTask,
    list_id: &String,
    new_id: String,
    now: Timestamp,
) -> (r: TaskAction)
    requires
        due_cuttable(remote.due),
    ensures
        is_remote_task_action(r, existing, *remote, list_id@, new_id, now),
{
    if remote.id.is_none() {
        return TaskAction::Skip;
    }
    let deleted = match remote.deleted {
        Some(b) => b,
        None => false,
    };
    let edit = remote_updated_at(remote, now);
    match existing {
        None => {
            if deleted {
                return TaskAction::Skip;
            }
            let (notes, reminder) = extract_reminder_from_notes(&remote.notes);
            let t = Task {
                id: new_id,
                google_id: clone_opt_string(&remote.id),
                list_id: list_id.clone(),
                title: string_or_empty(&remote.title),
                notes,
                status: status_or_needs_action(&remote.status),
                due_date: parse_remote_due(&remote.due),
                reminder_time: reminder,
                parent_id: None,
                position: clone_opt_string(&remote.position),
                completed_at: parse_instant(&remote.completed),
                updated_at: edit,
                google_updated_at: Some(edit),
                sync_state: SyncState::Synced,
                is_deleted: false,
                recurrence_rule: None,
                starred: match remote.starred {
                    Some(b) => b,
                    None => false,
                },
            };
            TaskAction::Create(t)
        },
        Some(local) => {
            if deleted {
                return TaskAction::HardDelete(local.id);
            }
            match local.sync_state {
                SyncState::Synced => {
                    let old_completed = local.is_completed();
                    let t = apply_remote(local, remote, edit, false);
                    let now_completed = t.is_completed();
                    TaskAction::Update {
                        task: t,
                        note: None,
                        completed_now: !old_completed && now_completed,
                    }
                },
                SyncState::DeletedPending => {
                    if timestamp_le(&edit, &local.updated_at) {
                        TaskAction::Skip
                    } else {
                        let t = apply_remote(local, remote, edit, true);
                        let note = quoted_note(
                            "Restored deleted task '",
                            &t.title,
                            "' because it was modified remotely",
                        );
                        TaskAction::Update { task: t, note: Some(note), completed_now: false }
                    }
                },
                _ => {
                    match crate::sync::resolve_conflict(local.updated_at, edit) {
                        ConflictResolution::UseRemote => {
                            let old_completed = local.is_completed();
                            let t = apply_remote(local, remote, edit, false);
                            let now_completed = t.is_completed();
                            let note = quoted_note(
                                "Updated '",
                                &t.title,
                                "' with remote edits (remote changes were newer)",
                            );
                            TaskAction::Update {
                                task: t,
                                note: Some(note),
                                completed_now: !old_completed && now_completed,
                            }
                        },
                        ConflictResolution::UseLocal => {
                            let note = quoted_note(
                                "Kept your local edits for '",
                                &local.title,
                                "' (local changes were newer)",
                            );
                            let mut t = local;
                            t.sync_state = SyncState::Pending;
                            TaskAction::KeepLocal { task: t, notice: note }
                        },
                    }
                },
            }
        },
    }
}

/// The parent link a remote task gives its local copy: `Some` with the
/// updated task where the local parent is not yet the given one.
pub fn relink_parent(local: Task, parent_local_id: &String) -> (r: Option<Task>)
    ensures
        opt_view(local.parent_id) == Some(parent_local_id@) ==> r is None,
        opt_view(local.parent_id) != Some(parent_local_id@) ==> (r matches Some(t) && t == (Task {
            parent_id: t.parent_id,
            ..local
        }) && opt_view(t.parent_id) == Some(parent_local_id@)),
{
    let same = match &local.parent_id {
        Some(p) => p.as_str().unicode_len() == parent_local_id.as_str().unicode_len() && {
            let a = crate::text::chars_of(p.as_str());
            let b = crate::text::chars_of(parent_local_id.as_str());
            vec_eq(&a, &b)
        },
        None => false,
    };
    if same {
        proof {
            assert(local.parent_id->0@ == parent_local_id@);
        }
        None
    } else {
        let mut t = local;
        t.parent_id = Some(parent_local_id.clone());
        Some(t)
    }
}

fn vec_eq(a: &Vec<char>, b: &Vec<char>) -> (r: bool)
    ensures
        r == (a@ == b@),
{
    if a.len() != b.len() {
        return false;
    }
    let mut i: usize = 0;
    while i < a.len()
        invariant
            a@.len() == b@.len(),
            i <= a@.len(),
            forall|j: int| 0 <= j < i ==> a@[j] == b@[j],
        decreases a.len() - i,
    {
        if a[i] != b[i] {
            return false;
        }
        i += 1;
    }
    assert(a@ =~= b@);
    true
}

// ------------------------------------------------------------------
// Pushing tasks

/// The tasks of a list that push first (no parent) and second (subtasks),
/// each in the order they come in.
pub open spec fn push_passes(pending: Seq<Task>, list_id: Seq<char>) -> (Seq<Task>, Seq<Task>)
    decreases pending.len(),
{
    if pending.len() == 0 {
        (Seq::empty(), Seq::empty())
    } else {
        let (a, b) = push_passes(pending.drop_last(), list_id);
        let t = pending.last();
        if t.list_id@ == list_id {
            if t.parent_id is None {
                (a.push(t), b)
            } else {
                (a, b.push(t))
            }
        } else {
            (a, b)
        }
    }
}

/// Splits the pending tasks of a list into the two push passes: top-level
/// tasks first, so that subtasks find their parents on Google.
pub fn split_push_passes(pending: &Vec<Task>, list_id: &String) -> (r: (Vec<Task>, Vec<Task>))
    ensures
        (r.0@, r.1@) == push_passes(pending@, list_id@),
{
    let mut pass1: Vec<Task> = Vec::new();
    let mut pass2: Vec<Task> = Vec::new();
    let mut i: usize = 0;
    while i < pending.len()
        invariant
            i <= pending@.len(),
            (pass1@, pass2@) == push_passes(pending@.take(i as int), list_id@),
        decreases pending.len() - i,
    {
        let t = pending[i].clone_task();
        proof {
            assert(pending@.take(i + 1).drop_last() =~= pending@.take(i as int));
        }
        if same_text(&t.list_id, list_id) {
            if t.parent_id.is_none() {
                pass1.push(t);
            } else {
                pass2.push(t);
            }
        }
        i += 1;
    }
    proof {
        assert(pending@.take(pending@.len() as int) =~= pending@);
    }
    (pass1, pass2)
}

fn same_text(a: &String, b: &String) -> (r: bool)
    ensures
        r == (a@ == b@),
{
    let x = crate::text::chars_of(a.as_str());
    let y = crate::text::chars_of(b.as_str());
    vec_eq(&x, &y)
}

/// The due value Google takes for a date.
pub open spec fn due_text(d: Date) -> Seq<char> {
    chrono_formatted_date(d.ymd(), "%Y-%m-%d"@) + "T00:00:00.000Z"@
}

proof fn lemma_encode_concat(a: Seq<char>, b: Seq<char>)
    ensures
        encode_utf8(a + b) == encode_utf8(a) + encode_utf8(b),
    decreases a.len(),
{
    if a.len() == 0 {
        assert(a + b =~= b);
        assert(encode_utf8(a) + encode_utf8(b) =~= encode_utf8(b));
    } else {
        lemma_encode_concat(a.drop_first(), b);
        assert((a + b).drop_first() =~= a.drop_first() + b);
        assert((a + b)[0] == a[0]);
        assert(encode_scalar(a[0] as u32) + (encode_utf8(a.drop_first()) + encode_utf8(b))
            =~= (encode_scalar(a[0] as u32) + encode_utf8(a.drop_first())) + encode_utf8(b));
    }
}

proof fn lemma_encode_ascii_len(a: Seq<char>)
    requires
        forall|i: int| 0 <= i < a.len() ==> (#[trigger] a[i] as u32) < 128,
    ensures
        encode_utf8(a).len() == a.len(),
    decreases a.len(),
{
    if a.len() > 0 {
        assert forall|i: int| 0 <= i < a.drop_first().len() implies (#[trigger] a.drop_first()[i] as u32) < 128 by {
            assert(a.drop_first()[i] == a[i + 1]);
        }
        lemma_encode_ascii_len(a.drop_first());
        assert((a[0] as u32) < 128);
    }
}

/// The first ten bytes of a date written `YYYY-MM-DD` and what follows are
/// the date.
proof fn lemma_first_ten_of_date(t: (int, int, int), rest: Seq<char>)
    requires
        0 <= t.0 <= 9999,
        0 <= t.1 < 100,
        0 <= t.2 < 100,
    ensures
        first_ten_bytes(ymd_text(t) + rest) == ymd_text(t),
{
    let x = ymd_text(t);
    assert(x.len() == 10);
    assert forall|i: int| 0 <= i < x.len() implies (#[trigger] x[i] as u32) < 128 by {
        assert(x[i] == '-' || ('0' as int <= x[i] as int <= '9' as int));
    }
    lemma_encode_ascii_len(x);
    lemma_encode_concat(x, rest);
    assert(encode_utf8(x + rest).subrange(0, 10) =~= encode_utf8(x));
    encode_utf8_decode_utf8(x);
}

/// What a payload's due date and completion time read back as: the task's
/// own, for dates and instants in the years 0 to 9999.
pub open spec fn payload_reads_back(p: GoogleTask, t: Task) -> bool {
    &&& match t.due_date {
        Some(d) => 0 <= d.ymd().0 <= 9999 ==> remote_due(p.due) == Some(d.ymd()),
        None => true,
    }
    &&& match t.completed_at {
        Some(c) => rfc3339_years(c.seconds()) ==> read_instant(p.completed) == Some(parts(c)),
        None => true,
    }
}

/// The task payload sent to Google for a local task: its Google id, title,
/// notes cleaned of reminder lines, status, due date, completion time and
/// star. The reminder time stays local.
pub open spec fn is_payload_of(p: GoogleTask, t: Task) -> bool {
    &&& p.id == t.google_id
    &&& p.title == Some(t.title)
    &&& opt_view(p.notes) == pushed_notes(opt_view(t.notes))
    &&& p.status == Some(t.status)
    &&& match t.due_date {
        Some(d) => p.due matches Some(s) && s@ == due_text(d),
        None => p.due is None,
    }
    &&& match t.completed_at {
        Some(c) => p.completed matches Some(s) && s@ == chrono_rfc3339_text(
            c.seconds() as i64,
            c.subsec() as u32,
        ),
        None => p.completed is None,
    }
    &&& p.updated is None
    &&& p.parent is None
    &&& p.position is None
    &&& p.deleted is None
    &&& p.hidden is None
    &&& p.starred == Some(t.starred)
}

/// What a push sends, a pull reads back: where Google keeps the title,
/// notes, status, due date and completion time of a pushed task, the task
/// pulled from it has the pushed task's title, status, due date and
/// completion time, and the notes that were sent. Due dates and completion
/// times lie in the years 0 to 9999, where their text has four year digits;
/// the cleaned notes hold no `\r` before a `\n`. The reminder time is not sent: a pull
/// of a known task keeps the local one (`keeps_identity`).
pub proof fn lemma_push_then_pull(t: Task, p: GoogleTask, r: GoogleTask, new: Task, edit: (int, int))
    requires
        is_payload_of(p, t),
        payload_reads_back(p, t),
        r.title == p.title,
        r.notes == p.notes,
        r.status == p.status,
        r.due == p.due,
        r.completed == p.completed,
        takes_remote_content(new, r, edit),
        t.due_date matches Some(d) ==> (0 <= d.ymd().0 && d.ymd().0 <= 9999),
        t.completed_at matches Some(c) ==> rfc3339_years(c.seconds()),
        t.notes matches Some(x) ==> !has_crlf(clean_notes(x@)),
    ensures
        new.title@ == t.title@,
        new.status@ == t.status@,
        new.due_date == t.due_date,
        new.completed_at == t.completed_at,
        opt_view(new.notes) == opt_view(p.notes),
{
    lemma_pull_reads_pushed_notes(opt_view(t.notes));
    if let (Some(a), Some(b)) = (new.due_date, t.due_date) {
        Date::lemma_ymd_determines(a, b);
    }
    if let (Some(a), Some(b)) = (new.completed_at, t.completed_at) {
        Timestamp::lemma_parts_determine(a, b);
    }
}

/// Builds the payload sent to Google for a local task.
pub fn google_payload(task: &Task) -> (r: GoogleTask)
    ensures
        is_payload_of(r, *task),
        payload_reads_back(r, *task),
{
    let due = match task.due_date {
        Some(d) => {
            let mut s = d.format("%Y-%m-%d");
            let ghost text = s@;
            s.append("T00:00:00.000Z");
            proof {
                if 0 <= d.ymd().0 <= 9999 {
                    lemma_first_ten_of_date(d.ymd(), "T00:00:00.000Z"@);
                    assert(s@ == ymd_text(d.ymd()) + "T00:00:00.000Z"@);
                }
            }
            Some(s)
        },
        None => None,
    };
    let completed = match task.completed_at {
        Some(c) => Some(c.to_rfc3339()),
        None => None,
    };
    GoogleTask {
        id: clone_opt_string(&task.google_id),
        title: Some(task.title.clone()),
        notes: notes_for_push(&task.notes),
        status: Some(task.status.clone()),
        due,
        completed,
        updated: None,
        parent: None,
        position: None,
        deleted: None,
        hidden: None,
        starred: Some(task.starred),
    }
}

/// The local task after Google created it: Google's id and position, the
/// server's edit time (or `now`), synced.
pub fn after_insert(task: Task, created: &GoogleTask, now: Timestamp) -> (r: Task)
    ensures
        r == (Task {
            google_id: created.id,
            google_updated_at: r.google_updated_at,
            position: created.position,
            sync_state: SyncState::Synced,
            ..task
        }),
        opt_parts(r.google_updated_at) == Some(remote_edit_time(*created, now)),
{
    let stamp = remote_updated_at(created, now);
    let mut t = task;
    t.google_id = clone_opt_string(&created.id);
    t.google_updated_at = Some(stamp);
    t.position = clone_opt_string(&created.position);
    t.sync_state = SyncState::Synced;
    t
}

/// The local task after Google took its update: the server's edit time (or
/// `now`), synced.
pub fn after_update(task: Task, updated: &GoogleTask, now: Timestamp) -> (r: Task)
    ensures
        r == (Task {
            google_updated_at: r.google_updated_at,
            sync_state: SyncState::Synced,
            ..task
        }),
        opt_parts(r.google_updated_at) == Some(remote_edit_time(*updated, now)),
{
    let stamp = remote_updated_at(updated, now);
    let mut t = task;
    t.google_updated_at = Some(stamp);
    t.sync_state = SyncState::Synced;
    t
}

/// What the push of a pending task sends.
#[derive(Debug)]
pub enum PushStep {
    /// Create the task on Google, under the parent with this Google id.
    Insert { payload: GoogleTask, parent: Option<String> },
    /// Update the task with this Google id, then move it under the parent
    /// with this Google id where it has one.
    Update { google_id: String, payload: GoogleTask, move_under: Option<String> },
}

/// What to send for a pending task whose parent, if any, has the Google id
/// `parent_google_id`: a task Google does not know yet is created, a known
/// one updated.
pub fn push_step(task: &Task, parent_google_id: Option<String>) -> (r: PushStep)
    ensures
        match task.google_id {
            None => r matches PushStep::Insert { payload, parent } && is_payload_of(payload, *task)
                && payload_reads_back(payload, *task) && parent == parent_google_id,
            Some(g) => r matches PushStep::Update { google_id, payload, move_under } && google_id == g
                && is_payload_of(payload, *task) && payload_reads_back(payload, *task) && move_under
                == parent_google_id,
        },
{
    let payload = google_payload(task);
    match &task.google_id {
        None => PushStep::Insert { payload, parent: parent_google_id },
        Some(g) => PushStep::Update { google_id: g.clone(), payload, move_under: parent_google_id },
    }
}

/// The task to store after a push: synced with what Google answered, or
/// nothing where the push failed, so that the task stays pending for the
/// next sync. `inserted` tells a creation from an update.
pub fn pushed_task(task: Task, answer: Option<GoogleTask>, inserted: bool, now: Timestamp) -> (r: Option<Task>)
    ensures
        answer is None <==> r is None,
        answer matches Some(a) ==> r matches Some(t) && (if inserted {
            t == (Task {
                google_id: a.id,
                google_updated_at: t.google_updated_at,
                position: a.position,
                sync_state: SyncState::Synced,
                ..task
            })
        } else {
            t == (Task { google_updated_at: t.google_updated_at, sync_state: SyncState::Synced, ..task })
        }) && opt_parts(t.google_updated_at) == Some(remote_edit_time(a, now)),
{
    match answer {
        None => None,
        Some(a) => if inserted {
            Some(after_insert(task, &a, now))
        } else {
            Some(after_update(task, &a, now))
        },
    }
}

/// What the deletion pass does with a task deleted locally.
#[derive(Debug)]
pub enum DeleteStep {
    /// The task belongs to another list.
    OtherList,
    /// Delete it on Google by this Google id, then locally.
    DeleteRemote(String),
    /// Google never had it: delete it locally.
    DeleteLocal,
}

/// The deletion step for a task deleted locally, while the list `list_id`
/// syncs. The local row goes whatever Google answers; the answer is
/// counted as a deletion.
pub fn deletion_step(task: &Task, list_id: &String) -> (r: DeleteStep)
    ensures
        task.list_id@ != list_id@ ==> r == DeleteStep::OtherList,
        task.list_id@ == list_id@ ==> r == (match task.google_id {
            Some(g) => DeleteStep::DeleteRemote(g),
            None => DeleteStep::DeleteLocal,
        }),
{
    if !crate::ui::same_string(&task.list_id, list_id) {
        return DeleteStep::OtherList;
    }
    match &task.google_id {
        Some(g) => DeleteStep::DeleteRemote(g.clone()),
        None => DeleteStep::DeleteLocal,
    }
}

/// A failed remote deletion is worth a warning, but where Google no longer
/// has the task (its error names a 404).
pub fn deletion_failure_warns(error: &String) -> (r: bool)
    ensures
        r == !crate::ui::has_infix(error@, "404"@),
{
    let four = crate::text::chars_of("404");
    !crate::ui::contains_seq(&crate::text::chars_of(error.as_str()), &four)
}

// ------------------------------------------------------------------
// Lists

/// What a remote list does to the local lists.
#[derive(Debug)]
pub enum ListAction {
    /// The local list already matches.
    Keep,
    /// Store the renamed local list.
    Update(TaskList),
    /// Store a new local list (a pull).
    Create(TaskList),
}

/// Decides what a remote list does: a known list takes the remote title
/// where it differs; an unknown one is created, not default, at position 0.
pub fn remote_list_action(
    existing: Option<TaskList>,
    remote: &GoogleTaskList,
    new_id: String,
    now: Timestamp,
) -> (r: ListAction)
    ensures
        match existing {
            Some(l) => if l.title@ == remote.title@ {
                r is Keep
            } else {
                r == ListAction::Update(TaskList { title: remote.title, updated_at: now, ..l })
            },
            None => r == ListAction::Create(
                TaskList {
                    id: new_id,
                    google_id: Some(remote.id),
                    title: remote.title,
                    position: 0,
                    is_default: false,
                    updated_at: now,
                },
            ),
        },
{
    match existing {
        Some(l) => {
            if same_text(&l.title, &remote.title) {
                ListAction::Keep
            } else {
                let mut m = l;
                m.title = remote.title.clone();
                m.updated_at = now;
                ListAction::Update(m)
            }
        },
        None => ListAction::Create(
            TaskList {
                id: new_id,
                google_id: Some(remote.id.clone()),
                title: remote.title.clone(),
                position: 0,
                is_default: false,
                updated_at: now,
            },
        ),
    }
}

/// The local list after Google created it.
pub fn list_after_push(list: TaskList, remote: &GoogleTaskList, now: Timestamp) -> (r: TaskList)
    ensures
        r == (TaskList { google_id: Some(remote.id), updated_at: now, ..list }),
{
    let mut l = list;
    l.google_id = Some(remote.id.clone());
    l.updated_at = now;
    l
}

/// A local list is gone on Google: it has a Google id that no remote list
/// carries.
pub open spec fn deleted_remotely(list: TaskList, remote_ids: Seq<Seq<char>>) -> bool {
    list.google_id matches Some(g) && !remote_ids.contains(g@)
}

/// The texts of a sequence of strings.
pub open spec fn text_views(v: Seq<String>) -> Seq<Seq<char>> {
    v.map_values(|s: String| s@)
}

/// Decides whether a local list was deleted on Google.
pub fn is_deleted_remotely(list: &TaskList, remote_ids: &Vec<String>) -> (r: bool)
    ensures
        r == deleted_remotely(*list, text_views(remote_ids@)),
{
    let ghost ids = text_views(remote_ids@);
    match &list.google_id {
        Some(g) => {
            let mut i: usize = 0;
            while i < remote_ids.len()
                invariant
                    i <= remote_ids@.len(),
                    list.google_id == Some(*g),
                    ids == text_views(remote_ids@),
                    forall|j: int| 0 <= j < i ==> ids[j] != g@,
                decreases remote_ids.len() - i,
            {
                if same_text(&remote_ids[i], g) {
                    assert(ids[i as int] == g@);
                    assert(ids.contains(g@));
                    return false;
                }
                i += 1;
            }
            assert(!ids.contains(g@));
            true
        },
        None => false,
    }
}

/// The edit window of an incremental pull: five seconds before the last
/// full sync, so that edits at the boundary are not missed.
pub fn sync_window(last_sync: Option<Timestamp>) -> (r: Option<Timestamp>)
    requires
        last_sync matches Some(t) ==> instant_ok(t.seconds() - 5, 0),
    ensures
        last_sync is None ==> r is None,
        last_sync matches Some(t) ==> r is Some,
        last_sync matches Some(t) ==> t.subsec() < 1_000_000_000 ==> (r matches Some(w)
            && w.seconds() == t.seconds() - 5 && w.subsec() == t.subsec()),
{
    match last_sync {
        Some(t) => t.checked_sub_seconds(5),
        None => None,
    }
}

/// The counts and notes of one sync run.
#[derive(Debug)]
pub struct SyncReport {
    pub lists_pulled: usize,
    pub lists_pushed: usize,
    pub tasks_pulled: usize,
    pub tasks_pushed: usize,
    pub tasks_deleted: usize,
    pub conflicts_resolved: Vec<String>,
}

/// The counts a report can hold one more of.
pub open spec fn report_room(r: SyncReport) -> bool {
    &&& r.lists_pulled < usize::MAX
    &&& r.lists_pushed < usize::MAX
    &&& r.tasks_pulled < usize::MAX
    &&& r.tasks_pushed < usize::MAX
    &&& r.tasks_deleted < usize::MAX
}

/// What one task decision adds to the report.
#[derive(Debug, Clone, Copy, PartialEq, Eq, Structural)]
pub enum Tally {
    ListPulled,
    ListPushed,
    TaskPushed,
    TaskDeleted,
}

impl SyncReport {
    /// Counts what a pulled remote task did: a created or updated task is a
    /// pull, a deletion a delete, and a conflict note is kept.
    pub fn record_task_action(&mut self, action: &TaskAction)
        requires
            report_room(*old(self)),
        ensures
            final(self).lists_pulled == old(self).lists_pulled,
            final(self).lists_pushed == old(self).lists_pushed,
            final(self).tasks_pushed == old(self).tasks_pushed,
            final(self).tasks_pulled == old(self).tasks_pulled + (if *action is Create
                || *action is Update {
                1int
            } else {
                0int
            }),
            final(self).tasks_deleted == old(self).tasks_deleted + (if *action is HardDelete {
                1int
            } else {
                0int
            }),
            final(self).conflicts_resolved@ == old(self).conflicts_resolved@ + (match *action {
                TaskAction::Update { note: Some(n), .. } => seq![n],
                TaskAction::KeepLocal { notice, .. } => seq![notice],
                _ => Seq::empty(),
            }),
    {
        match action {
            TaskAction::Skip => {},
            TaskAction::Create(_) => {
                self.tasks_pulled = self.tasks_pulled + 1;
            },
            TaskAction::HardDelete(_) => {
                self.tasks_deleted = self.tasks_deleted + 1;
            },
            TaskAction::Update { note, .. } => {
                self.tasks_pulled = self.tasks_pulled + 1;
                match note {
                    Some(n) => {
                        self.conflicts_resolved.push(n.clone());
                    },
                    None => {},
                }
            },
            TaskAction::KeepLocal { notice, .. } => {
                self.conflicts_resolved.push(notice.clone());
            },
        }
    }

    /// Counts one more pulled list, pushed list, pushed task or deleted
    /// task.
    pub fn tally(&mut self, what: Tally)
        requires
            report_room(*old(self)),
        ensures
            final(self).lists_pulled == old(self).lists_pulled + (if what == Tally::ListPulled {
                1int
            } else {
                0int
            }),
            final(self).lists_pushed == old(self).lists_pushed + (if what == Tally::ListPushed {
                1int
            } else {
                0int
            }),
            final(self).tasks_pushed == old(self).tasks_pushed + (if what == Tally::TaskPushed {
                1int
            } else {
                0int
            }),
            final(self).tasks_deleted == old(self).tasks_deleted + (if what == Tally::TaskDeleted {
                1int
            } else {
                0int
            }),
            final(self).tasks_pulled == old(self).tasks_pulled,
            final(self).conflicts_resolved@ == old(self).conflicts_resolved@,
    {
        match what {
            Tally::ListPulled => {
                self.lists_pulled = self.lists_pulled + 1;
            },
            Tally::ListPushed => {
                self.lists_pushed = self.lists_pushed + 1;
            },
            Tally::TaskPushed => {
                self.tasks_pushed = self.tasks_pushed + 1;
            },
            Tally::TaskDeleted => {
                self.tasks_deleted = self.tasks_deleted + 1;
            },
        }
    }

    /// An empty report.
    pub fn new() -> (r: SyncReport)
        ensures
            r.lists_pulled == 0 && r.lists_pushed == 0 && r.tasks_pulled == 0 && r.tasks_pushed
                == 0 && r.tasks_deleted == 0 && r.conflicts_resolved@.len() == 0,
    {
        SyncReport {
            lists_pulled: 0,
            lists_pushed: 0,
            tasks_pulled: 0,
            tasks_pushed: 0,
            tasks_deleted: 0,
            conflicts_resolved: Vec::new(),
        }
    }
}

} // verus!
