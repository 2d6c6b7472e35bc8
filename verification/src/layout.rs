//! What a task view lays out: its title, its sections of task rows, the
//! message of an empty view and, for a task list, whether the list is on
//! Google yet.
use vstd::prelude::*;

use crate::app_state::{find_list_google_id, list_google_id, AppModel};
use crate::calendar::Date;
use crate::models::{Task, TaskList};
use crate::notes::opt_view;
use crate::ui::{
    completed_text, date_before, id_views, ids_of, is_top, same_string, ymd_before, ActiveView, AppTheme,
};

verus! {

/// A group of tasks that a view shows together.
pub enum Bucket {
    /// Open top-level tasks with a star.
    Pinned,
    /// Open, unstarred top-level tasks due before today.
    Overdue,
    /// Open, unstarred top-level tasks due today or without a due date.
    DueToday,
    /// Completed top-level tasks.
    Done,
    /// Open top-level tasks.
    Open,
    /// Top-level tasks with the given due date, but the open starred ones.
    Dated(Option<Date>),
}

/// Task `t` belongs to bucket `b` on the day `today`.
pub open spec fn in_bucket(t: Task, today: Date, b: Bucket) -> bool {
    let open = t.status@ != completed_text();
    is_top(t) && match b {
        Bucket::Pinned => open && t.starred,
        Bucket::Overdue => open && !t.starred && (t.due_date matches Some(d) && ymd_before(
            d.ymd(),
            today.ymd(),
        )),
        Bucket::DueToday => open && !t.starred && match t.due_date {
            Some(d) => d.ymd() == today.ymd(),
            None => true,
        },
        Bucket::Done => !open,
        Bucket::Open => open,
        Bucket::Dated(k) => !(open && t.starred) && t.due_date == k,
    }
}

/// The tasks of bucket `b`, in the order given.
pub open spec fn bucket(tasks: Seq<Task>, today: Date, b: Bucket) -> Seq<Task> {
    tasks.filter(|t: Task| in_bucket(t, today, b))
}

fn same_due(a: &Option<Date>, b: &Option<Date>) -> (r: bool)
    ensures
        r == (*a == *b),
{
    match (a, b) {
        (Some(x), Some(y)) => *x == *y,
        (None, None) => true,
        _ => false,
    }
}

fn in_bucket_exec(t: &Task, today: &Date, b: &Bucket) -> (r: bool)
    ensures
        r == in_bucket(*t, *today, *b),
{
    if t.parent_id.is_some() {
        return false;
    }
    let open = !t.is_completed();
    match b {
        Bucket::Pinned => open && t.starred,
        Bucket::Overdue => open && !t.starred && match t.due_date {
            Some(d) => date_before(&d, today),
            None => false,
        },
        Bucket::DueToday => {
            let r = open && !t.starred && match t.due_date {
                Some(d) => !date_before(&d, today) && !date_before(today, &d),
                None => true,
            };
            proof {
                if let Some(d) = t.due_date {
                    if !ymd_before(d.ymd(), today.ymd()) && !ymd_before(today.ymd(), d.ymd()) {
                        assert(d.ymd() == today.ymd());
                    }
                }
            }
            r
        },
        Bucket::Done => !open,
        Bucket::Open => open,
        Bucket::Dated(k) => !(open && t.starred) && same_due(&t.due_date, k),
    }
}

/// The ids of the tasks of a bucket, in the order given.
fn collect(tasks: &Vec<Task>, today: &Date, b: &Bucket) -> (r: Vec<String>)
    ensures
        id_views(r@) == ids_of(bucket(tasks@, *today, *b)),
{
    let mut out: Vec<String> = Vec::new();
    let mut i: usize = 0;
    proof {
        reveal(Seq::filter);
        assert(bucket(tasks@.take(0), *today, *b) =~= Seq::<Task>::empty());
        assert(id_views(out@) =~= ids_of(Seq::<Task>::empty()));
    }
    while i < tasks.len()
        invariant
            i <= tasks@.len(),
            id_views(out@) == ids_of(bucket(tasks@.take(i as int), *today, *b)),
        decreases tasks.len() - i,
    {
        let keep = in_bucket_exec(&tasks[i], today, b);
        proof {
            reveal(Seq::filter);
            assert(tasks@.take(i + 1).drop_last() =~= tasks@.take(i as int));
            assert(tasks@.take(i + 1).last() == tasks@[i as int]);
        }
        let ghost before = id_views(out@);
        if keep {
            out.push(tasks[i].id.clone());
            proof {
                assert(id_views(out@) =~= before.push(tasks@[i as int].id@));
                assert(bucket(tasks@.take(i + 1), *today, *b) == bucket(
                    tasks@.take(i as int),
                    *today,
                    *b,
                ).push(tasks@[i as int]));
                assert(ids_of(bucket(tasks@.take(i + 1), *today, *b)) =~= ids_of(
                    bucket(tasks@.take(i as int), *today, *b),
                ).push(tasks@[i as int].id@));
            }
        } else {
            proof {
                assert(bucket(tasks@.take(i + 1), *today, *b) == bucket(
                    tasks@.take(i as int),
                    *today,
                    *b,
                ));
            }
        }
        i += 1;
    }
    proof {
        assert(tasks@.take(tasks@.len() as int) =~= tasks@);
    }
    out
}

/// What a section of a view shows under its heading.
#[derive(Debug, Clone, Copy, PartialEq, Eq, Structural)]
pub enum SectionKind {
    /// "Pinned".
    Pinned,
    /// "Overdue".
    Overdue,
    /// "Today".
    Today,
    /// The open tasks of a list, with no heading.
    Open,
    /// "Completed (n)", which the user can fold.
    Completed,
    /// "No Due Date".
    NoDueDate,
    /// The tasks due on a date, headed by the date.
    OnDate(Date),
}

/// A section of a view: its kind, how many tasks it holds, and the ids of
/// the rows it shows.
#[derive(Debug)]
pub struct Section {
    pub kind: SectionKind,
    pub count: usize,
    pub rows: Vec<String>,
}

/// `s` shows `group` as a section of kind `kind`: a folded completed
/// section shows its count and no rows.
pub open spec fn shows(s: Section, kind: SectionKind, group: Seq<Task>, collapsed: bool) -> bool {
    &&& s.kind == kind
    &&& s.count == group.len()
    &&& id_views(s.rows@) == (if kind == SectionKind::Completed && collapsed {
        Seq::<Seq<char>>::empty()
    } else {
        ids_of(group)
    })
}

/// `secs` shows the nonempty groups of `parts`, in order.
pub open spec fn lays_out(secs: Seq<Section>, parts: Seq<(SectionKind, Seq<Task>)>, collapsed: bool) -> bool
    decreases parts.len(),
{
    if parts.len() == 0 {
        secs.len() == 0
    } else if parts.last().1.len() == 0 {
        lays_out(secs, parts.drop_last(), collapsed)
    } else {
        &&& secs.len() > 0
        &&& shows(secs.last(), parts.last().0, parts.last().1, collapsed)
        &&& lays_out(secs.drop_last(), parts.drop_last(), collapsed)
    }
}

fn is_completed_kind(k: &SectionKind) -> (r: bool)
    ensures
        r == (*k == SectionKind::Completed),
{
    match k {
        SectionKind::Completed => true,
        _ => false,
    }
}

/// Appends the section for `group`, whose ids are `rows`, unless it is
/// empty.
fn push_part(
    out: &mut Vec<Section>,
    kind: SectionKind,
    rows: Vec<String>,
    collapsed: bool,
    Ghost(parts): Ghost<Seq<(SectionKind, Seq<Task>)>>,
    Ghost(group): Ghost<Seq<Task>>,
)
    requires
        id_views(rows@) == ids_of(group),
        lays_out(old(out)@, parts, collapsed),
    ensures
        lays_out(final(out)@, parts.push((kind, group)), collapsed),
{
    proof {
        assert(parts.push((kind, group)).drop_last() =~= parts);
        assert(rows@.len() == id_views(rows@).len());
    }
    if rows.len() > 0 {
        let count = rows.len();
        let shown = if is_completed_kind(&kind) && collapsed {
            Vec::new()
        } else {
            rows
        };
        let ghost before = out@;
        out.push(Section { kind, count, rows: shown });
        proof {
            assert(out@.drop_last() =~= before);
            if kind == SectionKind::Completed && collapsed {
                assert(id_views(shown@) =~= Seq::<Seq<char>>::empty());
            }
        }
    }
}


// ------------------------------------------------------------------
// The Upcoming view: groups by due date

/// Due dates in the order of the Upcoming view: no due date first, then
/// by date.
pub open spec fn key_before(a: Option<Date>, b: Option<Date>) -> bool {
    match a {
        None => b is Some,
        Some(x) => match b {
            Some(y) => ymd_before(x.ymd(), y.ymd()),
            None => false,
        },
    }
}

proof fn lemma_key_order(a: Option<Date>, b: Option<Date>, c: Option<Date>)
    ensures
        !key_before(a, a),
        key_before(a, b) && key_before(b, c) ==> key_before(a, c),
        key_before(a, b) || key_before(b, a) || a == b,
{
    if let (Some(x), Some(y)) = (a, b) {
        if x.ymd() == y.ymd() {
            Date::lemma_ymd_determines(x, y);
        }
    }
}

fn key_before_exec(a: &Option<Date>, b: &Option<Date>) -> (r: bool)
    ensures
        r == key_before(*a, *b),
{
    match a {
        None => b.is_some(),
        Some(x) => match b {
            Some(y) => date_before(x, y),
            None => false,
        },
    }
}

/// A top-level task that the Upcoming view groups by due date: all but
/// the open starred ones, which it pins.
pub open spec fn is_grouped(t: Task) -> bool {
    is_top(t) && !(t.status@ != completed_text() && t.starred)
}

/// A grouped task whose due date comes after `last`, where there is one.
pub open spec fn above(t: Task, last: Option<Option<Date>>) -> bool {
    is_grouped(t) && match last {
        None => true,
        Some(l) => key_before(l, t.due_date),
    }
}

fn is_above(t: &Task, last: &Option<Option<Date>>) -> (r: bool)
    ensures
        r == above(*t, *last),
{
    let grouped = t.parent_id.is_none() && !(!t.is_completed() && t.starred);
    grouped && match last {
        None => true,
        Some(l) => key_before_exec(l, &t.due_date),
    }
}

/// How many tasks lie above `last`.
pub open spec fn count_above(tasks: Seq<Task>, last: Option<Option<Date>>) -> nat
    decreases tasks.len(),
{
    if tasks.len() == 0 {
        0
    } else {
        count_above(tasks.drop_last(), last) + if above(tasks.last(), last) {
            1nat
        } else {
            0nat
        }
    }
}

proof fn lemma_count_shrinks(tasks: Seq<Task>, last: Option<Option<Date>>, k: Option<Date>, w: int)
    requires
        last matches Some(l) ==> key_before(l, k),
        0 <= w < tasks.len(),
        above(tasks[w], last),
        tasks[w].due_date == k,
    ensures
        count_above(tasks, Some(k)) < count_above(tasks, last),
    decreases tasks.len(),
{
    lemma_count_le(tasks.drop_last(), last, k);
    let t = tasks.last();
    lemma_key_order(k, k, k);
    if let Some(l) = last {
        lemma_key_order(l, k, t.due_date);
    }
    if w < tasks.len() - 1 {
        assert(tasks.drop_last()[w] == tasks[w]);
        lemma_count_shrinks(tasks.drop_last(), last, k, w);
    }
}

proof fn lemma_count_le(tasks: Seq<Task>, last: Option<Option<Date>>, k: Option<Date>)
    requires
        last matches Some(l) ==> key_before(l, k),
    ensures
        count_above(tasks, Some(k)) <= count_above(tasks, last),
    decreases tasks.len(),
{
    if tasks.len() > 0 {
        lemma_count_le(tasks.drop_last(), last, k);
        if let Some(l) = last {
            lemma_key_order(l, k, tasks.last().due_date);
        }
    }
}

/// The earliest due date among the tasks above `last`, if any.
fn min_key_above(tasks: &Vec<Task>, last: &Option<Option<Date>>) -> (r: Option<Option<Date>>)
    ensures
        r is None ==> forall|x: int| 0 <= x < tasks@.len() ==> !above(#[trigger] tasks@[x], *last),
        r matches Some(k) ==> exists|x: int|
            0 <= x < tasks@.len() && above(#[trigger] tasks@[x], *last) && tasks@[x].due_date == k,
        r matches Some(k) ==> forall|x: int|
            0 <= x < tasks@.len() && above(#[trigger] tasks@[x], *last) ==> tasks@[x].due_date == k
                || key_before(k, tasks@[x].due_date),
{
    let mut best: Option<Option<Date>> = None;
    let mut i: usize = 0;
    while i < tasks.len()
        invariant
            i <= tasks@.len(),
            best is None ==> forall|x: int| 0 <= x < i ==> !above(#[trigger] tasks@[x], *last),
            best matches Some(k) ==> exists|x: int|
                0 <= x < i && above(#[trigger] tasks@[x], *last) && tasks@[x].due_date == k,
            best matches Some(k) ==> forall|x: int|
                0 <= x < i && above(#[trigger] tasks@[x], *last) ==> tasks@[x].due_date == k
                    || key_before(k, tasks@[x].due_date),
        decreases tasks.len() - i,
    {
        let t = &tasks[i];
        if is_above(t, last) {
            let k = t.due_date;
            match best {
                None => {
                    best = Some(k);
                },
                Some(b) => {
                    proof {
                        lemma_key_order(k, b, k);
                    }
                    if key_before_exec(&k, &b) {
                        proof {
                            assert forall|x: int|
                                0 <= x < i + 1 && above(#[trigger] tasks@[x], *last) implies tasks@[x].due_date
                                == k || key_before(k, tasks@[x].due_date) by {
                                if x < i {
                                    lemma_key_order(k, b, tasks@[x].due_date);
                                }
                            }
                        }
                        best = Some(k);
                    }
                },
            }
        }
        i += 1;
    }
    best
}

/// The sections of the Upcoming view for the due dates `ks`: the pinned
/// tasks, then a group per due date.
pub open spec fn upcoming_parts(tasks: Seq<Task>, today: Date, ks: Seq<Option<Date>>) -> Seq<(SectionKind, Seq<Task>)> {
    seq![(SectionKind::Pinned, bucket(tasks, today, Bucket::Pinned))] + ks.map_values(
        |k: Option<Date>| (key_kind(k), bucket(tasks, today, Bucket::Dated(k))),
    )
}

/// The heading of the group of a due date.
pub open spec fn key_kind(k: Option<Date>) -> SectionKind {
    match k {
        None => SectionKind::NoDueDate,
        Some(d) => SectionKind::OnDate(d),
    }
}

/// `ks` lists the due dates of the grouped tasks in order, each once.
pub open spec fn upcoming_keys_ok(ks: Seq<Option<Date>>, tasks: Seq<Task>) -> bool {
    &&& forall|i: int, j: int| 0 <= i < j < ks.len() ==> key_before(#[trigger] ks[i], #[trigger] ks[j])
    &&& forall|x: int| 0 <= x < tasks.len() && is_grouped(#[trigger] tasks[x]) ==> ks.contains(tasks[x].due_date)
}

fn kind_of_key(k: Option<Date>) -> (r: SectionKind)
    ensures
        r == key_kind(k),
{
    match k {
        None => SectionKind::NoDueDate,
        Some(d) => SectionKind::OnDate(d),
    }
}

/// The sections of the Upcoming view.
fn upcoming_sections(tasks: &Vec<Task>, today: &Date) -> (r: Vec<Section>)
    ensures
        exists|ks: Seq<Option<Date>>|
            #![trigger upcoming_keys_ok(ks, tasks@)]
            upcoming_keys_ok(ks, tasks@) && lays_out(r@, upcoming_parts(tasks@, *today, ks), false),
{
    let mut out: Vec<Section> = Vec::new();
    let pinned = collect(tasks, today, &Bucket::Pinned);
    let ghost first = seq![(SectionKind::Pinned, bucket(tasks@, *today, Bucket::Pinned))];
    proof {
        assert(Seq::<(SectionKind, Seq<Task>)>::empty().push((SectionKind::Pinned, bucket(tasks@, *today, Bucket::Pinned))) =~= first);
    }
    push_part(&mut out, SectionKind::Pinned, pinned, false, Ghost(Seq::empty()), Ghost(bucket(tasks@, *today, Bucket::Pinned)));
    let mut last: Option<Option<Date>> = None;
    let ghost mut ks: Seq<Option<Date>> = Seq::empty();
    proof {
        assert(upcoming_parts(tasks@, *today, ks) =~= first);
    }
    loop
        invariant
            lays_out(out@, upcoming_parts(tasks@, *today, ks), false),
            forall|i: int, j: int| 0 <= i < j < ks.len() ==> key_before(#[trigger] ks[i], #[trigger] ks[j]),
            last is None ==> ks.len() == 0,
            last matches Some(l) ==> ks.len() > 0 && ks.last() == l,
            forall|x: int|
                0 <= x < tasks@.len() && is_grouped(#[trigger] tasks@[x]) && !above(tasks@[x], last)
                    ==> ks.contains(tasks@[x].due_date),
        ensures
            upcoming_keys_ok(ks, tasks@),
            lays_out(out@, upcoming_parts(tasks@, *today, ks), false),
        decreases count_above(tasks@, last),
    {
        let next = min_key_above(tasks, &last);
        match next {
            None => {
                proof {
                    assert(upcoming_keys_ok(ks, tasks@));
                }
                break;
            },
            Some(k) => {
                let rows = collect(tasks, today, &Bucket::Dated(k));
                let kind = kind_of_key(k);
                let ghost parts = upcoming_parts(tasks@, *today, ks);
                let ghost group = bucket(tasks@, *today, Bucket::Dated(k));
                push_part(&mut out, kind, rows, false, Ghost(parts), Ghost(group));
                proof {
                    let w = choose|x: int| 0 <= x < tasks@.len() && above(#[trigger] tasks@[x], last) && tasks@[x].due_date == k;
                    lemma_count_shrinks(tasks@, last, k, w);
                    let nks = ks.push(k);
                    assert(upcoming_parts(tasks@, *today, nks) =~= parts.push((key_kind(k), group)));
                    assert forall|i: int, j: int| 0 <= i < j < nks.len() implies key_before(#[trigger] nks[i], #[trigger] nks[j]) by {
                        if j == nks.len() - 1 {
                            if let Some(l) = last {
                                assert(key_before(l, k));
                                if i < ks.len() - 1 {
                                    lemma_key_order(nks[i], l, k);
                                }
                            }
                        } else {
                            assert(nks[i] == ks[i] && nks[j] == ks[j]);
                        }
                    }
                    assert forall|x: int|
                        0 <= x < tasks@.len() && is_grouped(#[trigger] tasks@[x]) && !above(tasks@[x], Some(k))
                            implies nks.contains(tasks@[x].due_date) by {
                        if above(tasks@[x], last) {
                            assert(tasks@[x].due_date == k);
                            assert(nks[ks.len() as int] == k);
                        } else {
                            assert(ks.contains(tasks@[x].due_date));
                            let i = choose|i: int| 0 <= i < ks.len() && ks[i] == tasks@[x].due_date;
                            assert(nks[i] == ks[i]);
                        }
                    }
                    ks = nks;
                }
                last = Some(k);
            },
        }
    }
    proof {
        assert(upcoming_keys_ok(ks, tasks@) && lays_out(out@, upcoming_parts(tasks@, *today, ks), false));
    }
    out
}


// ------------------------------------------------------------------
// A whole view

/// Whether a task list is on Google yet.
#[derive(Debug, PartialEq, Eq, Structural)]
pub enum SyncBadge {
    Synced,
    PendingSync,
}

/// What a view lays out.
#[derive(Debug)]
pub struct ViewLayout {
    pub title: String,
    pub sections: Vec<Section>,
    /// The message shown in place of an empty view.
    pub empty_message: Option<String>,
    /// For a task list, whether it is on Google yet.
    pub badge: Option<SyncBadge>,
}

/// The title of the first list `id`.
pub open spec fn list_title(lists: Seq<TaskList>, id: Seq<char>) -> Option<Seq<char>>
    decreases lists.len(),
{
    if lists.len() == 0 {
        None
    } else if lists[0].id@ == id {
        Some(lists[0].title@)
    } else {
        list_title(lists.drop_first(), id)
    }
}

fn find_list_title(lists: &Vec<TaskList>, id: &String) -> (r: Option<String>)
    ensures
        opt_view(r) == list_title(lists@, id@),
{
    let mut i: usize = 0;
    proof {
        assert(lists@.skip(0) =~= lists@);
    }
    while i < lists.len()
        invariant
            i <= lists@.len(),
            list_title(lists@, id@) == list_title(lists@.skip(i as int), id@),
        decreases lists.len() - i,
    {
        proof {
            assert(lists@.skip(i as int)[0] == lists@[i as int]);
            assert(lists@.skip(i as int).drop_first() =~= lists@.skip(i + 1));
        }
        if same_string(&lists[i].id, id) {
            return Some(lists[i].title.clone());
        }
        i += 1;
    }
    proof {
        assert(lists@.skip(i as int).len() == 0);
    }
    None
}

/// The title of a view: a task list's own title, or "List Tasks" for a
/// list that is gone.
pub open spec fn title_of(view: ActiveView, lists: Seq<TaskList>) -> Seq<char> {
    match view {
        ActiveView::Today => "Today"@,
        ActiveView::Upcoming => "Upcoming"@,
        ActiveView::List(id) => match list_title(lists, id@) {
            Some(t) => t,
            None => "List Tasks"@,
        },
        ActiveView::Settings => "Settings"@,
    }
}

/// The badge of a view: a task list is synced once the first list with its
/// id has a Google id.
pub open spec fn badge_of(view: ActiveView, lists: Seq<TaskList>) -> Option<SyncBadge> {
    match view {
        ActiveView::List(id) => Some(
            if list_google_id(lists, id@) is Some {
                SyncBadge::Synced
            } else {
                SyncBadge::PendingSync
            },
        ),
        _ => None,
    }
}

/// The message of an empty view: Today and a list are empty without any
/// task, Upcoming without a top-level one.
pub open spec fn empty_message_of(view: ActiveView, tasks: Seq<Task>) -> Option<Seq<char>> {
    match view {
        ActiveView::Today => if tasks.len() == 0 {
            Some("No tasks for today. Enjoy your free time!"@)
        } else {
            None
        },
        ActiveView::Upcoming => if forall|x: int| 0 <= x < tasks.len() ==> !is_top(#[trigger] tasks[x]) {
            Some("No tasks scheduled for the next 7 days."@)
        } else {
            None
        },
        ActiveView::List(_) => if tasks.len() == 0 {
            Some("This list is empty. Add a task to get started!"@)
        } else {
            None
        },
        ActiveView::Settings => None,
    }
}

/// The sections of the Today view: pinned, overdue, due today, completed.
pub open spec fn today_parts(tasks: Seq<Task>, today: Date) -> Seq<(SectionKind, Seq<Task>)> {
    seq![
        (SectionKind::Pinned, bucket(tasks, today, Bucket::Pinned)),
        (SectionKind::Overdue, bucket(tasks, today, Bucket::Overdue)),
        (SectionKind::Today, bucket(tasks, today, Bucket::DueToday)),
        (SectionKind::Completed, bucket(tasks, today, Bucket::Done)),
    ]
}

/// The sections of a task list: the open tasks, then the completed ones.
pub open spec fn list_parts(tasks: Seq<Task>, today: Date) -> Seq<(SectionKind, Seq<Task>)> {
    seq![
        (SectionKind::Open, bucket(tasks, today, Bucket::Open)),
        (SectionKind::Completed, bucket(tasks, today, Bucket::Done)),
    ]
}

/// `r` lays out `view` with the tasks it loaded and the lists of the
/// sidebar, on the day `today`, with the completed section folded where
/// `collapsed`.
pub open spec fn is_layout(
    r: ViewLayout,
    view: ActiveView,
    tasks: Seq<Task>,
    lists: Seq<TaskList>,
    today: Date,
    collapsed: bool,
) -> bool {
    &&& r.title@ == title_of(view, lists)
    &&& r.badge == badge_of(view, lists)
    &&& opt_view(r.empty_message) == empty_message_of(view, tasks)
    &&& match view {
        ActiveView::Today => lays_out(r.sections@, today_parts(tasks, today), collapsed),
        ActiveView::Upcoming => exists|ks: Seq<Option<Date>>|
            #![trigger upcoming_keys_ok(ks, tasks)]
            upcoming_keys_ok(ks, tasks) && lays_out(r.sections@, upcoming_parts(tasks, today, ks), false),
        ActiveView::List(_) => lays_out(r.sections@, list_parts(tasks, today), collapsed),
        ActiveView::Settings => r.sections@.len() == 0,
    }
}

fn no_top_task(tasks: &Vec<Task>) -> (r: bool)
    ensures
        r == forall|x: int| 0 <= x < tasks@.len() ==> !is_top(#[trigger] tasks@[x]),
{
    let mut i: usize = 0;
    while i < tasks.len()
        invariant
            i <= tasks@.len(),
            forall|x: int| 0 <= x < i ==> !is_top(#[trigger] tasks@[x]),
        decreases tasks.len() - i,
    {
        if tasks[i].parent_id.is_none() {
            return false;
        }
        i += 1;
    }
    true
}

fn today_sections(tasks: &Vec<Task>, today: &Date, collapsed: bool) -> (r: Vec<Section>)
    ensures
        lays_out(r@, today_parts(tasks@, *today), collapsed),
{
    let ghost p0 = (SectionKind::Pinned, bucket(tasks@, *today, Bucket::Pinned));
    let ghost p1 = (SectionKind::Overdue, bucket(tasks@, *today, Bucket::Overdue));
    let ghost p2 = (SectionKind::Today, bucket(tasks@, *today, Bucket::DueToday));
    let ghost p3 = (SectionKind::Completed, bucket(tasks@, *today, Bucket::Done));
    let ghost s0 = Seq::<(SectionKind, Seq<Task>)>::empty();
    let ghost s1 = seq![p0];
    let ghost s2 = seq![p0, p1];
    let ghost s3 = seq![p0, p1, p2];
    let mut out: Vec<Section> = Vec::new();
    let ids = collect(tasks, today, &Bucket::Pinned);
    push_part(&mut out, SectionKind::Pinned, ids, collapsed, Ghost(s0), Ghost(p0.1));
    let ids = collect(tasks, today, &Bucket::Overdue);
    proof {
        assert(s0.push(p0) =~= s1);
    }
    push_part(&mut out, SectionKind::Overdue, ids, collapsed, Ghost(s1), Ghost(p1.1));
    let ids = collect(tasks, today, &Bucket::DueToday);
    proof {
        assert(s1.push(p1) =~= s2);
    }
    push_part(&mut out, SectionKind::Today, ids, collapsed, Ghost(s2), Ghost(p2.1));
    let ids = collect(tasks, today, &Bucket::Done);
    proof {
        assert(s2.push(p2) =~= s3);
    }
    push_part(&mut out, SectionKind::Completed, ids, collapsed, Ghost(s3), Ghost(p3.1));
    proof {
        assert(s3.push(p3) =~= today_parts(tasks@, *today));
    }
    out
}

fn list_sections(tasks: &Vec<Task>, today: &Date, collapsed: bool) -> (r: Vec<Section>)
    ensures
        lays_out(r@, list_parts(tasks@, *today), collapsed),
{
    let ghost p0 = (SectionKind::Open, bucket(tasks@, *today, Bucket::Open));
    let ghost p1 = (SectionKind::Completed, bucket(tasks@, *today, Bucket::Done));
    let ghost s0 = Seq::<(SectionKind, Seq<Task>)>::empty();
    let ghost s1 = seq![p0];
    let mut out: Vec<Section> = Vec::new();
    let ids = collect(tasks, today, &Bucket::Open);
    push_part(&mut out, SectionKind::Open, ids, collapsed, Ghost(s0), Ghost(p0.1));
    let ids = collect(tasks, today, &Bucket::Done);
    proof {
        assert(s0.push(p0) =~= s1);
    }
    push_part(&mut out, SectionKind::Completed, ids, collapsed, Ghost(s1), Ghost(p1.1));
    proof {
        assert(s1.push(p1) =~= list_parts(tasks@, *today));
    }
    out
}

/// Lays out a view: its title, its sections, the message of an empty view
/// and a task list's badge. `tasks` are the tasks loaded for the view,
/// `lists` those of the sidebar, and `collapsed` folds the completed
/// section.
pub fn view_layout(
    view: &ActiveView,
    tasks: &Vec<Task>,
    lists: &Vec<TaskList>,
    today: Date,
    collapsed: bool,
) -> (r: ViewLayout)
    ensures
        is_layout(r, *view, tasks@, lists@, today, collapsed),
{
    match view {
        ActiveView::Today => {
            let empty_message = if tasks.len() == 0 {
                Some(String::from_str("No tasks for today. Enjoy your free time!"))
            } else {
                None
            };
            ViewLayout {
                title: String::from_str("Today"),
                sections: today_sections(tasks, &today, collapsed),
                empty_message,
                badge: None,
            }
        },
        ActiveView::Upcoming => {
            let empty_message = if no_top_task(tasks) {
                Some(String::from_str("No tasks scheduled for the next 7 days."))
            } else {
                None
            };
            ViewLayout {
                title: String::from_str("Upcoming"),
                sections: upcoming_sections(tasks, &today),
                empty_message,
                badge: None,
            }
        },
        ActiveView::List(id) => {
            let title = match find_list_title(lists, id) {
                Some(t) => t,
                None => String::from_str("List Tasks"),
            };
            let badge = match find_list_google_id(lists, id) {
                Some(_) => SyncBadge::Synced,
                None => SyncBadge::PendingSync,
            };
            let empty_message = if tasks.len() == 0 {
                Some(String::from_str("This list is empty. Add a task to get started!"))
            } else {
                None
            };
            ViewLayout {
                title,
                sections: list_sections(tasks, &today, collapsed),
                empty_message,
                badge: Some(badge),
            }
        },
        ActiveView::Settings => ViewLayout {
            title: String::from_str("Settings"),
            sections: Vec::new(),
            empty_message: None,
            badge: None,
        },
    }
}


// ------------------------------------------------------------------
// The screen around the views

/// What covers the app.
#[derive(Debug, PartialEq, Eq, Structural)]
pub enum Overlay {
    Nothing,
    /// The notice that the Google account was disconnected.
    Revocation,
    /// The command palette.
    Palette,
}

/// The parts of the screen: in place of the app, the keyring error, if
/// any; else the offline banner, the task detail panel, and what covers
/// the app.
#[derive(Debug)]
pub struct Screen {
    pub keyring_error: Option<String>,
    pub offline_banner: bool,
    pub detail_panel: bool,
    pub overlay: Overlay,
}

/// The parts of the screen for the app state `m`: the detail panel shows
/// with a selected task outside Settings, and the disconnection notice
/// covers the app before the palette does.
pub open spec fn is_screen_of(r: Screen, m: AppModel) -> bool {
    &&& opt_view(r.keyring_error) == opt_view(m.keyring_error)
    &&& r.offline_banner == m.offline
    &&& r.detail_panel == (m.selected_task_id is Some && !(m.active_view is Settings))
    &&& r.overlay == (if m.token_revoked {
        Overlay::Revocation
    } else if m.command_palette_open {
        Overlay::Palette
    } else {
        Overlay::Nothing
    })
}

/// The parts of the screen for the app state `m`.
pub fn screen_of(m: &AppModel) -> (r: Screen)
    ensures
        is_screen_of(r, *m),
{
    let keyring_error = match &m.keyring_error {
        Some(e) => Some(e.clone()),
        None => None,
    };
    let is_settings = match m.active_view {
        ActiveView::Settings => true,
        _ => false,
    };
    let overlay = if m.token_revoked {
        Overlay::Revocation
    } else if m.command_palette_open {
        Overlay::Palette
    } else {
        Overlay::Nothing
    };
    Screen {
        keyring_error,
        offline_banner: m.offline,
        detail_panel: m.selected_task_id.is_some() && !is_settings,
        overlay,
    }
}

/// What the Settings view offers.
#[derive(Debug)]
pub struct SettingsLayout {
    /// What the Google Tasks box says, and the button it offers.
    pub account_text: String,
    pub account_button: String,
    /// The label of the theme button.
    pub theme_label: String,
    /// The sync intervals on offer, in minutes, each with whether it is the
    /// one in use.
    pub intervals: Vec<(u32, bool)>,
}

/// What the Settings view offers, signed in or not, with the theme and
/// the sync interval in use.
pub open spec fn is_settings_layout(r: SettingsLayout, authenticated: bool, theme: AppTheme, interval_mins: u32) -> bool {
    &&& r.account_text@ == (if authenticated {
        "Connected to Google Tasks"@
    } else {
        "Synchronize tasks locally and with Google Cloud"@
    })
    &&& r.account_button@ == (if authenticated {
        "Disconnect Google Account"@
    } else {
        "Connect Google Account"@
    })
    &&& r.theme_label@ == (match theme {
        AppTheme::Dark => "Dark Mode"@,
        AppTheme::Light => "Light Mode"@,
    })
    &&& r.intervals@ == seq![
        (1u32, interval_mins == 1),
        (2u32, interval_mins == 2),
        (5u32, interval_mins == 5),
        (10u32, interval_mins == 10),
        (15u32, interval_mins == 15),
    ]
}

/// Lays out the Settings view.
pub fn settings_layout(authenticated: bool, theme: AppTheme, interval_mins: u32) -> (r: SettingsLayout)
    ensures
        is_settings_layout(r, authenticated, theme, interval_mins),
{
    let (account_text, account_button) = if authenticated {
        (String::from_str("Connected to Google Tasks"), String::from_str("Disconnect Google Account"))
    } else {
        (
            String::from_str("Synchronize tasks locally and with Google Cloud"),
            String::from_str("Connect Google Account"),
        )
    };
    let theme_label = match theme {
        AppTheme::Dark => String::from_str("Dark Mode"),
        AppTheme::Light => String::from_str("Light Mode"),
    };
    let mut intervals: Vec<(u32, bool)> = Vec::new();
    intervals.push((1, interval_mins == 1));
    intervals.push((2, interval_mins == 2));
    intervals.push((5, interval_mins == 5));
    intervals.push((10, interval_mins == 10));
    intervals.push((15, interval_mins == 15));
    proof {
        assert(intervals@ =~= seq![
            (1u32, interval_mins == 1),
            (2u32, interval_mins == 2),
            (5u32, interval_mins == 5),
            (10u32, interval_mins == 10),
            (15u32, interval_mins == 15),
        ]);
    }
    SettingsLayout { account_text, account_button, theme_label, intervals }
}

} // verus!
