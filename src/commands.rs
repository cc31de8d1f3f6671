//! The command operations. Each takes the loaded collection, checks its
//! inputs, applies the task model or the query engine, and says whether the
//! collection changed; loading and saving are the caller's part.
use vstd::prelude::*;
use vstd::seq_lib::*;

use crate::calendar::{parse_date, parsed_date, Date};
use crate::error::TaskError;
use crate::priority::{parsed_priority, priority_name, Priority};
use crate::text::{has_prefix, lower_of};
use crate::query::{
    is_open, keep_open, keep_passing, passing, sort_named, sort_tasks, sorted_by,
    stably_arranged, SortBy,
};
use crate::storage::{ids_unique, next_id_of, Storage};
use crate::task::Task;

verus! {

broadcast use group_filter_ensures;

/// What completing a task did.
#[derive(Debug, Clone, Copy, PartialEq, Eq, Structural)]
pub enum Completion {
    /// The task was open and is now completed: the collection changed.
    Completed,
    /// The task was already completed: nothing changed.
    AlreadyCompleted,
}

/// Counts over a collection.
#[derive(Debug, Clone, Copy, PartialEq, Eq, Structural)]
pub struct Stats {
    pub total: usize,
    pub completed: usize,
    pub incomplete: usize,
    pub high: usize,
    pub medium: usize,
    pub low: usize,
    pub overdue: usize,
}

pub open spec fn view_opt(o: Option<String>) -> Option<Seq<char>> {
    match o {
        Some(s) => Some(s@),
        None => None,
    }
}

/// The priority a new task gets: the one named, or `Medium` when none is.
pub open spec fn chosen_priority(p: Option<String>) -> Option<Priority> {
    match p {
        Some(s) => parsed_priority(s@),
        None => Some(Priority::Medium),
    }
}

/// Whether a priority is given and fails to parse.
pub open spec fn rejected_priority(p: Option<String>) -> bool {
    chosen_priority(p) is None
}

/// The due date a string names, or no due date when none is given; `None`
/// when the string is malformed.
pub open spec fn chosen_due(d: Option<String>) -> Option<Option<Date>> {
    match d {
        Some(s) => match parsed_date(s@) {
            Some(x) => Some(Some(x)),
            None => None,
        },
        None => Some(None),
    }
}

/// Every task of `s` records a completion time exactly when it is completed,
/// and every due date is a day of the calendar.
pub open spec fn collection_wf(s: Seq<Task>) -> bool {
    forall|i: int| 0 <= i < s.len() ==> (#[trigger] s[i]).wf()
}

/// Whether some task of `s` has identifier `id`.
pub open spec fn has_id(s: Seq<Task>, id: u32) -> bool {
    exists|i: int| 0 <= i < s.len() && #[trigger] s[i].id == id
}

/// `i` is the first position of `s` that holds identifier `id`.
pub open spec fn is_first_with(s: Seq<Task>, id: u32, i: int) -> bool {
    0 <= i < s.len() && s[i].id == id && forall|j: int| 0 <= j < i ==> #[trigger] s[j].id != id
}

/// The first position of `s` that holds identifier `id`.
pub open spec fn index_of(s: Seq<Task>, id: u32) -> int {
    choose|i: int| is_first_with(s, id, i)
}

/// Whether `t` is one of the first `k` tasks of `s`.
pub open spec fn in_prefix(t: Task, s: Seq<Task>, k: int) -> bool {
    exists|m: int| 0 <= m < k && s[m] == t
}

/// Tasks whose identifier is not `id`.
pub open spec fn not_with_id(id: u32) -> spec_fn(Task) -> bool {
    |t: Task| t.id != id
}

/// The task `t` after an edit: each supplied field replaces the old one.
pub open spec fn edited(
    t: Task,
    title: Option<String>,
    description: Option<String>,
    priority: Option<String>,
    tags: Option<Vec<String>>,
    due_date: Option<String>,
) -> Task {
    Task {
        title: match title {
            Some(x) => x,
            None => t.title,
        },
        description: match description {
            Some(d) => Some(d),
            None => t.description,
        },
        priority: match priority {
            Some(p) => match parsed_priority(p@) {
                Some(q) => q,
                None => t.priority,
            },
            None => t.priority,
        },
        tags: match tags {
            Some(x) => x,
            None => t.tags,
        },
        due_date: match due_date {
            Some(d) => match parsed_date(d@) {
                Some(x) => Some(x),
                None => t.due_date,
            },
            None => t.due_date,
        },
        ..t
    }
}

/// What a listing shows before it is ordered: the open tasks, or all of
/// them, narrowed by the filter if one is given.
pub open spec fn listed(s: Seq<Task>, all: bool, filter: Option<String>, today: Date) -> Seq<
    Task,
> {
    let base = if all {
        s
    } else {
        s.filter(is_open())
    };
    match filter {
        Some(f) => base.filter(passing(f@, today)),
        None => base,
    }
}

pub open spec fn is_done() -> spec_fn(Task) -> bool {
    |t: Task| t.completed
}

pub open spec fn with_priority(p: Priority) -> spec_fn(Task) -> bool {
    |t: Task| t.priority == p
}

pub open spec fn overdue_on(today: Date) -> spec_fn(Task) -> bool {
    |t: Task| t.overdue_on(today)
}

/// A listing without `all` and without a filter holds exactly the open
/// tasks, in their stored order; with `all` it holds every task.
pub proof fn lemma_listing_completion(s: Seq<Task>, today: Date)
    ensures
        listed(s, false, None, today) == s.filter(is_open()),
        forall|i: int|
            0 <= i < listed(s, false, None, today).len() ==> !(#[trigger] listed(
                s,
                false,
                None,
                today,
            )[i]).completed,
        listed(s, true, None, today) == s,
{
    let l = listed(s, false, None, today);
    assert forall|i: int| 0 <= i < l.len() implies !(#[trigger] l[i]).completed by {
        s.lemma_filter_pred(is_open(), i);
    }
}

/// Filtering by `priority:<v>`, where `v` folds to the name of priority `p`,
/// keeps exactly the tasks of priority `p` that the listing would show
/// without a filter, in the same order.
pub proof fn lemma_priority_filter_exact(
    s: Seq<Task>,
    all: bool,
    f: String,
    today: Date,
    p: Priority,
)
    requires
        has_prefix(f@, "priority:"@),
        lower_of(f@.subrange(9, f@.len() as int)) == priority_name(p),
    ensures
        listed(s, all, Some(f), today) == listed(s, all, None, today).filter(with_priority(p)),
{
    reveal_strlit("priority:");
    reveal_strlit("low");
    reveal_strlit("medium");
    reveal_strlit("high");
    assert(passing(f@, today) =~= with_priority(p)) by {
        assert forall|t: Task| #[trigger] passing(f@, today)(t) == with_priority(p)(t) by {
            assert("low"@.len() == 3 && "medium"@.len() == 6 && "high"@.len() == 4);
            assert(priority_name(t.priority) == priority_name(p) <==> t.priority == p);
        }
    }
}

/// The first position of `tasks` that holds `id`.
pub fn find_index(tasks: &Vec<Task>, id: u32) -> (r: Option<usize>)
    ensures
        r is None <==> !has_id(tasks@, id),
        r matches Some(i) ==> is_first_with(tasks@, id, i as int) && i == index_of(tasks@, id),
{
    let mut i: usize = 0;
    while i < tasks.len()
        invariant
            i <= tasks@.len(),
            forall|j: int| 0 <= j < i ==> #[trigger] tasks@[j].id != id,
        decreases tasks@.len() - i,
    {
        if tasks[i].id == id {
            proof {
                let k = index_of(tasks@, id);
                assert(is_first_with(tasks@, id, i as int));
                assert(is_first_with(tasks@, id, k));
                if k < i {
                    assert(tasks@[k].id != id);
                } else if k > i {
                    assert(tasks@[i as int].id != id);
                }
            }
            return Some(i);
        }
        i = i + 1;
    }
    None
}

fn choose_priority(p: Option<String>) -> (r: Result<Priority, TaskError>)
    ensures
        chosen_priority(p) matches Some(q) ==> r == Ok::<Priority, TaskError>(q),
        chosen_priority(p) is None ==> r == Err::<Priority, TaskError>(TaskError::InvalidPriority),
{
    match p {
        Some(s) => match Priority::from_str(s.as_str()) {
            Some(q) => Ok(q),
            None => Err(TaskError::InvalidPriority),
        },
        None => Ok(Priority::Medium),
    }
}

fn choose_due(d: &Option<String>) -> (r: Result<Option<Date>, TaskError>)
    ensures
        chosen_due(*d) matches Some(x) ==> r == Ok::<Option<Date>, TaskError>(x),
        chosen_due(*d) is None ==> r == Err::<Option<Date>, TaskError>(TaskError::InvalidDate),
        r matches Ok(Some(x)) ==> x.wf(),
{
    match d {
        Some(s) => match parse_date(s.as_str()) {
            Some(x) => Ok(Some(x)),
            None => Err(TaskError::InvalidDate),
        },
        None => Ok(None),
    }
}

/// Adds a new open task with the next identifier and returns that
/// identifier. The title is taken as given, an empty one included. The
/// priority defaults to `Medium`; a given priority or due date must parse,
/// or nothing changes.
pub fn add_task(
    tasks: &mut Vec<Task>,
    title: String,
    description: Option<String>,
    priority: Option<String>,
    tags: Vec<String>,
    due_date: Option<String>,
) -> (r: Result<u32, TaskError>)
    ensures
        chosen_priority(priority) is None ==> r == Err::<u32, TaskError>(
            TaskError::InvalidPriority,
        ),
        chosen_priority(priority) is Some && chosen_due(due_date) is None ==> r == Err::<
            u32,
            TaskError,
        >(TaskError::InvalidDate),
        chosen_priority(priority) is Some && chosen_due(due_date) is Some && next_id_of(
            old(tasks)@,
        ) is None ==> r == Err::<u32, TaskError>(TaskError::IdsExhausted),
        r is Err ==> final(tasks)@ == old(tasks)@,
        chosen_priority(priority) is Some && chosen_due(due_date) is Some && next_id_of(
            old(tasks)@,
        ) is Some ==> r is Ok,
        r matches Ok(id) ==> {
            &&& Some(id) == next_id_of(old(tasks)@)
            &&& final(tasks)@.len() == old(tasks)@.len() + 1
            &&& final(tasks)@.subrange(0, old(tasks)@.len() as int) == old(tasks)@
            &&& final(tasks)@.last().id == id
            &&& final(tasks)@.last().title == title
            &&& final(tasks)@.last().description == description
            &&& chosen_priority(priority) == Some(final(tasks)@.last().priority)
            &&& final(tasks)@.last().tags == tags
            &&& !final(tasks)@.last().completed
            &&& final(tasks)@.last().completed_at is None
            &&& chosen_due(due_date) == Some(final(tasks)@.last().due_date)
        },
        ids_unique(old(tasks)@) ==> ids_unique(final(tasks)@),
        collection_wf(old(tasks)@) ==> collection_wf(final(tasks)@),
{
    let priority = match choose_priority(priority) {
        Ok(p) => p,
        Err(e) => return Err(e),
    };
    let due = match choose_due(&due_date) {
        Ok(d) => d,
        Err(e) => return Err(e),
    };
    let id = match Storage::get_next_id(tasks) {
        Some(id) => id,
        None => return Err(TaskError::IdsExhausted),
    };
    let task = Task::new(id, title, description, priority, tags, due);
    let ghost before = tasks@;
    tasks.push(task);
    proof {
        assert(tasks@.subrange(0, before.len() as int) =~= before);
        assert forall|i: int, j: int| 0 <= i < j < tasks@.len() && ids_unique(before) implies tasks@[i].id
            != tasks@[j].id by {
            if j == before.len() {
                assert(tasks@[i] == before[i]);
            }
        }
        assert forall|i: int| 0 <= i < tasks@.len() && collection_wf(before) implies (
        #[trigger] tasks@[i]).wf() by {
            if i < before.len() {
                assert(tasks@[i] == before[i]);
            }
        }
    }
    Ok(id)
}

/// The tasks to show: open ones only unless `all` is set, then those that
/// pass `filter` on day `today`, then ordered by the sort mode `sort_by`
/// names (`priority` when none is given).
pub fn list_tasks(
    tasks: Vec<Task>,
    all: bool,
    filter: Option<String>,
    sort_by: Option<String>,
    today: &Date,
) -> (r: Result<Vec<Task>, TaskError>)
    ensures
        sort_named(view_opt(sort_by)) is None <==> r is Err,
        r is Err ==> r == Err::<Vec<Task>, TaskError>(TaskError::InvalidSortOption),
        r matches Ok(v) ==> {
            &&& v@.to_multiset() == listed(tasks@, all, filter, *today).to_multiset()
            &&& sort_named(view_opt(sort_by)) matches Some(m) && sorted_by(v@, m)
                && stably_arranged(v@, listed(tasks@, all, filter, *today), m)
        },
{
    let mode = match &sort_by {
        Some(s) => SortBy::parse(Some(s.as_str())),
        None => SortBy::parse(None),
    };
    let mode = match mode {
        Some(m) => m,
        None => return Err(TaskError::InvalidSortOption),
    };
    let base = if all {
        tasks
    } else {
        keep_open(tasks)
    };
    let selected = match &filter {
        Some(f) => keep_passing(base, f.as_str(), today),
        None => base,
    };
    let ghost chosen = selected@;
    assert(chosen == listed(tasks@, all, filter, *today));
    let sorted = sort_tasks(selected, mode);
    Ok(sorted)
}

/// Completes the task with identifier `id`. A task that is already
/// completed is left exactly as it was, so nothing needs saving.
pub fn complete_task(tasks: &mut Vec<Task>, id: u32) -> (r: Result<Completion, TaskError>)
    ensures
        !has_id(old(tasks)@, id) ==> r == Err::<Completion, TaskError>(TaskError::NotFound(id)),
        has_id(old(tasks)@, id) ==> r is Ok,
        r is Err || r == Ok::<Completion, TaskError>(Completion::AlreadyCompleted)
            ==> final(tasks)@ == old(tasks)@,
        has_id(old(tasks)@, id) && old(tasks)@[index_of(old(tasks)@, id)].completed ==> r == Ok::<
            Completion,
            TaskError,
        >(Completion::AlreadyCompleted),
        has_id(old(tasks)@, id) && !old(tasks)@[index_of(old(tasks)@, id)].completed ==> {
            let i = index_of(old(tasks)@, id);
            &&& r == Ok::<Completion, TaskError>(Completion::Completed)
            &&& final(tasks)@ == old(tasks)@.update(i, final(tasks)@[i])
            &&& final(tasks)@[i].completed_at is Some
            &&& final(tasks)@[i] == (Task {
                completed: true,
                completed_at: final(tasks)@[i].completed_at,
                ..old(tasks)@[i]
            })
        },
        collection_wf(old(tasks)@) ==> collection_wf(final(tasks)@),
        ids_unique(old(tasks)@) ==> ids_unique(final(tasks)@),
{
    let i = match find_index(tasks, id) {
        Some(i) => i,
        None => return Err(TaskError::NotFound(id)),
    };
    if tasks[i].completed {
        return Ok(Completion::AlreadyCompleted);
    }
    let ghost before = tasks@;
    let mut t = tasks.remove(i);
    t.complete();
    tasks.insert(i, t);
    assert(tasks@ =~= before.update(i as int, t));
    assert(collection_wf(before) ==> before[i as int].wf());
    Ok(Completion::Completed)
}

/// Deletes the tasks with identifier `id`; fails, changing nothing, when
/// there is none.
pub fn delete_task(tasks: &mut Vec<Task>, id: u32) -> (r: Result<(), TaskError>)
    ensures
        !has_id(old(tasks)@, id) ==> r == Err::<(), TaskError>(TaskError::NotFound(id)),
        r is Err ==> final(tasks)@ == old(tasks)@,
        has_id(old(tasks)@, id) ==> r is Ok && final(tasks)@ == old(tasks)@.filter(
            not_with_id(id),
        ),
        collection_wf(old(tasks)@) ==> collection_wf(final(tasks)@),
        ids_unique(old(tasks)@) ==> ids_unique(final(tasks)@),
{
    if find_index(tasks, id).is_none() {
        return Err(TaskError::NotFound(id));
    }
    let ghost orig = tasks@;
    let mut out: Vec<Task> = Vec::new();
    while tasks.len() > 0
        invariant
            tasks@.len() <= orig.len(),
            tasks@ == orig.subrange(orig.len() - tasks@.len(), orig.len() as int),
            out@ == orig.subrange(0, orig.len() - tasks@.len()).filter(not_with_id(id)),
            forall|i: int|
                0 <= i < out@.len() ==> in_prefix(#[trigger] out@[i], orig, orig.len() - tasks@.len()),
            ids_unique(orig) ==> ids_unique(out@),
        decreases tasks@.len(),
    {
        let ghost k = orig.len() - tasks@.len();
        let t = tasks.remove(0);
        proof {
            assert(orig.subrange(0, k + 1) =~= orig.subrange(0, k).push(t));
            orig.subrange(0, k).lemma_filter_push(t, not_with_id(id));
        }
        let ghost prev = out@;
        if t.id != id {
            out.push(t);
            proof {
                assert(orig[k] == t);
                assert forall|i: int| 0 <= i < out@.len() implies in_prefix(
                    #[trigger] out@[i],
                    orig,
                    k + 1,
                ) by {
                    if i < prev.len() {
                        assert(in_prefix(prev[i], orig, k));
                        let m = choose|m: int| 0 <= m < k && orig[m] == prev[i];
                        assert(orig[m] == out@[i]);
                    } else {
                        assert(orig[k] == out@[i]);
                    }
                }
                assert forall|a: int, b: int| 0 <= a < b < out@.len() && ids_unique(orig) implies out@[a].id
                    != out@[b].id by {
                    if b == prev.len() {
                        assert(in_prefix(prev[a], orig, k));
                        let m = choose|m: int| 0 <= m < k && orig[m] == prev[a];
                        assert(orig[m].id != orig[k].id);
                    } else {
                        assert(out@[a] == prev[a] && out@[b] == prev[b]);
                    }
                }
            }
        }
        assert(tasks@ =~= orig.subrange(k + 1, orig.len() as int));
    }
    assert(orig.subrange(0, orig.len() as int) =~= orig);
    proof {
        assert forall|i: int| 0 <= i < out@.len() && collection_wf(orig) implies (
        #[trigger] out@[i]).wf() by {
            assert(out@.contains(out@[i]));
            orig.lemma_filter_contains_rev(not_with_id(id), out@[i]);
        }
    }
    *tasks = out;
    Ok(())
}

/// Edits the task with identifier `id`: each supplied field replaces the
/// old value, the others stay. The priority and due date are checked before
/// anything changes.
pub fn edit_task(
    tasks: &mut Vec<Task>,
    id: u32,
    title: Option<String>,
    description: Option<String>,
    priority: Option<String>,
    tags: Option<Vec<String>>,
    due_date: Option<String>,
) -> (r: Result<(), TaskError>)
    ensures
        !has_id(old(tasks)@, id) ==> r == Err::<(), TaskError>(TaskError::NotFound(id)),
        has_id(old(tasks)@, id) && rejected_priority(priority) ==> r == Err::<(), TaskError>(
            TaskError::InvalidPriority,
        ),
        has_id(old(tasks)@, id) && !rejected_priority(priority) && chosen_due(due_date) is None
            ==> r == Err::<(), TaskError>(TaskError::InvalidDate),
        r is Err ==> final(tasks)@ == old(tasks)@,
        has_id(old(tasks)@, id) && !rejected_priority(priority) && chosen_due(due_date) is Some
            ==> {
            &&& r is Ok
            &&& final(tasks)@ == old(tasks)@.update(
                index_of(old(tasks)@, id),
                edited(
                    old(tasks)@[index_of(old(tasks)@, id)],
                    title,
                    description,
                    priority,
                    tags,
                    due_date,
                ),
            )
        },
        collection_wf(old(tasks)@) ==> collection_wf(final(tasks)@),
        ids_unique(old(tasks)@) ==> ids_unique(final(tasks)@),
{
    let i = match find_index(tasks, id) {
        Some(i) => i,
        None => return Err(TaskError::NotFound(id)),
    };
    let new_priority = match &priority {
        Some(p) => match Priority::from_str(p.as_str()) {
            Some(q) => Some(q),
            None => return Err(TaskError::InvalidPriority),
        },
        None => None,
    };
    let new_due = match &due_date {
        Some(d) => match parse_date(d.as_str()) {
            Some(x) => Some(x),
            None => return Err(TaskError::InvalidDate),
        },
        None => None,
    };
    let ghost before = tasks@;
    let mut t = tasks.remove(i);
    if let Some(x) = title {
        t.update_title(x);
    }
    if description.is_some() {
        t.update_description(description);
    }
    if let Some(q) = new_priority {
        t.update_priority(q);
    }
    if let Some(x) = tags {
        t.update_tags(x);
    }
    if let Some(x) = new_due {
        t.update_due_date(Some(x));
    }
    tasks.insert(i, t);
    assert(tasks@ =~= before.update(i as int, t));
    assert(collection_wf(before) ==> before[i as int].wf());
    Ok(())
}

/// Counts the tasks of `tasks` in total, by completion, by priority, and
/// those overdue on day `today`.
pub fn show_stats(tasks: &Vec<Task>, today: &Date) -> (r: Stats)
    ensures
        r.total == tasks@.len(),
        r.completed == tasks@.filter(is_done()).len(),
        r.incomplete == tasks@.filter(is_open()).len(),
        r.high == tasks@.filter(with_priority(Priority::High)).len(),
        r.medium == tasks@.filter(with_priority(Priority::Medium)).len(),
        r.low == tasks@.filter(with_priority(Priority::Low)).len(),
        r.overdue == tasks@.filter(overdue_on(*today)).len(),
{
    let mut st = Stats { total: 0, completed: 0, incomplete: 0, high: 0, medium: 0, low: 0, overdue: 0 };
    let mut i: usize = 0;
    while i < tasks.len()
        invariant
            i <= tasks@.len(),
            st.total == i,
            st.completed == tasks@.subrange(0, i as int).filter(is_done()).len(),
            st.incomplete == tasks@.subrange(0, i as int).filter(is_open()).len(),
            st.high == tasks@.subrange(0, i as int).filter(with_priority(Priority::High)).len(),
            st.medium == tasks@.subrange(0, i as int).filter(with_priority(Priority::Medium)).len(),
            st.low == tasks@.subrange(0, i as int).filter(with_priority(Priority::Low)).len(),
            st.overdue == tasks@.subrange(0, i as int).filter(overdue_on(*today)).len(),
        decreases tasks@.len() - i,
    {
        let t = &tasks[i];
        let ghost s = tasks@.subrange(0, i as int);
        proof {
            assert(tasks@.subrange(0, i + 1) =~= s.push(*t));
            s.lemma_filter_push(*t, is_done());
            s.lemma_filter_push(*t, is_open());
            s.lemma_filter_push(*t, with_priority(Priority::High));
            s.lemma_filter_push(*t, with_priority(Priority::Medium));
            s.lemma_filter_push(*t, with_priority(Priority::Low));
            s.lemma_filter_push(*t, overdue_on(*today));
            s.filter(is_done()).lemma_filter_len(is_done());
        }
        st.total = st.total + 1;
        if t.completed {
            st.completed = st.completed + 1;
        } else {
            st.incomplete = st.incomplete + 1;
        }
        match t.priority {
            Priority::High => st.high = st.high + 1,
            Priority::Medium => st.medium = st.medium + 1,
            Priority::Low => st.low = st.low + 1,
        }
        if t.is_overdue(today) {
            st.overdue = st.overdue + 1;
        }
        i = i + 1;
    }
    assert(tasks@.subrange(0, i as int) =~= tasks@);
    st
}

} // verus!
