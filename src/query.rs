//! The query engine: selection by completion state, by filter and by search
//! text, and the three sort orders.
use vstd::prelude::*;
use vstd::seq_lib::*;
use vstd::multiset::*;

use crate::calendar::Date;
use crate::priority::priority_rank;
use crate::task::{passes_filter, Task};
use crate::text::{contains, lower_of, lowercase, occurs_in};

verus! {

broadcast use group_to_multiset_ensures, group_multiset_axioms;

/// How a list of tasks is ordered.
#[derive(Debug, Clone, Copy, PartialEq, Eq, Structural)]
pub enum SortBy {
    /// Oldest first.
    Date,
    /// Highest priority first; equal priorities oldest first.
    Priority,
    /// Earliest due date first; tasks without one last, oldest first.
    DueDate,
}

/// Whether `a` may stand before `b` in the order `mode`.
pub open spec fn precedes(a: Task, b: Task, mode: SortBy) -> bool {
    match mode {
        SortBy::Date => a.created_at.not_after(b.created_at),
        SortBy::Priority => priority_rank(a.priority) > priority_rank(b.priority) || (
        priority_rank(a.priority) == priority_rank(b.priority) && a.created_at.not_after(
            b.created_at,
        )),
        SortBy::DueDate => match (a.due_date, b.due_date) {
            (Some(x), Some(y)) => !y.before(x),
            (Some(_), None) => true,
            (None, Some(_)) => false,
            (None, None) => a.created_at.not_after(b.created_at),
        },
    }
}

/// Every task of `s` may stand before every later one.
pub open spec fn sorted_by(s: Seq<Task>, mode: SortBy) -> bool {
    forall|i: int, j: int| 0 <= i < j < s.len() ==> precedes(s[i], s[j], mode)
}

/// The sort mode a caller's option names; no option means `priority`.
pub open spec fn sort_named(s: Option<Seq<char>>) -> Option<SortBy> {
    match s {
        None => Some(SortBy::Priority),
        Some(n) => if n == "date"@ {
            Some(SortBy::Date)
        } else if n == "priority"@ {
            Some(SortBy::Priority)
        } else if n == "due-date"@ {
            Some(SortBy::DueDate)
        } else {
            None
        },
    }
}

/// Tasks not yet completed.
pub open spec fn is_open() -> spec_fn(Task) -> bool {
    |t: Task| !t.completed
}

/// Tasks that pass filter `f` on day `today`.
pub open spec fn passing(f: Seq<char>, today: Date) -> spec_fn(Task) -> bool {
    |t: Task| passes_filter(t, f, today)
}

/// Whether the lowercase query occurs in the lowercase title or in the
/// lowercase description; an absent description never matches.
pub open spec fn matches_query(t: Task, q: Seq<char>) -> bool {
    occurs_in(lower_of(q), lower_of(t.title@)) || (t.description matches Some(d) && occurs_in(
        lower_of(q),
        lower_of(d@),
    ))
}

/// Tasks that match search text `q`.
pub open spec fn matching(q: Seq<char>) -> spec_fn(Task) -> bool {
    |t: Task| matches_query(t, q)
}

impl SortBy {
    /// The sort mode that `name` spells; `None` selects `priority`.
    pub fn parse(name: Option<&str>) -> (r: Option<SortBy>)
        ensures
            r == sort_named(
                match name {
                    Some(n) => Some(n@),
                    None => None,
                },
            ),
    {
        match name {
            None => Some(SortBy::Priority),
            Some(n) => if crate::text::str_eq(n, "date") {
                Some(SortBy::Date)
            } else if crate::text::str_eq(n, "priority") {
                Some(SortBy::Priority)
            } else if crate::text::str_eq(n, "due-date") {
                Some(SortBy::DueDate)
            } else {
                None
            },
        }
    }
}

/// Whether `a` may stand before `b` in the order `mode`.
pub fn in_order(a: &Task, b: &Task, mode: SortBy) -> (r: bool)
    ensures
        r == precedes(*a, *b, mode),
{
    match mode {
        SortBy::Date => a.created_at.is_not_after(&b.created_at),
        SortBy::Priority => {
            let (pa, pb) = (a.priority.priority_value(), b.priority.priority_value());
            pa > pb || (pa == pb && a.created_at.is_not_after(&b.created_at))
        },
        SortBy::DueDate => match (&a.due_date, &b.due_date) {
            (Some(x), Some(y)) => !y.is_before(x),
            (Some(_), None) => true,
            (None, Some(_)) => false,
            (None, None) => a.created_at.is_not_after(&b.created_at),
        },
    }
}

proof fn lemma_precedes_total(a: Task, b: Task, mode: SortBy)
    ensures
        precedes(a, b, mode) || precedes(b, a, mode),
{
}

proof fn lemma_precedes_transitive(a: Task, b: Task, c: Task, mode: SortBy)
    requires
        precedes(a, b, mode),
        precedes(b, c, mode),
    ensures
        precedes(a, c, mode),
{
}

/// In the due-date order, a task without a due date is followed only by
/// tasks without one, and those stand oldest first.
pub proof fn lemma_undated_last(s: Seq<Task>, i: int, j: int)
    requires
        sorted_by(s, SortBy::DueDate),
        0 <= i < j < s.len(),
    ensures
        s[i].due_date is None ==> s[j].due_date is None,
        s[i].due_date is None ==> s[i].created_at.not_after(s[j].created_at),
{
    assert(precedes(s[i], s[j], SortBy::DueDate));
}

/// `r` is `s` rearranged by `idx`: position `k` of `r` holds task `idx[k]`
/// of `s`, no task of `s` is used twice, and tasks that tie in `mode` keep
/// the order they had in `s`.
pub open spec fn stable_arrangement(r: Seq<Task>, s: Seq<Task>, idx: Seq<int>, mode: SortBy) -> bool {
    &&& idx.len() == r.len()
    &&& r.len() == s.len()
    &&& forall|k: int| 0 <= k < r.len() ==> 0 <= #[trigger] idx[k] < s.len() && r[k] == s[idx[k]]
    &&& forall|k: int, l: int| 0 <= k < l < r.len() ==> idx[k] != idx[l]
    &&& forall|k: int, l: int|
        0 <= k < l < r.len() && precedes(r[l], r[k], mode) ==> idx[k] < idx[l]
}

/// `r` is a rearrangement of `s` in which tasks that tie in `mode` keep
/// their order.
pub open spec fn stably_arranged(r: Seq<Task>, s: Seq<Task>, mode: SortBy) -> bool {
    exists|idx: Seq<int>| stable_arrangement(r, s, idx, mode)
}

/// Sorts `tasks` into the order `mode`, keeping every task; tasks that tie
/// keep their order.
pub fn sort_tasks(tasks: Vec<Task>, mode: SortBy) -> (r: Vec<Task>)
    ensures
        r@.to_multiset() == tasks@.to_multiset(),
        sorted_by(r@, mode),
        stably_arranged(r@, tasks@, mode),
{
    let mut rest = tasks;
    let mut out: Vec<Task> = Vec::new();
    let ghost mut idx: Seq<int> = Seq::empty();
    while rest.len() > 0
        invariant
            out@.to_multiset().add(rest@.to_multiset()) == tasks@.to_multiset(),
            sorted_by(out@, mode),
            out@.len() + rest@.len() == tasks@.len(),
            rest@ == tasks@.subrange(out@.len() as int, tasks@.len() as int),
            idx.len() == out@.len(),
            forall|k: int|
                0 <= k < out@.len() ==> 0 <= #[trigger] idx[k] < out@.len() && out@[k]
                    == tasks@[idx[k]],
            forall|k: int, l: int| 0 <= k < l < out@.len() ==> idx[k] != idx[l],
            forall|k: int, l: int|
                0 <= k < l < out@.len() && precedes(out@[l], out@[k], mode) ==> idx[k] < idx[l],
        decreases rest@.len(),
    {
        let ghost before = rest@;
        let ghost n = out@.len() as int;
        let t = rest.remove(0);
        assert(t == tasks@[n]);
        let mut j: usize = 0;
        while j < out.len() && in_order(&out[j], &t, mode)
            invariant
                j <= out@.len(),
                sorted_by(out@, mode),
                forall|k: int| 0 <= k < j ==> precedes(#[trigger] out@[k], t, mode),
            decreases out@.len() - j,
        {
            j = j + 1;
        }
        proof {
            if j < out@.len() {
                lemma_precedes_total(out@[j as int], t, mode);
                assert forall|k: int| j <= k < out@.len() implies precedes(
                    t,
                    #[trigger] out@[k],
                    mode,
                ) by {
                    if k > j {
                        lemma_precedes_transitive(t, out@[j as int], out@[k], mode);
                    }
                }
                assert forall|k: int| j <= k < out@.len() implies !precedes(
                    #[trigger] out@[k],
                    t,
                    mode,
                ) by {
                    if k > j && precedes(out@[k], t, mode) {
                        lemma_precedes_transitive(out@[j as int], out@[k], t, mode);
                    }
                }
            }
        }
        let ghost prev = out@;
        let ghost prev_idx = idx;
        out.insert(j, t);
        proof {
            idx = prev_idx.insert(j as int, n);
            assert(before.to_multiset().contains(t)) by {
                assert(before[0] == t);
            }
            assert(out@.to_multiset().add(rest@.to_multiset()) =~= tasks@.to_multiset());
            assert(rest@ =~= tasks@.subrange(out@.len() as int, tasks@.len() as int));
            assert forall|a: int, b: int| 0 <= a < b < out@.len() implies precedes(
                out@[a],
                out@[b],
                mode,
            ) by {
                if b < j {
                    assert(out@[a] == prev[a] && out@[b] == prev[b]);
                } else if b == j {
                    assert(out@[a] == prev[a]);
                } else if a < j {
                    assert(out@[a] == prev[a] && out@[b] == prev[b - 1]);
                    lemma_precedes_transitive(prev[a], t, prev[b - 1], mode);
                } else if a == j {
                    assert(out@[b] == prev[b - 1]);
                } else {
                    assert(out@[a] == prev[a - 1] && out@[b] == prev[b - 1]);
                }
            }
            assert forall|k: int| 0 <= k < out@.len() implies 0 <= #[trigger] idx[k] < out@.len()
                && out@[k] == tasks@[idx[k]] by {
                if k < j {
                    assert(idx[k] == prev_idx[k]);
                } else if k > j {
                    assert(idx[k] == prev_idx[k - 1]);
                }
            }
            assert forall|k: int, l: int| 0 <= k < l < out@.len() implies idx[k] != idx[l] by {
                if l < j {
                } else if l == j {
                    assert(idx[k] == prev_idx[k]);
                } else if k < j {
                    assert(idx[k] == prev_idx[k] && idx[l] == prev_idx[l - 1]);
                } else if k == j {
                    assert(idx[l] == prev_idx[l - 1]);
                } else {
                    assert(idx[k] == prev_idx[k - 1] && idx[l] == prev_idx[l - 1]);
                }
            }
            assert forall|k: int, l: int|
                0 <= k < l < out@.len() && precedes(out@[l], out@[k], mode) implies idx[k]
                < idx[l] by {
                if l < j {
                    assert(idx[k] == prev_idx[k] && idx[l] == prev_idx[l]);
                    assert(out@[k] == prev[k] && out@[l] == prev[l]);
                } else if l == j {
                    assert(idx[k] == prev_idx[k]);
                } else if k < j {
                    assert(idx[k] == prev_idx[k] && idx[l] == prev_idx[l - 1]);
                    assert(out@[k] == prev[k] && out@[l] == prev[l - 1]);
                    lemma_precedes_transitive(prev[l - 1], prev[k], t, mode);
                } else if k == j {
                    assert(out@[l] == prev[l - 1]);
                } else {
                    assert(idx[k] == prev_idx[k - 1] && idx[l] == prev_idx[l - 1]);
                    assert(out@[k] == prev[k - 1] && out@[l] == prev[l - 1]);
                }
            }
        }
    }
    proof {
        assert(rest@.to_multiset() =~= Multiset::empty());
        assert(out@.to_multiset() =~= tasks@.to_multiset());
        assert(stable_arrangement(out@, tasks@, idx, mode));
    }
    out
}

/// The tasks of `tasks` that are not completed, in their order.
pub fn keep_open(tasks: Vec<Task>) -> (r: Vec<Task>)
    ensures
        r@ == tasks@.filter(is_open()),
{
    let mut rest = tasks;
    let mut out: Vec<Task> = Vec::new();
    while rest.len() > 0
        invariant
            rest@.len() <= tasks@.len(),
            rest@ == tasks@.subrange(tasks@.len() - rest@.len(), tasks@.len() as int),
            out@ == tasks@.subrange(0, tasks@.len() - rest@.len()).filter(is_open()),
        decreases rest@.len(),
    {
        let ghost k = tasks@.len() - rest@.len();
        let t = rest.remove(0);
        proof {
            assert(tasks@.subrange(0, k + 1) =~= tasks@.subrange(0, k).push(t));
            tasks@.subrange(0, k).lemma_filter_push(t, is_open());
        }
        if !t.completed {
            out.push(t);
        }
        assert(rest@ =~= tasks@.subrange(k + 1, tasks@.len() as int));
    }
    assert(tasks@.subrange(0, tasks@.len() as int) =~= tasks@);
    out
}

/// The tasks of `tasks` that pass `filter` on day `today`, in their order.
pub fn keep_passing(tasks: Vec<Task>, filter: &str, today: &Date) -> (r: Vec<Task>)
    ensures
        r@ == tasks@.filter(passing(filter@, *today)),
{
    let mut rest = tasks;
    let mut out: Vec<Task> = Vec::new();
    while rest.len() > 0
        invariant
            rest@.len() <= tasks@.len(),
            rest@ == tasks@.subrange(tasks@.len() - rest@.len(), tasks@.len() as int),
            out@ == tasks@.subrange(0, tasks@.len() - rest@.len()).filter(
                passing(filter@, *today),
            ),
        decreases rest@.len(),
    {
        let ghost k = tasks@.len() - rest@.len();
        let t = rest.remove(0);
        proof {
            assert(tasks@.subrange(0, k + 1) =~= tasks@.subrange(0, k).push(t));
            tasks@.subrange(0, k).lemma_filter_push(t, passing(filter@, *today));
        }
        if t.matches_filter(filter, today) {
            out.push(t);
        }
        assert(rest@ =~= tasks@.subrange(k + 1, tasks@.len() as int));
    }
    assert(tasks@.subrange(0, tasks@.len() as int) =~= tasks@);
    out
}

/// Whether the task matches the search text `query`, ignoring case.
pub fn task_matches_query(t: &Task, query: &str) -> (r: bool)
    ensures
        r == matches_query(*t, query@),
{
    let q = lowercase(query);
    let title = lowercase(t.title.as_str());
    if contains(title.as_str(), q.as_str()) {
        return true;
    }
    match &t.description {
        Some(d) => {
            let d = lowercase(d.as_str());
            contains(d.as_str(), q.as_str())
        },
        None => false,
    }
}

/// The tasks of `tasks` that match the search text `query`, in their order.
pub fn search_tasks(tasks: Vec<Task>, query: &str) -> (r: Vec<Task>)
    ensures
        r@ == tasks@.filter(matching(query@)),
{
    let mut rest = tasks;
    let mut out: Vec<Task> = Vec::new();
    while rest.len() > 0
        invariant
            rest@.len() <= tasks@.len(),
            rest@ == tasks@.subrange(tasks@.len() - rest@.len(), tasks@.len() as int),
            out@ == tasks@.subrange(0, tasks@.len() - rest@.len()).filter(matching(query@)),
        decreases rest@.len(),
    {
        let ghost k = tasks@.len() - rest@.len();
        let t = rest.remove(0);
        proof {
            assert(tasks@.subrange(0, k + 1) =~= tasks@.subrange(0, k).push(t));
            tasks@.subrange(0, k).lemma_filter_push(t, matching(query@));
        }
        if task_matches_query(&t, query) {
            out.push(t);
        }
        assert(rest@ =~= tasks@.subrange(k + 1, tasks@.len() as int));
    }
    assert(tasks@.subrange(0, tasks@.len() as int) =~= tasks@);
    out
}

} // verus!
