//! The task entity, its lifecycle operations, and the filter language.
use vstd::prelude::*;
use vstd::string::*;

use crate::calendar::{now, Date, Timestamp};
use crate::priority::{priority_name, Priority};
use crate::text::{has_prefix, lower_of, lowercase, starts_with, str_eq};

verus! {

/// One to-do item.
#[derive(Debug, Clone)]
pub struct Task {
    pub id: u32,
    pub title: String,
    pub description: Option<String>,
    pub priority: Priority,
    pub tags: Vec<String>,
    pub completed: bool,
    pub created_at: Timestamp,
    pub completed_at: Option<Timestamp>,
    pub due_date: Option<Date>,
}

/// Whether some tag of `tags` folds to the same lowercase form as `v`.
pub open spec fn has_tag_folded(tags: Seq<String>, v: Seq<char>) -> bool {
    exists|i: int| 0 <= i < tags.len() && lower_of(#[trigger] tags[i]@) == lower_of(v)
}

/// Whether task `t` passes the filter `f` on day `today`. The first rule
/// that applies decides: `priority:<v>`, `tag:<v>`, `completed`,
/// `incomplete`, `overdue`; any other filter keeps every task.
pub open spec fn passes_filter(t: Task, f: Seq<char>, today: Date) -> bool {
    if has_prefix(f, "priority:"@) {
        priority_name(t.priority) == lower_of(f.subrange(9, f.len() as int))
    } else if has_prefix(f, "tag:"@) {
        has_tag_folded(t.tags@, f.subrange(4, f.len() as int))
    } else if f == "completed"@ {
        t.completed
    } else if f == "incomplete"@ {
        !t.completed
    } else if f == "overdue"@ {
        t.overdue_on(today)
    } else {
        true
    }
}

impl Task {
    /// A completion time is recorded exactly when the task is completed.
    pub open spec fn wf(self) -> bool {
        &&& self.completed <==> self.completed_at is Some
        &&& self.due_date matches Some(d) ==> d.wf()
    }

    /// Whether the task is open and its due date lies strictly before `today`.
    pub open spec fn overdue_on(self, today: Date) -> bool {
        &&& !self.completed
        &&& self.due_date matches Some(d) && d.before(today)
    }

    /// A new, open task created now.
    pub fn new(
        id: u32,
        title: String,
        description: Option<String>,
        priority: Priority,
        tags: Vec<String>,
        due_date: Option<Date>,
    ) -> (r: Task)
        ensures
            r.id == id,
            r.title == title,
            r.description == description,
            r.priority == priority,
            r.tags == tags,
            !r.completed,
            r.completed_at is None,
            r.due_date == due_date,
    {
        Task {
            id,
            title,
            description,
            priority,
            tags,
            completed: false,
            created_at: now(),
            completed_at: None,
            due_date,
        }
    }

    /// Marks the task completed now.
    pub fn complete(&mut self)
        ensures
            final(self).completed_at is Some,
            *final(self) == (Task {
                completed: true,
                completed_at: final(self).completed_at,
                ..*old(self)
            }),
    {
        self.completed = true;
        self.completed_at = Some(now());
    }

    /// Reopens the task.
    pub fn uncomplete(&mut self)
        ensures
            *final(self) == (Task { completed: false, completed_at: None, ..*old(self) }),
    {
        self.completed = false;
        self.completed_at = None;
    }

    pub fn update_title(&mut self, title: String)
        ensures
            *final(self) == (Task { title, ..*old(self) }),
    {
        self.title = title;
    }

    pub fn update_description(&mut self, description: Option<String>)
        ensures
            *final(self) == (Task { description, ..*old(self) }),
    {
        self.description = description;
    }

    pub fn update_priority(&mut self, priority: Priority)
        ensures
            *final(self) == (Task { priority, ..*old(self) }),
    {
        self.priority = priority;
    }

    pub fn update_tags(&mut self, tags: Vec<String>)
        ensures
            *final(self) == (Task { tags, ..*old(self) }),
    {
        self.tags = tags;
    }

    pub fn update_due_date(&mut self, due_date: Option<Date>)
        ensures
            *final(self) == (Task { due_date, ..*old(self) }),
    {
        self.due_date = due_date;
    }

    /// Whether the task is open and was due before `today`.
    pub fn is_overdue(&self, today: &Date) -> (r: bool)
        ensures
            r == self.overdue_on(*today),
    {
        if self.completed {
            return false;
        }
        match &self.due_date {
            Some(d) => d.is_before(today),
            None => false,
        }
    }

    /// Whether the task passes the filter `filter` on day `today`.
    pub fn matches_filter(&self, filter: &str, today: &Date) -> (r: bool)
        ensures
            r == passes_filter(*self, filter@, *today),
    {
        proof {
            reveal_strlit("priority:");
            reveal_strlit("tag:");
        }
        let n = filter.unicode_len();
        if starts_with(filter, "priority:") {
            let wanted = lowercase(filter.substring_char(9, n));
            return str_eq(self.priority.as_str(), wanted.as_str());
        }
        if starts_with(filter, "tag:") {
            let wanted = lowercase(filter.substring_char(4, n));
            let mut i: usize = 0;
            while i < self.tags.len()
                invariant
                    n == filter@.len(),
                    "tag:"@.len() == 4,
                    has_prefix(filter@, "tag:"@),
                    !has_prefix(filter@, "priority:"@),
                    wanted@ == lower_of(filter@.subrange(4, n as int)),
                    i <= self.tags@.len(),
                    forall|k: int|
                        0 <= k < i ==> lower_of(#[trigger] self.tags@[k]@) != wanted@,
                decreases self.tags@.len() - i,
            {
                let folded = lowercase(self.tags[i].as_str());
                if str_eq(folded.as_str(), wanted.as_str()) {
                    assert(lower_of(self.tags@[i as int]@) == wanted@);
                    return true;
                }
                i = i + 1;
            }
            return false;
        }
        if str_eq(filter, "completed") {
            return self.completed;
        }
        if str_eq(filter, "incomplete") {
            return !self.completed;
        }
        if str_eq(filter, "overdue") {
            return self.is_overdue(today);
        }
        true
    }
}

} // verus!
