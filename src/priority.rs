//! Task priority: a closed, totally ordered set of three levels.
use vstd::prelude::*;

use crate::text::{folds_to, lower_of, lowercase, str_eq};

verus! {

/// How urgent a task is, ranked `Low < Medium < High`.
#[derive(Debug, Clone, Copy, PartialEq, Eq, Structural)]
pub enum Priority {
    Low,
    Medium,
    High,
}

/// The canonical lowercase name of a priority.
pub open spec fn priority_name(p: Priority) -> Seq<char> {
    match p {
        Priority::Low => "low"@,
        Priority::Medium => "medium"@,
        Priority::High => "high"@,
    }
}

/// The priority whose canonical name is exactly `s`, if any.
pub open spec fn priority_named(s: Seq<char>) -> Option<Priority> {
    if s == "low"@ {
        Some(Priority::Low)
    } else if s == "medium"@ {
        Some(Priority::Medium)
    } else if s == "high"@ {
        Some(Priority::High)
    } else {
        None
    }
}

/// The rank used for ordering: `High` = 3, `Medium` = 2, `Low` = 1.
pub open spec fn priority_rank(p: Priority) -> u8 {
    match p {
        Priority::Low => 1,
        Priority::Medium => 2,
        Priority::High => 3,
    }
}

/// What parsing a user-supplied priority string yields: its lowercase form
/// looked up among the canonical names.
pub open spec fn parsed_priority(s: Seq<char>) -> Option<Priority> {
    priority_named(lower_of(s))
}

/// The ranks order the priorities `High > Medium > Low`, and only equal
/// priorities share a rank.
pub proof fn lemma_rank_order(a: Priority, b: Priority)
    ensures
        priority_rank(Priority::High) > priority_rank(Priority::Medium),
        priority_rank(Priority::Medium) > priority_rank(Priority::Low),
        priority_rank(a) == priority_rank(b) <==> a == b,
{
}

impl Priority {
    /// Parses a priority, ignoring case.
    pub fn from_str(s: &str) -> (r: Option<Priority>)
        ensures
            r == parsed_priority(s@),
            forall|p: Priority| #[trigger] folds_to(s@, priority_name(p)) ==> r == Some(p),
    {
        let lowered = lowercase(s);
        proof {
            reveal_strlit("low");
            reveal_strlit("medium");
            reveal_strlit("high");
            assert forall|p: Priority| #[trigger] folds_to(s@, priority_name(p)) implies lowered@
                == priority_name(p) by {
                let n = priority_name(p);
                assert forall|i: int| 0 <= i < n.len() implies lowered@[i] == n[i] by {
                    let code = lowered@[i] as u32;
                    assert(code == n[i] as u32);
                    vstd::utf8::char_u32_cast(lowered@[i], code);
                    vstd::utf8::char_u32_cast(n[i], code);
                }
                assert(lowered@ =~= n);
            }
        }
        Priority::from_lowercase(lowered.as_str())
    }

    /// Looks up a priority by its canonical lowercase name.
    pub fn from_lowercase(s: &str) -> (r: Option<Priority>)
        ensures
            r == priority_named(s@),
    {
        if str_eq(s, "low") {
            Some(Priority::Low)
        } else if str_eq(s, "medium") {
            Some(Priority::Medium)
        } else if str_eq(s, "high") {
            Some(Priority::High)
        } else {
            None
        }
    }

    /// The canonical lowercase name.
    pub fn as_str(&self) -> (r: &'static str)
        ensures
            r@ == priority_name(*self),
    {
        match self {
            Priority::Low => "low",
            Priority::Medium => "medium",
            Priority::High => "high",
        }
    }

    /// The rank used for ordering.
    pub fn priority_value(&self) -> (r: u8)
        ensures
            r == priority_rank(*self),
    {
        match self {
            Priority::Low => 1,
            Priority::Medium => 2,
            Priority::High => 3,
        }
    }
}

} // verus!
