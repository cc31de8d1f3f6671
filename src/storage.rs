//! Where the collection lives and how new identifiers are allocated.
//!
//! Every command loads the whole collection, changes it in memory and
//! writes the whole collection back. There is no locking: two invocations
//! that run at once can overwrite each other's changes.
use vstd::prelude::*;

use std::path::PathBuf;

use crate::error::TaskError;
use crate::task::Task;

verus! {

#[verifier::external_type_specification]
#[verifier::external_body]
pub struct ExPathBuf(PathBuf);

/// The name of the task file inside the user's home directory.
pub const DATA_FILE_NAME: &'static str = ".task-cli-data.json";

/// The location of the task file.
pub struct Storage {
    file_path: PathBuf,
}

/// The largest identifier in `s`, or 0 when `s` is empty.
pub open spec fn max_id(s: Seq<Task>) -> int
    decreases s.len(),
{
    if s.len() == 0 {
        0
    } else {
        let m = max_id(s.drop_last());
        if s.last().id > m {
            s.last().id as int
        } else {
            m
        }
    }
}

/// No two tasks of `s` share an identifier.
pub open spec fn ids_unique(s: Seq<Task>) -> bool {
    forall|i: int, j: int| 0 <= i < j < s.len() ==> s[i].id != s[j].id
}

/// The identifier that the next task of `s` receives, if one is left.
pub open spec fn next_id_of(s: Seq<Task>) -> Option<u32> {
    if max_id(s) < u32::MAX {
        Some((max_id(s) + 1) as u32)
    } else {
        None
    }
}

/// Every identifier of `s` is at most `max_id(s)`, which is 0 or one of them.
pub proof fn lemma_max_id_bounds(s: Seq<Task>)
    ensures
        forall|i: int| 0 <= i < s.len() ==> s[i].id <= max_id(s),
        0 <= max_id(s) <= u32::MAX,
    decreases s.len(),
{
    if s.len() > 0 {
        lemma_max_id_bounds(s.drop_last());
        assert forall|i: int| 0 <= i < s.len() implies s[i].id <= max_id(s) by {
            if i < s.len() - 1 {
                assert(s[i] == s.drop_last()[i]);
            }
        }
    }
}

/// Relies on `dirs::home_dir`: the user's home directory, when the platform
/// can tell it. Nothing is known of which directory it is.
#[verifier::external_body]
fn home_dir() -> (r: Option<PathBuf>) {
    dirs::home_dir()
}

/// Relies on `std::path::Path::join`: the path of a file in a directory.
#[verifier::external_body]
fn join_file(dir: PathBuf, name: &str) -> (r: PathBuf) {
    dir.join(name)
}

impl Storage {
    /// The task file in the user's home directory.
    pub fn new() -> (r: Result<Storage, TaskError>)
        ensures
            r is Err ==> r == Err::<Storage, TaskError>(TaskError::HomeDirectoryUnavailable),
    {
        Storage::in_home(home_dir())
    }

    /// The task file inside the home directory `home`; without one there is
    /// nowhere to keep tasks.
    pub fn in_home(home: Option<PathBuf>) -> (r: Result<Storage, TaskError>)
        ensures
            home is None <==> r is Err,
            r is Err ==> r == Err::<Storage, TaskError>(TaskError::HomeDirectoryUnavailable),
    {
        match home {
            Some(dir) => Ok(Storage { file_path: join_file(dir, DATA_FILE_NAME) }),
            None => Err(TaskError::HomeDirectoryUnavailable),
        }
    }

    /// The path of the task file.
    pub fn file_path(&self) -> &PathBuf {
        &self.file_path
    }

    /// One more than the largest identifier in `tasks`, or 1 for an empty
    /// collection; `None` when the largest identifier is `u32::MAX`.
    pub fn get_next_id(tasks: &Vec<Task>) -> (r: Option<u32>)
        ensures
            r == next_id_of(tasks@),
            r matches Some(n) ==> forall|i: int| 0 <= i < tasks@.len() ==> tasks@[i].id < n,
    {
        let mut m: u32 = 0;
        let mut i: usize = 0;
        while i < tasks.len()
            invariant
                i <= tasks@.len(),
                m == max_id(tasks@.subrange(0, i as int)),
            decreases tasks@.len() - i,
        {
            proof {
                assert(tasks@.subrange(0, i + 1).drop_last() =~= tasks@.subrange(0, i as int));
            }
            if tasks[i].id > m {
                m = tasks[i].id;
            }
            i = i + 1;
        }
        proof {
            assert(tasks@.subrange(0, i as int) =~= tasks@);
            lemma_max_id_bounds(tasks@);
        }
        if m < u32::MAX {
            Some(m + 1)
        } else {
            None
        }
    }
}

} // verus!
