//! `list`: lists the installed versions, marking the active one.

use vstd::prelude::*;

verus! {

/// List all installed versions
#[derive(Debug)]
pub struct ListArgs {}

/// The name compared with the installed versions: the active version, or
/// the empty name when none is active.
pub open spec fn current_name(current: Option<String>) -> Seq<char> {
    match current {
        Some(c) => c@,
        None => Seq::empty(),
    }
}

/// Marks which installed versions are the currently active one.
pub fn current_marks(versions: &Vec<String>, current: &Option<String>) -> (marks: Vec<bool>)
    ensures
        marks@.len() == versions@.len(),
        forall|j: int|
            0 <= j < versions@.len() ==> #[trigger] marks@[j] == (versions@[j]@ == current_name(
                *current,
            )),
{
    let empty = String::new();
    let current_version: &String = match current {
        Some(c) => c,
        None => &empty,
    };
    let n = versions.len();
    let mut marks: Vec<bool> = Vec::new();
    let mut i: usize = 0;
    while i < n
        invariant
            n == versions.len(),
            0 <= i <= n,
            current_version@ == current_name(*current),
            marks@.len() == i,
            forall|j: int| 0 <= j < i ==> #[trigger] marks@[j] == (versions@[j]@ == current_name(*current)),
        decreases n - i,
    {
        marks.push(versions[i] == *current_version);
        i = i + 1;
    }
    marks
}

} // verus!
