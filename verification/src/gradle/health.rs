//! Project health tasks.
use vstd::prelude::*;
use crate::text::{chars_of, has_prefix, starts_with};

verus! {

broadcast use vstd::string::group_string_axioms;

/// Whether `task_name` is a project health task (`projectHealth...`).
pub fn matches_task(task_name: &str) -> (r: bool)
    ensures
        r == starts_with(task_name@, "projectHealth"@),
{
    has_prefix(&chars_of(task_name), &chars_of("projectHealth"))
}

/// Project health output filtering: the output passes through unchanged.
pub fn filter_health(input: &str) -> (r: String)
    ensures
        r@ == input@,
{
    input.to_string()
}

} // verus!
