//! Dependency listing tasks.
use vstd::prelude::*;
use crate::text::{chars_of, same_chars};

verus! {

broadcast use vstd::string::group_string_axioms;

/// Whether `task_name` is the dependency listing task `dependencies`.
pub fn matches_task(task_name: &str) -> (r: bool)
    ensures
        r == (task_name@ == "dependencies"@),
{
    same_chars(&chars_of(task_name), &chars_of("dependencies"))
}

/// Dependency output filtering: the output passes through unchanged.
pub fn filter_deps(input: &str) -> (r: String)
    ensures
        r@ == input@,
{
    input.to_string()
}

} // verus!
