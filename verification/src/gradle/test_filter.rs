//! Unit, integration and component test tasks.
use vstd::prelude::*;
use crate::text::{chars_of, same_chars};

verus! {

broadcast use vstd::string::group_string_axioms;

/// Whether `task_name` is an integration or component test task.
pub fn matches_integration_task(task_name: &str) -> (r: bool)
    ensures
        r == (task_name@ == "integrationTest"@ || task_name@ == "componentTest"@),
{
    let t = chars_of(task_name);
    same_chars(&t, &chars_of("integrationTest")) || same_chars(&t, &chars_of("componentTest"))
}

/// Whether `task_name` is the unit test task `test` (exact match).
pub fn matches_test_task(task_name: &str) -> (r: bool)
    ensures
        r == (task_name@ == "test"@),
{
    same_chars(&chars_of(task_name), &chars_of("test"))
}

/// Test output filtering: the output passes through unchanged, for unit and
/// integration tests alike.
pub fn filter_test(input: &str, _is_integration: bool) -> (r: String)
    ensures
        r@ == input@,
{
    input.to_string()
}

} // verus!
