//! Detekt (static analysis) tasks.
use vstd::prelude::*;
use crate::text::{chars_of, lower, lower_chars, lemma_lower_idempotent, has_prefix, starts_with};

verus! {

broadcast use vstd::string::group_string_axioms;

/// Whether `name` names a detekt task, ignoring ASCII case.
pub open spec fn detekt_matches(name: Seq<char>) -> bool {
    starts_with(lower(name), "detekt"@)
}

/// Matching ignores ASCII case: a name matches exactly when its lowercase
/// form does.
pub proof fn law_matches_task_ignores_case(name: Seq<char>)
    ensures
        detekt_matches(lower(name)) == detekt_matches(name),
{
    lemma_lower_idempotent(name);
}

/// A name is a detekt task exactly when its lowercase form starts with
/// `detekt`.
pub proof fn law_detekt_task_names(name: Seq<char>)
    ensures
        detekt_matches(name) <==> starts_with(lower(name), "detekt"@),
{
}

/// Whether `task_name` is a detekt task (`detekt`, `detektMain`, ...),
/// ignoring ASCII case.
pub fn matches_task(task_name: &str) -> (r: bool)
    ensures
        r == detekt_matches(task_name@),
{
    has_prefix(&lower_chars(&chars_of(task_name)), &chars_of("detekt"))
}

/// Detekt output filtering: the output passes through unchanged.
pub fn filter_detekt(input: &str) -> (r: String)
    ensures
        r@ == input@,
{
    input.to_string()
}

} // verus!
