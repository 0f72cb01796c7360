//! Compile tasks.
use vstd::prelude::*;
use crate::text::{chars_of, lower, lower_chars, lemma_lower_idempotent, has_prefix, has_suffix, starts_with, ends_with};

verus! {

broadcast use vstd::string::group_string_axioms;

/// A compile task name, given in lowercase: `compile...kotlin`,
/// `compile...java` or `...classes`.
pub open spec fn is_compile_name(t: Seq<char>) -> bool {
    (starts_with(t, "compile"@) && (ends_with(t, "kotlin"@) || ends_with(t, "java"@))) || ends_with(
        t,
        "classes"@,
    )
}

/// Whether `name` names a compile task, ignoring ASCII case.
pub open spec fn compile_matches(name: Seq<char>) -> bool {
    is_compile_name(lower(name))
}

/// Matching ignores ASCII case: a name matches exactly when its lowercase
/// form does.
pub proof fn law_matches_task_ignores_case(name: Seq<char>)
    ensures
        compile_matches(lower(name)) == compile_matches(name),
{
    lemma_lower_idempotent(name);
}

/// Which names are compile tasks, by their lowercase form: every name
/// ending in `classes` (`classes` itself included), every name starting with
/// `compile` and ending in `kotlin` or `java`, and no other name.
pub proof fn law_compile_task_names(name: Seq<char>)
    ensures
        ends_with(lower(name), "classes"@) ==> compile_matches(name),
        starts_with(lower(name), "compile"@) && (ends_with(lower(name), "kotlin"@) || ends_with(
            lower(name),
            "java"@,
        )) ==> compile_matches(name),
        compile_matches(name) ==> ends_with(lower(name), "classes"@) || (starts_with(
            lower(name),
            "compile"@,
        ) && (ends_with(lower(name), "kotlin"@) || ends_with(lower(name), "java"@))),
{
}

/// Whether `task_name` is a compile task of any source set
/// (`compileKotlin`, `compileTestKotlin`, `compileIntegrationTestJava`,
/// `testClasses`, ...), ignoring ASCII case.
pub fn matches_task(task_name: &str) -> (r: bool)
    ensures
        r == compile_matches(task_name@),
{
    let t = lower_chars(&chars_of(task_name));
    (has_prefix(&t, &chars_of("compile")) && (has_suffix(&t, &chars_of("kotlin")) || has_suffix(
        &t,
        &chars_of("java"),
    ))) || has_suffix(&t, &chars_of("classes"))
}

/// Compile output filtering: the output passes through unchanged.
pub fn filter_compile(input: &str) -> (r: String)
    ensures
        r@ == input@,
{
    input.to_string()
}

} // verus!
