//! Protocol buffer generation tasks.
use vstd::prelude::*;
use crate::text::{chars_of, lower, lower_chars, lemma_lower_idempotent, has_substring, same_chars, contains};

verus! {

broadcast use vstd::string::group_string_axioms;

/// A proto task name, given in lowercase.
pub open spec fn is_proto_name(t: Seq<char>) -> bool {
    t == "buildprotos"@ || t == "generateprotos"@ || contains(t, "proto"@)
}

/// Whether `name` names a proto task, ignoring ASCII case.
pub open spec fn proto_matches(name: Seq<char>) -> bool {
    is_proto_name(lower(name))
}

/// Matching ignores ASCII case: a name matches exactly when its lowercase
/// form does.
pub proof fn law_matches_task_ignores_case(name: Seq<char>)
    ensures
        proto_matches(lower(name)) == proto_matches(name),
{
    lemma_lower_idempotent(name);
}

/// A name is a proto task exactly when its lowercase form holds `proto`
/// anywhere.
pub proof fn law_proto_task_names(name: Seq<char>)
    ensures
        proto_matches(name) <==> contains(lower(name), "proto"@),
{
    reveal_strlit("buildprotos");
    reveal_strlit("generateprotos");
    reveal_strlit("proto");
    assert("buildprotos"@.subrange(5, 10) =~= "proto"@);
    assert(crate::text::occurs_at("buildprotos"@, "proto"@, 5));
    assert("generateprotos"@.subrange(8, 13) =~= "proto"@);
    assert(crate::text::occurs_at("generateprotos"@, "proto"@, 8));
}

/// Whether `task_name` is a proto generation task (`buildProtos`,
/// `generateProtos`, or any name containing `proto`), ignoring ASCII case.
pub fn matches_task(task_name: &str) -> (r: bool)
    ensures
        r == proto_matches(task_name@),
{
    let t = lower_chars(&chars_of(task_name));
    same_chars(&t, &chars_of("buildprotos")) || same_chars(&t, &chars_of("generateprotos"))
        || has_substring(&t, &chars_of("proto"))
}

/// Proto output filtering: the output passes through unchanged.
pub fn filter_proto(input: &str) -> (r: String)
    ensures
        r@ == input@,
{
    input.to_string()
}

} // verus!
