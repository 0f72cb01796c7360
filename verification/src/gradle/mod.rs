//! Gradle output handling: task detection from the command line, the
//! `--console plain` flag, choice of the gradle executable and routing of
//! output to the filter of its task type.
use vstd::prelude::*;
use crate::gradle::global::{global_filter_or_input, extra_set_patterns};
use crate::text::{chars_of, has_prefix, has_suffix, has_substring, same_chars, strs, starts_with, ends_with, contains, sub_vec};

pub mod compile;
pub mod deps;
pub mod detekt;
pub mod global;
pub mod health;
pub mod line_filter;
pub mod proto;
pub mod test_filter;

verus! {

broadcast use vstd::string::group_string_axioms;

/// The kind of gradle task that a command line runs.
#[derive(Debug, Clone, Copy, PartialEq, Eq, Structural)]
pub enum TaskType {
    Compile,
    Test,
    IntegrationTest,
    Detekt,
    Health,
    Proto,
    Deps,
    Generic,
}

/// Where the task name of an argument starts: after its last `:`, or at 0.
pub open spec fn segment_start(s: Seq<char>) -> int
    decreases s.len(),
{
    if s.len() == 0 {
        0
    } else if s.last() == ':' {
        s.len() as int
    } else {
        segment_start(s.drop_last())
    }
}

/// The task name of an argument: the text after its last `:`
/// (`rsplit(':').next()`).
pub open spec fn task_name(arg: Seq<char>) -> Seq<char> {
    arg.subrange(segment_start(arg), arg.len() as int)
}

/// The task type that a task name names, if any.
pub open spec fn name_task_type(name: Seq<char>) -> Option<TaskType> {
    if name == "dependencies"@ {
        Some(TaskType::Deps)
    } else if name == "integrationTest"@ || name == "componentTest"@ {
        Some(TaskType::IntegrationTest)
    } else if name == "test"@ {
        Some(TaskType::Test)
    } else if starts_with(name, "detekt"@) {
        Some(TaskType::Detekt)
    } else if starts_with(name, "projectHealth"@) {
        Some(TaskType::Health)
    } else if name == "compileKotlin"@ || name == "compileTestKotlin"@ || name == "compileJava"@
        || name == "compileTestJava"@ || ends_with(name, "Classes"@) {
        Some(TaskType::Compile)
    } else if name == "buildProtos"@ || name == "generateProtos"@ || contains(name, "Proto"@) {
        Some(TaskType::Proto)
    } else {
        None
    }
}

/// An argument that is a flag: it starts with `-`.
pub open spec fn is_flag(arg: Seq<char>) -> bool {
    arg.len() > 0 && arg[0] == '-'
}

/// The task type that one argument names; flags name none.
pub open spec fn arg_task_type(arg: Seq<char>) -> Option<TaskType> {
    if is_flag(arg) {
        None
    } else {
        name_task_type(task_name(arg))
    }
}

/// The distinct task types that `args` name, in order of first appearance.
pub open spec fn detected_types(args: Seq<Seq<char>>) -> Seq<TaskType>
    decreases args.len(),
{
    if args.len() == 0 {
        seq![]
    } else {
        let d = detected_types(args.drop_last());
        match arg_task_type(args.last()) {
            Some(t) => if d.contains(t) {
                d
            } else {
                d.push(t)
            },
            None => d,
        }
    }
}

/// The task type of a command line: the one type its arguments name, or
/// `Generic` when they name none or several.
pub open spec fn task_type_of(args: Seq<Seq<char>>) -> TaskType {
    let d = detected_types(args);
    if d.len() == 1 {
        d[0]
    } else {
        TaskType::Generic
    }
}

proof fn lemma_segment_start_take(s: Seq<char>, j: int)
    requires
        0 <= j <= s.len(),
        forall|k: int| j <= k < s.len() ==> #[trigger] s[k] != ':',
    ensures
        segment_start(s) == segment_start(s.take(j)),
        0 <= segment_start(s) <= s.len(),
    decreases s.len() - j,
{
    if j < s.len() {
        lemma_segment_start_take(s.drop_last(), j);
        assert(s.drop_last().take(j) =~= s.take(j));
    } else {
        assert(s.take(j) =~= s);
        lemma_segment_start_bounds(s);
    }
}

proof fn lemma_segment_start_bounds(s: Seq<char>)
    ensures
        0 <= segment_start(s) <= s.len(),
    decreases s.len(),
{
    if s.len() > 0 && s.last() != ':' {
        lemma_segment_start_bounds(s.drop_last());
    }
}

/// The task name of `arg`.
fn task_name_exec(arg: &Vec<char>) -> (r: Vec<char>)
    ensures
        r@ == task_name(arg@),
{
    let mut j = arg.len();
    while j > 0 && arg[j - 1] != ':'
        invariant
            j <= arg.len(),
            forall|k: int| j <= k < arg.len() ==> #[trigger] arg@[k] != ':',
        decreases j,
    {
        j = j - 1;
    }
    proof {
        lemma_segment_start_take(arg@, j as int);
        if j > 0 {
            assert(arg@.take(j as int).last() == ':');
        }
    }
    sub_vec(arg, j, arg.len())
}

/// `name` is exactly the literal `lit`.
fn is_literal(name: &Vec<char>, lit: &str) -> (r: bool)
    ensures
        r == (name@ == lit@),
{
    let l = chars_of(lit);
    same_chars(name, &l)
}

/// The task type that a task name names, if any.
fn name_task_type_exec(name: &Vec<char>) -> (r: Option<TaskType>)
    ensures
        r == name_task_type(name@),
{
    if is_literal(name, "dependencies") {
        Some(TaskType::Deps)
    } else if is_literal(name, "integrationTest") || is_literal(name, "componentTest") {
        Some(TaskType::IntegrationTest)
    } else if is_literal(name, "test") {
        Some(TaskType::Test)
    } else if has_prefix(name, &chars_of("detekt")) {
        Some(TaskType::Detekt)
    } else if has_prefix(name, &chars_of("projectHealth")) {
        Some(TaskType::Health)
    } else if is_literal(name, "compileKotlin") || is_literal(name, "compileTestKotlin")
        || is_literal(name, "compileJava") || is_literal(name, "compileTestJava") || has_suffix(
        name,
        &chars_of("Classes"),
    ) {
        Some(TaskType::Compile)
    } else if is_literal(name, "buildProtos") || is_literal(name, "generateProtos")
        || has_substring(name, &chars_of("Proto")) {
        Some(TaskType::Proto)
    } else {
        None
    }
}

/// Detects the task type from gradle arguments: flags are skipped, each
/// other argument's task name (after its last `:`) is classified, and the
/// result is the one type found, or `Generic` when none or several
/// distinct types are found (a batch run).
pub fn detect_task_type(args: &[String]) -> (r: TaskType)
    ensures
        r == task_type_of(strs(args@)),
{
    let ghost all = strs(args@);
    let mut detected: Vec<TaskType> = Vec::new();
    let mut i: usize = 0;
    while i < args.len()
        invariant
            i <= args.len(),
            all == strs(args@),
            detected@ == detected_types(all.take(i as int)),
        decreases args.len() - i,
    {
        assert(all.take(i + 1).drop_last() =~= all.take(i as int));
        let arg = chars_of(args[i].as_str());
        assert(all.take(i + 1).last() == arg@);
        if !(arg.len() > 0 && arg[0] == '-') {
            let name = task_name_exec(&arg);
            match name_task_type_exec(&name) {
                Some(t) => {
                    let mut seen = false;
                    let mut k: usize = 0;
                    while k < detected.len()
                        invariant
                            k <= detected.len(),
                            seen == (exists|m: int| 0 <= m < k && detected@[m] == t),
                        decreases detected.len() - k,
                    {
                        if detected[k] == t {
                            seen = true;
                        }
                        k = k + 1;
                    }
                    if !seen {
                        detected.push(t);
                    }
                },
                None => {},
            }
        }
        i = i + 1;
    }
    assert(all.take(args.len() as int) =~= all);
    if detected.len() == 1 {
        detected[0]
    } else {
        TaskType::Generic
    }
}


/// Some argument of `args` names the task type `t`.
pub open spec fn names_type(args: Seq<Seq<char>>, t: TaskType) -> bool {
    exists|i: int| 0 <= i < args.len() && arg_task_type(#[trigger] args[i]) == Some(t)
}

/// No argument of `args` names a task type other than `t`.
pub open spec fn names_only(args: Seq<Seq<char>>, t: TaskType) -> bool {
    forall|i: int|
        0 <= i < args.len() ==> arg_task_type(#[trigger] args[i]) is None || arg_task_type(args[i])
            == Some(t)
}

proof fn lemma_detected_types(args: Seq<Seq<char>>)
    ensures
        forall|i: int, j: int|
            0 <= i < j < detected_types(args).len() ==> detected_types(args)[i]
                != detected_types(args)[j],
        forall|t: TaskType| detected_types(args).contains(t) <==> names_type(args, t),
        forall|i: int|
            0 <= i < detected_types(args).len() ==> detected_types(args)[i] != TaskType::Generic,
    decreases args.len(),
{
    if args.len() > 0 {
        let prev = args.drop_last();
        lemma_detected_types(prev);
        let d = detected_types(args);
        let dp = detected_types(prev);
        assert forall|t: TaskType| d.contains(t) <==> names_type(args, t) by {
            if names_type(args, t) {
                let i = choose|i: int| 0 <= i < args.len() && arg_task_type(#[trigger] args[i]) == Some(t);
                if i < args.len() - 1 {
                    assert(prev[i] == args[i]);
                    assert(arg_task_type(prev[i]) == Some(t));
                    assert(names_type(prev, t));
                    assert(dp.contains(t));
                    let k = choose|k: int| 0 <= k < dp.len() && dp[k] == t;
                    assert(d[k] == t);
                } else {
                    if !dp.contains(t) {
                        assert(d[d.len() - 1] == t);
                    }
                }
            }
            if d.contains(t) {
                let k = choose|k: int| 0 <= k < d.len() && d[k] == t;
                if k < dp.len() {
                    assert(dp[k] == t);
                    assert(dp.contains(t));
                    assert(names_type(prev, t));
                    let i = choose|i: int| 0 <= i < prev.len() && arg_task_type(#[trigger] prev[i]) == Some(t);
                    assert(args[i] == prev[i]);
                } else {
                    assert(arg_task_type(args[args.len() - 1]) == Some(t));
                }
            }
        }
    }
}

/// The task type is `t` (other than `Generic`) exactly when the arguments
/// name `t` and no other task type; so it is `Generic` when they name none,
/// or two distinct types.
pub proof fn law_detect_unique_type(args: Seq<Seq<char>>, t: TaskType)
    ensures
        (task_type_of(args) == t && t != TaskType::Generic) <==> (names_type(args, t)
            && names_only(args, t)),
{
    lemma_detected_types(args);
    let d = detected_types(args);
    if names_type(args, t) && names_only(args, t) {
        assert(d.contains(t));
        assert forall|k: int| 0 <= k < d.len() implies d[k] == t by {
            assert(d.contains(d[k]));
            assert(names_type(args, d[k]));
            let i = choose|i: int| 0 <= i < args.len() && arg_task_type(#[trigger] args[i]) == Some(d[k]);
            assert(arg_task_type(args[i]) is None || arg_task_type(args[i]) == Some(t));
        }
        if d.len() >= 2 {
            assert(d[0] == t && d[1] == t);
        }
        let k = choose|k: int| 0 <= k < d.len() && d[k] == t;
    }
    if task_type_of(args) == t && t != TaskType::Generic {
        assert(d.len() == 1);
        assert(d.contains(d[0]));
        assert forall|i: int| 0 <= i < args.len() implies arg_task_type(#[trigger] args[i]) is None
            || arg_task_type(args[i]) == Some(t) by {
            if let Some(u) = arg_task_type(args[i]) {
                assert(names_type(args, u));
                assert(d.contains(u));
            }
        }
    }
}

proof fn lemma_names_concat(a: Seq<Seq<char>>, b: Seq<Seq<char>>, t: TaskType)
    ensures
        names_type(a + b, t) == (names_type(a, t) || names_type(b, t)),
        names_only(a + b, t) == (names_only(a, t) && names_only(b, t)),
{
    let ab = a + b;
    if names_type(ab, t) {
        let i = choose|i: int| 0 <= i < ab.len() && arg_task_type(#[trigger] ab[i]) == Some(t);
        if i < a.len() {
            assert(ab[i] == a[i]);
        } else {
            assert(ab[i] == b[i - a.len()]);
        }
    }
    if names_type(a, t) {
        let i = choose|i: int| 0 <= i < a.len() && arg_task_type(#[trigger] a[i]) == Some(t);
        assert(ab[i] == a[i]);
    }
    if names_type(b, t) {
        let i = choose|i: int| 0 <= i < b.len() && arg_task_type(#[trigger] b[i]) == Some(t);
        assert(ab[i + a.len()] == b[i]);
    }
    if names_only(ab, t) {
        assert forall|i: int| 0 <= i < a.len() implies arg_task_type(#[trigger] a[i]) is None
            || arg_task_type(a[i]) == Some(t) by {
            assert(ab[i] == a[i]);
        }
        assert forall|i: int| 0 <= i < b.len() implies arg_task_type(#[trigger] b[i]) is None
            || arg_task_type(b[i]) == Some(t) by {
            assert(ab[i + a.len()] == b[i]);
        }
    }
    if names_only(a, t) && names_only(b, t) {
        assert forall|i: int| 0 <= i < ab.len() implies arg_task_type(#[trigger] ab[i]) is None
            || arg_task_type(ab[i]) == Some(t) by {
            if i < a.len() {
                assert(ab[i] == a[i]);
            } else {
                assert(ab[i] == b[i - a.len()]);
            }
        }
    }
}

/// The task type does not depend on the order of the two parts of a
/// command line.
pub proof fn law_detect_order_independent(a: Seq<Seq<char>>, b: Seq<Seq<char>>)
    ensures
        task_type_of(a + b) == task_type_of(b + a),
{
    let x = task_type_of(a + b);
    let y = task_type_of(b + a);
    lemma_names_concat(a, b, x);
    lemma_names_concat(b, a, x);
    lemma_names_concat(a, b, y);
    lemma_names_concat(b, a, y);
    law_detect_unique_type(a + b, x);
    law_detect_unique_type(b + a, x);
    law_detect_unique_type(a + b, y);
    law_detect_unique_type(b + a, y);
}

/// Flags (arguments starting with `-`) do not change the task type,
/// wherever they stand.
pub proof fn law_detect_ignores_flags(a: Seq<Seq<char>>, f: Seq<char>, b: Seq<Seq<char>>)
    requires
        f.len() > 0,
        f[0] == '-',
    ensures
        task_type_of(a + seq![f] + b) == task_type_of(a + b),
{
    let x = task_type_of(a + seq![f] + b);
    let y = task_type_of(a + b);
    let fs = seq![f];
    assert(!names_type(fs, x) && names_only(fs, x));
    assert(!names_type(fs, y) && names_only(fs, y));
    lemma_names_concat(a, fs, x);
    lemma_names_concat(a + fs, b, x);
    lemma_names_concat(a, b, x);
    lemma_names_concat(a, fs, y);
    lemma_names_concat(a + fs, b, y);
    lemma_names_concat(a, b, y);
    law_detect_unique_type(a + fs + b, x);
    law_detect_unique_type(a + b, x);
    law_detect_unique_type(a + fs + b, y);
    law_detect_unique_type(a + b, y);
}


/// An argument that sets the console mode: `--console` or `--console=...`.
pub open spec fn is_console_arg(a: Seq<char>) -> bool {
    a == "--console"@ || starts_with(a, "--console="@)
}

/// Some argument of `args` sets the console mode.
pub open spec fn has_console_arg(args: Seq<Seq<char>>) -> bool {
    exists|i: int| 0 <= i < args.len() && is_console_arg(#[trigger] args[i])
}

/// `args` with `--console plain` appended unless they set the console mode.
pub open spec fn with_console_plain(args: Seq<Seq<char>>) -> Seq<Seq<char>> {
    if has_console_arg(args) {
        args
    } else {
        args + seq!["--console"@, "plain"@]
    }
}

/// Appends `--console plain` to the arguments unless they already set the
/// console mode (`--console` or `--console=...`).
pub fn ensure_console_plain(args: &[String]) -> (r: Vec<String>)
    ensures
        strs(r@) == with_console_plain(strs(args@)),
{
    let ghost all = strs(args@);
    let mut r: Vec<String> = Vec::new();
    let mut has_console = false;
    let console = chars_of("--console");
    let console_eq = chars_of("--console=");
    let mut i: usize = 0;
    while i < args.len()
        invariant
            i <= args.len(),
            all == strs(args@),
            console@ == "--console"@,
            console_eq@ == "--console="@,
            strs(r@) == all.take(i as int),
            has_console == (exists|k: int| 0 <= k < i && is_console_arg(#[trigger] all[k])),
        decreases args.len() - i,
    {
        let a = chars_of(args[i].as_str());
        if same_chars(&a, &console) || has_prefix(&a, &console_eq) {
            has_console = true;
        }
        let ghost before = strs(r@);
        r.push(args[i].clone());
        assert(strs(r@) =~= before.push(all[i as int]));
        assert(all.take(i + 1) =~= all.take(i as int).push(all[i as int]));
        i = i + 1;
    }
    assert(all.take(args.len() as int) =~= all);
    if !has_console {
        let ghost before = strs(r@);
        r.push("--console".to_string());
        r.push("plain".to_string());
        assert(strs(r@) =~= before + seq!["--console"@, "plain"@]);
    }
    r
}

/// Appending `--console plain` twice changes nothing more than once: the
/// result always sets the console mode.
pub proof fn law_console_plain_idempotent(args: Seq<Seq<char>>)
    ensures
        has_console_arg(with_console_plain(args)),
        with_console_plain(with_console_plain(args)) == with_console_plain(args),
{
    let r = with_console_plain(args);
    if !has_console_arg(args) {
        assert(r[args.len() as int] == "--console"@);
        assert(is_console_arg(r[args.len() as int]));
    }
}

/// The console mode is left alone when some argument is `--console` or
/// starts with `--console=` (whatever its value); otherwise exactly
/// `--console` and `plain` are appended, in that order, after the arguments.
pub proof fn law_console_plain_result(args: Seq<Seq<char>>)
    ensures
        (exists|i: int|
            0 <= i < args.len() && (#[trigger] args[i] == "--console"@ || starts_with(
                args[i],
                "--console="@,
            ))) ==> with_console_plain(args) == args,
        (forall|i: int|
            0 <= i < args.len() ==> #[trigger] args[i] != "--console"@ && !starts_with(
                args[i],
                "--console="@,
            )) ==> with_console_plain(args) == args + seq!["--console"@, "plain"@],
{
    if exists|i: int|
        0 <= i < args.len() && (#[trigger] args[i] == "--console"@ || starts_with(
            args[i],
            "--console="@,
        )) {
        let i = choose|i: int|
            0 <= i < args.len() && (#[trigger] args[i] == "--console"@ || starts_with(
                args[i],
                "--console="@,
            ));
        assert(is_console_arg(args[i]));
    }
}

/// The argument `prefix:name` (the prefix not starting with `-`, the name
/// holding no `:`) alone on a command line names the task type of `name`.
proof fn lemma_single_task_arg(p: Seq<char>, n: Seq<char>)
    requires
        p.len() == 0 || p[0] != '-',
        forall|i: int| 0 <= i < n.len() ==> n[i] != ':',
    ensures
        task_type_of(seq![p + seq![':'] + n]) == (match name_task_type(n) {
            Some(t) => t,
            None => TaskType::Generic,
        }),
{
    let a = p + seq![':'] + n;
    let j: int = p.len() as int + 1;
    assert forall|k: int| j <= k < a.len() implies #[trigger] a[k] != ':' by {
        assert(a[k] == n[k - j]);
    }
    lemma_segment_start_take(a, j);
    assert(a.take(j).last() == ':');
    assert(a.take(j).len() == j);
    assert(segment_start(a) == j);
    assert(task_name(a) =~= n);
    assert(!is_flag(a)) by {
        if p.len() > 0 {
            assert(a[0] == p[0]);
        } else {
            assert(a[0] == ':');
        }
    }
    let args = seq![a];
    assert(args.drop_last() =~= Seq::<Seq<char>>::empty());
    assert(args.last() == a);
    let e: Seq<TaskType> = seq![];
    assert(detected_types(args.drop_last()) == e);
    assert(!e.contains(TaskType::Compile));
}

proof fn lemma_no_first_char_no_contains(s: Seq<char>, q: Seq<char>)
    requires
        q.len() > 0,
        forall|k: int| 0 <= k < s.len() ==> s[k] != q[0],
    ensures
        !contains(s, q),
{
    if contains(s, q) {
        let i = choose|i: int| crate::text::occurs_at(s, q, i);
        assert(s.subrange(i, i + q.len())[0] == s[i]);
    }
}

proof fn lemma_starts_with_chars(n: Seq<char>, q: Seq<char>, k: int)
    requires
        starts_with(n, q),
        0 <= k < q.len(),
    ensures
        n[k] == q[k],
{
    assert(n.subrange(0, q.len() as int)[k] == n[k]);
}

proof fn lemma_ends_with_chars(n: Seq<char>, q: Seq<char>, k: int)
    requires
        ends_with(n, q),
        0 <= k < q.len(),
    ensures
        n[n.len() - q.len() + k] == q[k],
{
    assert(n.subrange(n.len() - q.len(), n.len() as int)[k] == n[n.len() - q.len() + k]);
}

/// A command line whose only task argument is `prefix:name` (the prefix not
/// a flag, the name holding no `:`) runs the task type that the name
/// documents: `dependencies`; `integrationTest` or `componentTest`; `test`;
/// `detekt...`; `projectHealth...`; `compileKotlin`, `compileTestKotlin`,
/// `compileJava`, `compileTestJava` or `...Classes`; `buildProtos`,
/// `generateProtos` or any name holding `Proto`. Earlier entries win.
pub proof fn law_single_task_type(p: Seq<char>, n: Seq<char>)
    requires
        p.len() == 0 || p[0] != '-',
        forall|i: int| 0 <= i < n.len() ==> n[i] != ':',
    ensures
        n == "dependencies"@ ==> task_type_of(seq![p + seq![':'] + n]) == TaskType::Deps,
        n == "integrationTest"@ || n == "componentTest"@ ==> task_type_of(
            seq![p + seq![':'] + n],
        ) == TaskType::IntegrationTest,
        n == "test"@ ==> task_type_of(seq![p + seq![':'] + n]) == TaskType::Test,
        starts_with(n, "detekt"@) ==> task_type_of(seq![p + seq![':'] + n]) == TaskType::Detekt,
        starts_with(n, "projectHealth"@) ==> task_type_of(seq![p + seq![':'] + n])
            == TaskType::Health,
        n == "compileKotlin"@ || n == "compileTestKotlin"@ || n == "compileJava"@ || n
            == "compileTestJava"@ ==> task_type_of(seq![p + seq![':'] + n]) == TaskType::Compile,
        ends_with(n, "Classes"@) && !starts_with(n, "detekt"@) && !starts_with(
            n,
            "projectHealth"@,
        ) ==> task_type_of(seq![p + seq![':'] + n]) == TaskType::Compile,
        (n == "buildProtos"@ || n == "generateProtos"@ || contains(n, "Proto"@)) && !starts_with(
            n,
            "detekt"@,
        ) && !starts_with(n, "projectHealth"@) && !ends_with(n, "Classes"@) ==> task_type_of(
            seq![p + seq![':'] + n],
        ) == TaskType::Proto,
        n == "assemble"@ ==> task_type_of(seq![p + seq![':'] + n]) == TaskType::Generic,
{
    lemma_single_task_arg(p, n);
    reveal_strlit("dependencies");
    reveal_strlit("integrationTest");
    reveal_strlit("componentTest");
    reveal_strlit("test");
    reveal_strlit("detekt");
    reveal_strlit("projectHealth");
    reveal_strlit("compileKotlin");
    reveal_strlit("compileTestKotlin");
    reveal_strlit("compileJava");
    reveal_strlit("compileTestJava");
    reveal_strlit("Classes");
    reveal_strlit("buildProtos");
    reveal_strlit("generateProtos");
    reveal_strlit("Proto");
    reveal_strlit("assemble");
    if starts_with(n, "detekt"@) {
        lemma_starts_with_chars(n, "detekt"@, 0);
        lemma_starts_with_chars(n, "detekt"@, 2);
    }
    if starts_with(n, "projectHealth"@) {
        lemma_starts_with_chars(n, "projectHealth"@, 0);
    }
    if ends_with(n, "Classes"@) {
        lemma_ends_with_chars(n, "Classes"@, 0);
        lemma_ends_with_chars(n, "Classes"@, 6);
    }
    let lits = seq![
        "dependencies"@,
        "integrationTest"@,
        "componentTest"@,
        "test"@,
        "compileKotlin"@,
        "compileTestKotlin"@,
        "compileJava"@,
        "compileTestJava"@,
        "assemble"@,
    ];
    assert forall|m: int| 0 <= m < lits.len() implies !contains(#[trigger] lits[m], "Proto"@) by {
        let l = lits[m];
        assert forall|k: int| 0 <= k < l.len() implies l[k] != 'P' by {
        }
        lemma_no_first_char_no_contains(l, "Proto"@);
    }
    assert(!contains(lits[0], "Proto"@));
    assert(!contains(lits[1], "Proto"@));
    assert(!contains(lits[2], "Proto"@));
    assert(!contains(lits[3], "Proto"@));
    assert(!contains(lits[4], "Proto"@));
    assert(!contains(lits[5], "Proto"@));
    assert(!contains(lits[6], "Proto"@));
    assert(!contains(lits[7], "Proto"@));
    assert(!contains(lits[8], "Proto"@));
}

/// The wrapper scripts tried, nearest first, before `gradle` on the path.
pub open spec fn gradle_wrapper_candidates() -> Seq<Seq<char>> {
    seq!["./gradlew"@, "../gradlew"@, "../../gradlew"@, "../../../gradlew"@]
}

/// The executable chosen: the first candidate that exists, else `gradle`.
pub open spec fn chosen_executable(exists: Seq<bool>, k: int) -> Seq<char>
    decreases 4 - k,
{
    if k >= 4 || k < 0 {
        "gradle"@
    } else if k < exists.len() && exists[k] {
        gradle_wrapper_candidates()[k]
    } else {
        chosen_executable(exists, k + 1)
    }
}

/// The gradle wrapper scripts to look for: `./gradlew` and the same in up to
/// three parent directories, nearest first.
pub fn gradle_executable_candidates() -> (r: Vec<String>)
    ensures
        strs(r@) == gradle_wrapper_candidates(),
{
    let r = vec![
        "./gradlew".to_string(),
        "../gradlew".to_string(),
        "../../gradlew".to_string(),
        "../../../gradlew".to_string(),
    ];
    assert(strs(r@) =~= gradle_wrapper_candidates());
    r
}

/// Chooses the gradle executable given which candidate wrapper scripts exist
/// (`exists[k]` for the `k`-th candidate, missing entries count as absent):
/// the first that exists, else `gradle` on the path.
pub fn choose_gradle_executable(exists: &[bool]) -> (r: String)
    ensures
        r@ == chosen_executable(exists@, 0),
{
    let candidates = gradle_executable_candidates();
    assert(strs(candidates@).len() == 4);
    let mut k: usize = 0;
    while k < 4
        invariant
            k <= 4,
            candidates.len() == 4,
            strs(candidates@) == gradle_wrapper_candidates(),
            chosen_executable(exists@, 0) == chosen_executable(exists@, k as int),
        decreases 4 - k,
    {
        if k < exists.len() && exists[k] {
            assert(strs(candidates@)[k as int] == candidates@[k as int]@);
            return candidates[k].clone();
        }
        k = k + 1;
    }
    "gradle".to_string()
}

/// The executable is the first wrapper script found, nearest first:
/// `./gradlew`, `../gradlew`, `../../gradlew`, `../../../gradlew`; when none
/// of the four is found, `gradle`.
pub proof fn law_gradle_executable_choice(exists: Seq<bool>)
    ensures
        exists.len() > 0 && exists[0] ==> chosen_executable(exists, 0) == "./gradlew"@,
        exists.len() > 1 && !exists[0] && exists[1] ==> chosen_executable(exists, 0)
            == "../gradlew"@,
        exists.len() > 2 && !exists[0] && !exists[1] && exists[2] ==> chosen_executable(exists, 0)
            == "../../gradlew"@,
        exists.len() > 3 && !exists[0] && !exists[1] && !exists[2] && exists[3]
            ==> chosen_executable(exists, 0) == "../../../gradlew"@,
        (forall|k: int| 0 <= k < 4 && k < exists.len() ==> !#[trigger] exists[k])
            ==> chosen_executable(exists, 0) == "gradle"@,
{
    reveal_with_fuel(chosen_executable, 5);
    if forall|k: int| 0 <= k < 4 && k < exists.len() ==> !#[trigger] exists[k] {
        if exists.len() > 0 {
            assert(!exists[0]);
        }
        if exists.len() > 1 {
            assert(!exists[1]);
        }
        if exists.len() > 2 {
            assert(!exists[2]);
        }
        if exists.len() > 3 {
            assert(!exists[3]);
        }
    }
}

/// Task-type-specific filtering of gradle output, after the global filter
/// with the user's extra drop patterns. The per-type filters pass their
/// input through, so every task type gets the globally filtered output.
pub fn filter_gradle_output(raw: &str, task_type: &TaskType, extra_drop_patterns: &Vec<String>) -> (r:
    String)
    ensures
        r@ == global_filter_or_input(raw@, extra_set_patterns(strs(extra_drop_patterns@))),
{
    let filtered = global::apply_global_filters(raw, extra_drop_patterns);
    match task_type {
        TaskType::Compile => compile::filter_compile(filtered.as_str()),
        TaskType::Test | TaskType::IntegrationTest => test_filter::filter_test(
            filtered.as_str(),
            *task_type == TaskType::IntegrationTest,
        ),
        TaskType::Detekt => detekt::filter_detekt(filtered.as_str()),
        TaskType::Health => health::filter_health(filtered.as_str()),
        TaskType::Proto => proto::filter_proto(filtered.as_str()),
        TaskType::Deps => deps::filter_deps(filtered.as_str()),
        TaskType::Generic => filtered,
    }
}

} // verus!
