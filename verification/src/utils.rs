//! Removal of ANSI control sequences (`ESC [ params letter`) from text.
use vstd::prelude::*;
use crate::text::{chars_of, string_of};

verus! {

/// A parameter character of a control sequence: a decimal digit or `;`.
pub open spec fn is_csi_param(c: char) -> bool {
    ('0' <= c && c <= '9') || c == ';'
}

/// An ASCII letter, which ends a control sequence.
pub open spec fn is_ascii_letter(c: char) -> bool {
    ('a' <= c && c <= 'z') || ('A' <= c && c <= 'Z')
}

/// The first position at or after `k` that does not hold a parameter character.
pub open spec fn params_end(s: Seq<char>, k: int) -> int
    decreases s.len() - k,
{
    if 0 <= k < s.len() && is_csi_param(s[k]) {
        params_end(s, k + 1)
    } else {
        k
    }
}

/// Length of the control sequence `ESC [ [0-9;]* [a-zA-Z]` that starts at
/// position `i` of `s`, or 0 when none starts there.
pub open spec fn csi_len(s: Seq<char>, i: int) -> int {
    if 0 <= i && i + 1 < s.len() && s[i] == '\u{1b}' && s[i + 1] == '[' {
        let j = params_end(s, i + 2);
        if j < s.len() && is_ascii_letter(s[j]) {
            j - i + 1
        } else {
            0
        }
    } else {
        0
    }
}

/// `s` from position `i` on, with every control sequence removed, scanning
/// left to right and resuming after each removed sequence.
pub open spec fn strip_ansi_from(s: Seq<char>, i: int) -> Seq<char>
    decreases s.len() - i,
{
    if i < 0 || i >= s.len() {
        seq![]
    } else if csi_len(s, i) > 0 {
        strip_ansi_from(s, i + csi_len(s, i))
    } else {
        seq![s[i]] + strip_ansi_from(s, i + 1)
    }
}

/// `s` with every control sequence removed.
pub open spec fn strip_ansi_spec(s: Seq<char>) -> Seq<char> {
    strip_ansi_from(s, 0)
}

proof fn lemma_strip_plain_from(s: Seq<char>, i: int)
    requires
        0 <= i <= s.len(),
        forall|k: int| 0 <= k < s.len() ==> #[trigger] s[k] != '\u{1b}',
    ensures
        strip_ansi_from(s, i) == s.subrange(i, s.len() as int),
    decreases s.len() - i,
{
    if i < s.len() {
        lemma_strip_plain_from(s, i + 1);
        assert(seq![s[i]] + s.subrange(i + 1, s.len() as int) =~= s.subrange(i, s.len() as int));
    } else {
        assert(s.subrange(i, s.len() as int) =~= Seq::<char>::empty());
    }
}

/// Text without escape characters passes through unchanged.
pub proof fn law_strip_ansi_keeps_plain_text(s: Seq<char>)
    requires
        forall|k: int| 0 <= k < s.len() ==> #[trigger] s[k] != '\u{1b}',
    ensures
        strip_ansi_spec(s) == s,
{
    lemma_strip_plain_from(s, 0);
    assert(s.subrange(0, s.len() as int) =~= s);
}

proof fn lemma_params_end_run(s: Seq<char>, k: int, e: int)
    requires
        0 <= k <= e < s.len(),
        forall|m: int| k <= m < e ==> is_csi_param(#[trigger] s[m]),
        !is_csi_param(s[e]),
    ensures
        params_end(s, k) == e,
    decreases e - k,
{
    if k < e {
        lemma_params_end_run(s, k + 1, e);
    }
}

/// A control sequence `ESC [`, parameter characters (digits and `;`), then
/// an ASCII letter, is removed whole from the front of any text.
pub proof fn law_strip_ansi_removes_sequence(params: Seq<char>, letter: char, rest: Seq<char>)
    requires
        forall|m: int| 0 <= m < params.len() ==> is_csi_param(#[trigger] params[m]),
        is_ascii_letter(letter),
    ensures
        strip_ansi_spec(seq!['\u{1b}', '['] + params + seq![letter] + rest) == strip_ansi_spec(
            rest,
        ),
{
    let s = seq!['\u{1b}', '['] + params + seq![letter] + rest;
    let e: int = params.len() as int + 2;
    assert forall|m: int| 2 <= m < e implies is_csi_param(#[trigger] s[m]) by {
        assert(s[m] == params[m - 2]);
    }
    assert(s[e] == letter);
    lemma_params_end_run(s, 2, e);
    assert(csi_len(s, 0) == e + 1);
    assert(s.subrange(e + 1, s.len() as int) =~= rest);
    lemma_strip_from_shift(rest, s, e + 1);
}

proof fn lemma_strip_from_shift(rest: Seq<char>, s: Seq<char>, off: int)
    requires
        0 <= off <= s.len(),
        s.subrange(off, s.len() as int) == rest,
    ensures
        strip_ansi_from(s, off) == strip_ansi_spec(rest),
{
    lemma_strip_from_shift_at(rest, s, off, 0);
}

proof fn lemma_csi_shift(rest: Seq<char>, s: Seq<char>, off: int, i: int)
    requires
        0 <= off,
        0 <= i < rest.len(),
        off + rest.len() == s.len(),
        s.subrange(off, s.len() as int) == rest,
    ensures
        csi_len(s, off + i) == csi_len(rest, i),
{
    assert forall|m: int| 0 <= m < rest.len() implies #[trigger] rest[m] == s[off + m] by {
        assert(s.subrange(off, s.len() as int)[m] == s[off + m]);
    }
    assert(s[off + i] == rest[i]);
    if i + 1 < rest.len() {
        assert(s[off + i + 1] == rest[i + 1]);
    }
    if i + 1 < rest.len() && rest[i] == '\u{1b}' && rest[i + 1] == '[' {
        lemma_params_end_shift(rest, s, off, i + 2);
        let j = params_end(rest, i + 2);
        lemma_params_end_lower(rest, i + 2);
        if 0 <= j < rest.len() {
            assert(s[off + j] == rest[j]);
        }
    }
}

proof fn lemma_params_end_lower(s: Seq<char>, k: int)
    ensures
        k <= params_end(s, k),
    decreases s.len() - k,
{
    if 0 <= k < s.len() && is_csi_param(s[k]) {
        lemma_params_end_lower(s, k + 1);
    }
}

proof fn lemma_params_end_shift(rest: Seq<char>, s: Seq<char>, off: int, k: int)
    requires
        0 <= off,
        0 <= k,
        off + rest.len() == s.len(),
        forall|m: int| 0 <= m < rest.len() ==> #[trigger] rest[m] == s[off + m],
    ensures
        params_end(s, off + k) == off + params_end(rest, k),
    decreases rest.len() - k,
{
    if k < rest.len() && is_csi_param(rest[k]) {
        lemma_params_end_shift(rest, s, off, k + 1);
    }
}

proof fn lemma_strip_from_shift_at(rest: Seq<char>, s: Seq<char>, off: int, i: int)
    requires
        0 <= off <= s.len(),
        0 <= i,
        s.subrange(off, s.len() as int) == rest,
    ensures
        strip_ansi_from(s, off + i) == strip_ansi_from(rest, i),
    decreases rest.len() - i,
{
    assert(rest.len() == s.len() - off);
    if i < rest.len() {
        assert(s[off + i] == rest[i]) by {
            assert(s.subrange(off, s.len() as int)[i] == s[off + i]);
        }
        lemma_csi_shift(rest, s, off, i);
        let n = csi_len(rest, i);
        if n > 0 {
            lemma_strip_from_shift_at(rest, s, off, i + n);
        } else {
            lemma_strip_from_shift_at(rest, s, off, i + 1);
        }
    }
}

/// Length of the control sequence starting at `i`, or 0.
fn csi_len_exec(v: &Vec<char>, i: usize) -> (r: usize)
    requires
        i < v.len(),
    ensures
        r as int == csi_len(v@, i as int),
        i + r <= v.len(),
{
    if i + 1 < v.len() && v[i] == '\u{1b}' && v[i + 1] == '[' {
        let mut j = i + 2;
        while j < v.len() && (('0' <= v[j] && v[j] <= '9') || v[j] == ';')
            invariant
                i + 2 <= j <= v.len(),
                params_end(v@, (i + 2) as int) == params_end(v@, j as int),
            decreases v.len() - j,
        {
            j = j + 1;
        }
        if j < v.len() && (('a' <= v[j] && v[j] <= 'z') || ('A' <= v[j] && v[j] <= 'Z')) {
            j - i + 1
        } else {
            0
        }
    } else {
        0
    }
}

/// `v` with every control sequence removed.
pub fn strip_ansi_chars(v: &Vec<char>) -> (r: Vec<char>)
    ensures
        r@ == strip_ansi_spec(v@),
{
    let mut out: Vec<char> = Vec::new();
    let mut i: usize = 0;
    while i < v.len()
        invariant
            i <= v.len(),
            strip_ansi_spec(v@) == out@ + strip_ansi_from(v@, i as int),
        decreases v.len() - i,
    {
        let n = csi_len_exec(v, i);
        if n > 0 {
            i = i + n;
        } else {
            let ghost before = out@;
            out.push(v[i]);
            assert(before + strip_ansi_from(v@, i as int) =~= out@ + strip_ansi_from(
                v@,
                i + 1,
            ));
            i = i + 1;
        }
    }
    assert(out@ + strip_ansi_from(v@, i as int) =~= out@);
    out
}

/// `text` with ANSI control sequences (colours, cursor movement) removed.
pub fn strip_ansi(text: &str) -> (r: String)
    ensures
        r@ == strip_ansi_spec(text@),
{
    let v = chars_of(text);
    let s = strip_ansi_chars(&v);
    string_of(&s)
}

} // verus!
