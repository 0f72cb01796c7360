//! The line-by-line state machine of the global filter, given for each line
//! whether a drop pattern matches it: `* Try:` blocks are removed, runs of
//! blank lines collapse to one, dropped lines go, the other lines are kept
//! unchanged, and leading and trailing blank lines are trimmed.
use vstd::prelude::*;
use crate::text::{chars_of, string_of, trim, trim_chars, views, lines, join_lines, split_lines, join_with_newlines, starts_with, has_prefix, sub_vec};
use crate::utils::{strip_ansi_chars, strip_ansi_spec, is_csi_param, is_ascii_letter, law_strip_ansi_removes_sequence};
use crate::text::is_ws;

verus! {

broadcast use vstd::string::group_string_axioms;

/// The text of a line that the filter inspects: trimmed, ANSI sequences
/// removed, trimmed again.
pub open spec fn clean_text(line: Seq<char>) -> Seq<char> {
    trim(strip_ansi_spec(trim(line)))
}

/// A line holding only whitespace.
pub open spec fn is_blank(l: Seq<char>) -> bool {
    trim(l).len() == 0
}

/// Whether line `i` is marked to be dropped; lines beyond `drops` are not.
pub open spec fn drop_flag(drops: Seq<bool>, i: int) -> bool {
    0 <= i < drops.len() && drops[i]
}

/// Whether a line of cleaned text `ct` continues an open `* Try:` block
/// (it is blank, or starts with `> ` or `Get more help at` without being a
/// new `* ` header).
pub open spec fn continues_try_block(ct: Seq<char>) -> bool {
    ct.len() == 0 || (!starts_with(ct, "* "@) && (starts_with(ct, "> "@) || starts_with(
        ct,
        "Get more help at"@,
    )))
}

/// One step of the filter over a line: the state is whether a `* Try:`
/// block is open and the lines kept so far.
pub open spec fn filter_step(st: (bool, Seq<Seq<char>>), line: Seq<char>, dropped: bool) -> (
    bool,
    Seq<Seq<char>>,
) {
    let ct = clean_text(line);
    let kept = st.1;
    if starts_with(ct, "* Try:"@) {
        (true, kept)
    } else if st.0 && continues_try_block(ct) {
        (true, kept)
    } else if ct.len() == 0 {
        if kept.len() == 0 || !is_blank(kept.last()) {
            (false, kept.push(seq![]))
        } else {
            (false, kept)
        }
    } else if dropped {
        (false, kept)
    } else {
        (false, kept.push(line))
    }
}

/// The filter run over all of `ls`, line `i` being dropped as `drops` says.
pub open spec fn filter_run(ls: Seq<Seq<char>>, drops: Seq<bool>) -> (bool, Seq<Seq<char>>)
    decreases ls.len(),
{
    if ls.len() == 0 {
        (false, seq![])
    } else {
        filter_step(filter_run(ls.drop_last(), drops), ls.last(), drop_flag(drops, ls.len() - 1))
    }
}

/// `ls` without its leading blank lines.
pub open spec fn drop_leading_blank(ls: Seq<Seq<char>>) -> Seq<Seq<char>>
    decreases ls.len(),
{
    if ls.len() > 0 && is_blank(ls[0]) {
        drop_leading_blank(ls.drop_first())
    } else {
        ls
    }
}

/// `ls` without its trailing blank lines.
pub open spec fn drop_trailing_blank(ls: Seq<Seq<char>>) -> Seq<Seq<char>>
    decreases ls.len(),
{
    if ls.len() > 0 && is_blank(ls.last()) {
        drop_trailing_blank(ls.drop_last())
    } else {
        ls
    }
}

/// The lines of `input` that the filter keeps.
pub open spec fn kept_lines(input: Seq<char>, drops: Seq<bool>) -> Seq<Seq<char>> {
    drop_trailing_blank(drop_leading_blank(filter_run(lines(input), drops).1))
}

proof fn lemma_drop_leading_skip(ls: Seq<Seq<char>>, i: int)
    requires
        0 <= i <= ls.len(),
        forall|k: int| 0 <= k < i ==> is_blank(#[trigger] ls[k]),
    ensures
        drop_leading_blank(ls) == drop_leading_blank(ls.subrange(i, ls.len() as int)),
    decreases i,
{
    if i > 0 {
        lemma_drop_leading_skip(ls.drop_first(), i - 1);
        assert(ls.drop_first().subrange(i - 1, ls.drop_first().len() as int) =~= ls.subrange(
            i,
            ls.len() as int,
        ));
    } else {
        assert(ls.subrange(0, ls.len() as int) =~= ls);
    }
}

proof fn lemma_drop_trailing_take(ls: Seq<Seq<char>>, j: int)
    requires
        0 <= j <= ls.len(),
        forall|k: int| j <= k < ls.len() ==> is_blank(#[trigger] ls[k]),
    ensures
        drop_trailing_blank(ls) == drop_trailing_blank(ls.subrange(0, j)),
    decreases ls.len() - j,
{
    if j < ls.len() {
        lemma_drop_trailing_take(ls.drop_last(), j);
        assert(ls.drop_last().subrange(0, j) =~= ls.subrange(0, j));
    } else {
        assert(ls.subrange(0, j) =~= ls);
    }
}

/// `ls` without leading and trailing blank lines.
fn trim_blank_lines(ls: Vec<Vec<char>>) -> (r: Vec<Vec<char>>)
    ensures
        views(r@) == drop_trailing_blank(drop_leading_blank(views(ls@))),
{
    let mut ls = ls;
    let mut i: usize = 0;
    while i < ls.len() && trim_chars(&ls[i]).len() == 0
        invariant
            i <= ls.len(),
            forall|k: int| 0 <= k < i ==> is_blank(#[trigger] views(ls@)[k]),
        decreases ls.len() - i,
    {
        i = i + 1;
    }
    let ghost all = views(ls@);
    proof {
        lemma_drop_leading_skip(all, i as int);
    }
    let mut rest = ls.split_off(i);
    assert(views(rest@) =~= all.subrange(i as int, all.len() as int));
    let ghost t = views(rest@);
    assert(drop_leading_blank(t) == t);
    let mut j: usize = rest.len();
    while j > 0 && trim_chars(&rest[j - 1]).len() == 0
        invariant
            j <= rest.len(),
            t == views(rest@),
            forall|k: int| j <= k < rest.len() ==> is_blank(#[trigger] views(rest@)[k]),
        decreases j,
    {
        j = j - 1;
    }
    proof {
        lemma_drop_trailing_take(t, j as int);
    }
    rest.truncate(j);
    assert(views(rest@) =~= t.subrange(0, j as int));
    rest
}

/// The cleaned text of `line`.
pub fn clean_text_of(line: &Vec<char>) -> (r: Vec<char>)
    ensures
        r@ == clean_text(line@),
{
    let trimmed = trim_chars(line);
    let stripped = strip_ansi_chars(&trimmed);
    trim_chars(&stripped)
}

/// Filters `input` line by line, dropping line `i` (counting from 0) where
/// `dropped[i]` holds and its cleaned text is not blank; `* Try:` blocks
/// are removed, runs of blank lines collapse to one empty line, the other
/// lines are kept unchanged, and leading and trailing blank lines go.
/// Lines past the end of `dropped` are not dropped.
pub fn filter_lines(input: &str, dropped: &[bool]) -> (r: String)
    ensures
        r@ == join_lines(kept_lines(input@, dropped@)),
{
    let all = chars_of(input);
    let ls = split_lines(&all);
    let try_header = chars_of("* Try:");
    let star = chars_of("* ");
    let quote = chars_of("> ");
    let help = chars_of("Get more help at");
    let mut in_try = false;
    let mut kept: Vec<Vec<char>> = Vec::new();
    let mut k: usize = 0;
    while k < ls.len()
        invariant
            k <= ls.len(),
            try_header@ == "* Try:"@,
            star@ == "* "@,
            quote@ == "> "@,
            help@ == "Get more help at"@,
            (in_try, views(kept@)) == filter_run(views(ls@).take(k as int), dropped@),
        decreases ls.len() - k,
    {
        assert(views(ls@).take(k + 1).drop_last() =~= views(ls@).take(k as int));
        let line = &ls[k];
        let ct = clean_text_of(line);
        if has_prefix(&ct, &try_header) {
            in_try = true;
        } else if in_try && (ct.len() == 0 || (!has_prefix(&ct, &star) && (has_prefix(
            &ct,
            &quote,
        ) || has_prefix(&ct, &help)))) {
        } else {
            in_try = false;
            if ct.len() == 0 {
                if kept.len() == 0 || trim_chars(&kept[kept.len() - 1]).len() != 0 {
                    let ghost before = views(kept@);
                    kept.push(Vec::new());
                    assert(views(kept@) =~= before.push(seq![]));
                }
            } else if !(k < dropped.len() && dropped[k]) {
                let copy = sub_vec(line, 0, line.len());
                assert(copy@ =~= line@);
                let ghost before = views(kept@);
                kept.push(copy);
                assert(views(kept@) =~= before.push(line@));
            }
        }
        k = k + 1;
    }
    assert(views(ls@).take(ls.len() as int) =~= views(ls@));
    let trimmed = trim_blank_lines(kept);
    let out = join_with_newlines(&trimmed);
    string_of(&out)
}

proof fn lemma_nonempty_clean_text_not_blank(l: Seq<char>)
    requires
        clean_text(l).len() > 0,
    ensures
        !is_blank(l),
{
    if is_blank(l) {
        let e: Seq<char> = seq![];
        assert(trim(l) =~= e);
        assert(strip_ansi_spec(e) =~= e);
        assert(trim(e) =~= e);
    }
}

/// A kept line: either an empty line, or line `i` of `ls`, unchanged, not
/// marked to be dropped, whose cleaned text is not empty and is no
/// `* Try:` header.
pub open spec fn is_kept_line(l: Seq<char>, ls: Seq<Seq<char>>, drops: Seq<bool>) -> bool {
    ||| l == Seq::<char>::empty()
    ||| exists|i: int|
        {
            &&& 0 <= i < ls.len()
            &&& #[trigger] ls[i] == l
            &&& !drop_flag(drops, i)
            &&& clean_text(l).len() > 0
            &&& !starts_with(clean_text(l), "* Try:"@)
        }
}

proof fn lemma_filter_run_props(ls: Seq<Seq<char>>, drops: Seq<bool>)
    ensures
        forall|i: int|
            0 <= i < filter_run(ls, drops).1.len() ==> is_kept_line(
                #[trigger] filter_run(ls, drops).1[i],
                ls,
                drops,
            ),
        forall|i: int|
            0 <= i < filter_run(ls, drops).1.len() - 1 ==> !(is_blank(
                #[trigger] filter_run(ls, drops).1[i],
            ) && is_blank(filter_run(ls, drops).1[i + 1])),
    decreases ls.len(),
{
    if ls.len() > 0 {
        let prev = ls.drop_last();
        lemma_filter_run_props(prev, drops);
        let kp = filter_run(prev, drops).1;
        let kept = filter_run(ls, drops).1;
        let line = ls.last();
        if clean_text(line).len() > 0 {
            lemma_nonempty_clean_text_not_blank(line);
        }
        let e: Seq<char> = seq![];
        assert(trim(e) =~= e);
        assert forall|i: int| 0 <= i < kept.len() implies is_kept_line(
            #[trigger] kept[i],
            ls,
            drops,
        ) by {
            if i < kp.len() {
                assert(kept[i] == kp[i]);
                assert(is_kept_line(kp[i], prev, drops));
                if kp[i] != e {
                    let j = choose|j: int|
                        {
                            &&& 0 <= j < prev.len()
                            &&& #[trigger] prev[j] == kp[i]
                            &&& !drop_flag(drops, j)
                            &&& clean_text(kp[i]).len() > 0
                            &&& !starts_with(clean_text(kp[i]), "* Try:"@)
                        };
                    assert(ls[j] == prev[j]);
                }
            } else if kept[i] != e {
                assert(ls[ls.len() - 1] == line);
            }
        }
        assert forall|i: int| 0 <= i < kept.len() - 1 implies !(is_blank(#[trigger] kept[i])
            && is_blank(kept[i + 1])) by {
            if i + 1 < kp.len() {
                assert(kept[i] == kp[i] && kept[i + 1] == kp[i + 1]);
            } else {
                assert(kept[i] == kp[i]);
                assert(kp.last() == kp[i]);
            }
        }
    }
}

proof fn lemma_drop_leading_suffix(ls: Seq<Seq<char>>) -> (i: int)
    ensures
        0 <= i <= ls.len(),
        drop_leading_blank(ls) == ls.subrange(i, ls.len() as int),
        i < ls.len() ==> !is_blank(ls[i]),
        forall|k: int| 0 <= k < i ==> is_blank(#[trigger] ls[k]),
    decreases ls.len(),
{
    if ls.len() > 0 && is_blank(ls[0]) {
        let k = lemma_drop_leading_suffix(ls.drop_first());
        assert(ls.drop_first().subrange(k, ls.len() - 1) =~= ls.subrange(k + 1, ls.len() as int));
        assert(k < ls.len() - 1 ==> ls.drop_first()[k] == ls[k + 1]);
        assert forall|m: int| 0 <= m < k + 1 implies is_blank(#[trigger] ls[m]) by {
            if m > 0 {
                assert(ls[m] == ls.drop_first()[m - 1]);
            }
        }
        k + 1
    } else {
        assert(ls.subrange(0, ls.len() as int) =~= ls);
        0
    }
}

proof fn lemma_drop_trailing_prefix(ls: Seq<Seq<char>>) -> (j: int)
    ensures
        0 <= j <= ls.len(),
        drop_trailing_blank(ls) == ls.subrange(0, j),
        j > 0 ==> !is_blank(ls[j - 1]),
        forall|k: int| j <= k < ls.len() ==> is_blank(#[trigger] ls[k]),
    decreases ls.len(),
{
    if ls.len() > 0 && is_blank(ls.last()) {
        let k = lemma_drop_trailing_prefix(ls.drop_last());
        assert(ls.drop_last().subrange(0, k) =~= ls.subrange(0, k));
        assert forall|m: int| k <= m < ls.len() implies is_blank(#[trigger] ls[m]) by {
            if m < ls.len() - 1 {
                assert(ls[m] == ls.drop_last()[m]);
            }
        }
        k
    } else {
        assert(ls.subrange(0, ls.len() as int) =~= ls);
        ls.len() as int
    }
}

proof fn lemma_kept_window(input: Seq<char>, drops: Seq<bool>) -> (ij: (int, int))
    ensures
        0 <= ij.0 <= ij.1 <= filter_run(lines(input), drops).1.len(),
        kept_lines(input, drops) == filter_run(lines(input), drops).1.subrange(ij.0, ij.1),
        ij.0 < ij.1 ==> !is_blank(filter_run(lines(input), drops).1[ij.0]),
        ij.0 < ij.1 ==> !is_blank(filter_run(lines(input), drops).1[ij.1 - 1]),
        forall|k: int|
            0 <= k < ij.0 ==> is_blank(#[trigger] filter_run(lines(input), drops).1[k]),
        forall|k: int|
            ij.1 <= k < filter_run(lines(input), drops).1.len() ==> is_blank(
                #[trigger] filter_run(lines(input), drops).1[k],
            ),
{
    let kept = filter_run(lines(input), drops).1;
    let i = lemma_drop_leading_suffix(kept);
    let mid = kept.subrange(i, kept.len() as int);
    let j = lemma_drop_trailing_prefix(mid);
    assert(mid.subrange(0, j) =~= kept.subrange(i, i + j));
    if j > 0 {
        assert(mid[0] == kept[i]);
        assert(mid[j - 1] == kept[i + j - 1]);
    }
    assert forall|k: int| i + j <= k < kept.len() implies is_blank(#[trigger] kept[k]) by {
        assert(kept[k] == mid[k - i]);
    }
    (i, i + j)
}

/// The filtered output neither starts nor ends with a blank line.
pub proof fn law_no_blank_edges(input: Seq<char>, drops: Seq<bool>)
    ensures
        kept_lines(input, drops).len() > 0 ==> !is_blank(kept_lines(input, drops)[0]) && !is_blank(
            kept_lines(input, drops).last(),
        ),
{
    let ij = lemma_kept_window(input, drops);
    let kept = filter_run(lines(input), drops).1;
    let out = kept_lines(input, drops);
    if out.len() > 0 {
        assert(out[0] == kept[ij.0]);
        assert(out.last() == kept[ij.1 - 1]);
    }
}

/// In the filtered output no two blank lines follow each other, and every
/// blank line is empty.
pub proof fn law_blank_lines_collapsed(input: Seq<char>, drops: Seq<bool>)
    ensures
        forall|i: int|
            0 <= i < kept_lines(input, drops).len() - 1 ==> !(is_blank(
                #[trigger] kept_lines(input, drops)[i],
            ) && is_blank(kept_lines(input, drops)[i + 1])),
        forall|i: int|
            0 <= i < kept_lines(input, drops).len() && is_blank(
                #[trigger] kept_lines(input, drops)[i],
            ) ==> kept_lines(input, drops)[i] == Seq::<char>::empty(),
{
    let ij = lemma_kept_window(input, drops);
    let ls = lines(input);
    let kept = filter_run(ls, drops).1;
    let out = kept_lines(input, drops);
    lemma_filter_run_props(ls, drops);
    assert forall|i: int| 0 <= i < out.len() - 1 implies !(is_blank(#[trigger] out[i])
        && is_blank(out[i + 1])) by {
        assert(out[i] == kept[ij.0 + i] && out[i + 1] == kept[ij.0 + i + 1]);
    }
    assert forall|i: int| 0 <= i < out.len() && is_blank(#[trigger] out[i]) implies out[i]
        == Seq::<char>::empty() by {
        assert(out[i] == kept[ij.0 + i]);
        assert(is_kept_line(kept[ij.0 + i], ls, drops));
        if clean_text(out[i]).len() > 0 {
            lemma_nonempty_clean_text_not_blank(out[i]);
        }
    }
}

/// Every non-blank line of the filtered output is a line of the input,
/// unchanged, that is not marked to be dropped and whose cleaned text is no
/// `* Try:` header.
pub proof fn law_kept_lines_survive(input: Seq<char>, drops: Seq<bool>)
    ensures
        forall|k: int|
            0 <= k < kept_lines(input, drops).len() && !is_blank(
                #[trigger] kept_lines(input, drops)[k],
            ) ==> exists|i: int|
                {
                    &&& 0 <= i < lines(input).len()
                    &&& #[trigger] lines(input)[i] == kept_lines(input, drops)[k]
                    &&& !drop_flag(drops, i)
                    &&& clean_text(lines(input)[i]).len() > 0
                    &&& !starts_with(clean_text(lines(input)[i]), "* Try:"@)
                },
{
    let ij = lemma_kept_window(input, drops);
    let ls = lines(input);
    let kept = filter_run(ls, drops).1;
    let out = kept_lines(input, drops);
    lemma_filter_run_props(ls, drops);
    let e: Seq<char> = seq![];
    assert(trim(e) =~= e);
    assert forall|k: int| 0 <= k < out.len() && !is_blank(#[trigger] out[k]) implies exists|i: int|
        {
            &&& 0 <= i < ls.len()
            &&& #[trigger] ls[i] == out[k]
            &&& !drop_flag(drops, i)
            &&& clean_text(ls[i]).len() > 0
            &&& !starts_with(clean_text(ls[i]), "* Try:"@)
        } by {
        assert(out[k] == kept[ij.0 + k]);
        assert(is_kept_line(kept[ij.0 + k], ls, drops));
    }
}


/// `f` maps each position of `a` to a position of `b` holding the same
/// line, keeping their order.
pub open spec fn embeds(a: Seq<Seq<char>>, b: Seq<Seq<char>>, f: spec_fn(int) -> int) -> bool {
    &&& forall|i: int| 0 <= i < a.len() ==> 0 <= #[trigger] f(i) < b.len() && a[i] == b[f(i)]
    &&& forall|i: int, j: int| 0 <= i < j < a.len() ==> #[trigger] f(i) < #[trigger] f(j)
}

/// `a` is `b` with some lines left out.
pub open spec fn is_subsequence(a: Seq<Seq<char>>, b: Seq<Seq<char>>) -> bool {
    exists|f: spec_fn(int) -> int| embeds(a, b, f)
}

/// `d2` drops every line that `d1` drops.
pub open spec fn drops_at_least(d2: Seq<bool>, d1: Seq<bool>) -> bool {
    forall|i: int| #[trigger] drop_flag(d1, i) ==> drop_flag(d2, i)
}

proof fn lemma_run_subsequence(ls: Seq<Seq<char>>, d1: Seq<bool>, d2: Seq<bool>) -> (f: spec_fn(
    int,
) -> int)
    requires
        drops_at_least(d2, d1),
    ensures
        filter_run(ls, d1).0 == filter_run(ls, d2).0,
        embeds(filter_run(ls, d2).1, filter_run(ls, d1).1, f),
        ({
            let k1 = filter_run(ls, d1).1;
            let k2 = filter_run(ls, d2).1;
            k1.len() > 0 && is_blank(k1.last()) ==> k2.len() > 0 && is_blank(k2.last())
        }),
    decreases ls.len(),
{
    if ls.len() == 0 {
        |i: int| i
    } else {
        let prev = ls.drop_last();
        let f = lemma_run_subsequence(prev, d1, d2);
        let k1 = filter_run(prev, d1).1;
        let k2 = filter_run(prev, d2).1;
        let n1 = filter_run(ls, d1).1;
        let n2 = filter_run(ls, d2).1;
        let x1 = drop_flag(d1, ls.len() - 1);
        let x2 = drop_flag(d2, ls.len() - 1);
        assert(x1 ==> x2);
        let line = ls.last();
        if clean_text(line).len() > 0 {
            lemma_nonempty_clean_text_not_blank(line);
        }
        let e: Seq<char> = seq![];
        assert(trim(e) =~= e);
        let g = |i: int| if i < k2.len() { f(i) } else { n1.len() - 1 };
        if n2.len() == k2.len() + 1 {
            assert(n1.len() == k1.len() + 1);
            assert(n2.last() == n1.last());
            assert forall|i: int| 0 <= i < n2.len() implies 0 <= #[trigger] g(i) < n1.len()
                && n2[i] == n1[g(i)] by {
                if i < k2.len() {
                    assert(n2[i] == k2[i]);
                    assert(n1[f(i)] == k1[f(i)]);
                }
            }
            assert forall|i: int, j: int| 0 <= i < j < n2.len() implies #[trigger] g(i)
                < #[trigger] g(j) by {
                if j < k2.len() {
                    assert(f(i) < f(j));
                } else {
                    assert(0 <= f(i) < k1.len());
                }
            }
            g
        } else {
            assert(n2 == k2);
            assert forall|i: int| 0 <= i < n2.len() implies 0 <= #[trigger] f(i) < n1.len()
                && n2[i] == n1[f(i)] by {
                assert(k1.len() <= n1.len());
                assert(0 <= f(i) < k1.len());
                if n1.len() > k1.len() {
                    assert(n1[f(i)] == k1[f(i)]);
                }
            }
            f
        }
    }
}

/// Dropping more lines only leaves lines out: when `d2` drops every line
/// that `d1` drops, the lines kept under `d2` are those kept under `d1`
/// with some left out, in the same order.
pub proof fn law_more_drops_only_remove_lines(input: Seq<char>, d1: Seq<bool>, d2: Seq<bool>)
    requires
        drops_at_least(d2, d1),
    ensures
        is_subsequence(kept_lines(input, d2), kept_lines(input, d1)),
{
    let ls = lines(input);
    let f = lemma_run_subsequence(ls, d1, d2);
    let k1 = filter_run(ls, d1).1;
    let k2 = filter_run(ls, d2).1;
    let w1 = lemma_kept_window(input, d1);
    let w2 = lemma_kept_window(input, d2);
    let o1 = kept_lines(input, d1);
    let o2 = kept_lines(input, d2);
    let g = |m: int| f(w2.0 + m) - w1.0;
    if o2.len() > 0 {
        assert(k1[f(w2.0)] == k2[w2.0]);
        assert(k1[f(w2.1 - 1)] == k2[w2.1 - 1]);
        assert(f(w2.0) >= w1.0);
        assert(f(w2.1 - 1) < w1.1);
    }
    assert forall|m: int| 0 <= m < o2.len() implies 0 <= #[trigger] g(m) < o1.len() && o2[m]
        == o1[g(m)] by {
        assert(o2[m] == k2[w2.0 + m]);
        if m > 0 {
            assert(f(w2.0) < f(w2.0 + m));
        }
        if w2.0 + m < w2.1 - 1 {
            assert(f(w2.0 + m) < f(w2.1 - 1));
        }
        assert(o1[g(m)] == k1[f(w2.0 + m)]);
    }
    assert forall|i: int, j: int| 0 <= i < j < o2.len() implies #[trigger] g(i) < #[trigger] g(
        j,
    ) by {
        assert(f(w2.0 + i) < f(w2.0 + j));
    }
    assert(embeds(o2, o1, g));
}

proof fn lemma_try_header_is_star(ct: Seq<char>)
    requires
        starts_with(ct, "* Try:"@),
    ensures
        starts_with(ct, "* "@),
        ct.len() > 0,
{
    reveal_strlit("* Try:");
    reveal_strlit("* ");
    assert(ct.subrange(0, 6)[0] == ct[0]);
    assert(ct.subrange(0, 6)[1] == ct[1]);
    assert(ct.subrange(0, 2) =~= "* "@);
}

/// A whole `* Try:` block adds nothing to the output: when line `h` is a
/// `* Try:` header and each line after it up to line `j` is blank, or does
/// not start with `* ` and starts with `> ` or `Get more help at` (all by
/// cleaned text), then the filter run up to line `j` keeps exactly what it
/// kept before line `h`, with the block still open.
pub proof fn law_try_block_removed(ls: Seq<Seq<char>>, drops: Seq<bool>, h: int, j: int)
    requires
        0 <= h <= j < ls.len(),
        starts_with(clean_text(ls[h]), "* Try:"@),
        forall|k: int|
            h < k <= j ==> clean_text(#[trigger] ls[k]).len() == 0 || (!starts_with(
                clean_text(ls[k]),
                "* "@,
            ) && (starts_with(clean_text(ls[k]), "> "@) || starts_with(
                clean_text(ls[k]),
                "Get more help at"@,
            ))),
    ensures
        filter_run(ls.take(j + 1), drops) == (true, filter_run(ls.take(h), drops).1),
    decreases j - h,
{
    assert(ls.take(j + 1).drop_last() =~= ls.take(j));
    assert(ls.take(j + 1).last() == ls[j]);
    if j > h {
        law_try_block_removed(ls, drops, h, j - 1);
        let ct = clean_text(ls[j]);
        if starts_with(ct, "* Try:"@) {
            lemma_try_header_is_star(ct);
        }
    }
}

/// When no line is a `* Try:` header, every line whose cleaned text is not
/// blank and that is not marked to be dropped appears in the output.
pub proof fn law_content_lines_kept(input: Seq<char>, drops: Seq<bool>)
    requires
        forall|k: int|
            0 <= k < lines(input).len() ==> !starts_with(
                clean_text(#[trigger] lines(input)[k]),
                "* Try:"@,
            ),
    ensures
        forall|i: int|
            0 <= i < lines(input).len() && clean_text(#[trigger] lines(input)[i]).len() > 0
                && !drop_flag(drops, i) ==> kept_lines(input, drops).contains(lines(input)[i]),
{
    let ls = lines(input);
    lemma_no_try_run(ls, drops, ls.len() as int);
    assert(ls.take(ls.len() as int) =~= ls);
    let kept = filter_run(ls, drops).1;
    let w = lemma_kept_window(input, drops);
    let out = kept_lines(input, drops);
    assert forall|i: int|
        0 <= i < ls.len() && clean_text(#[trigger] ls[i]).len() > 0 && !drop_flag(
            drops,
            i,
        ) implies out.contains(ls[i]) by {
        let m = choose|m: int| 0 <= m < kept.len() && kept[m] == ls[i];
        lemma_nonempty_clean_text_not_blank(ls[i]);
        assert(w.0 <= m < w.1);
        assert(out[m - w.0] == kept[m]);
    }
}

proof fn lemma_no_try_run(ls: Seq<Seq<char>>, drops: Seq<bool>, n: int)
    requires
        0 <= n <= ls.len(),
        forall|k: int| 0 <= k < ls.len() ==> !starts_with(clean_text(#[trigger] ls[k]), "* Try:"@),
    ensures
        !filter_run(ls.take(n), drops).0,
        forall|i: int|
            0 <= i < n && clean_text(#[trigger] ls[i]).len() > 0 && !drop_flag(drops, i)
                ==> exists|m: int|
                0 <= m < filter_run(ls.take(n), drops).1.len() && filter_run(
                    ls.take(n),
                    drops,
                ).1[m] == ls[i],
    decreases n,
{
    if n > 0 {
        lemma_no_try_run(ls, drops, n - 1);
        assert(ls.take(n).drop_last() =~= ls.take(n - 1));
        assert(ls.take(n).last() == ls[n - 1]);
        let k0 = filter_run(ls.take(n - 1), drops).1;
        let k1 = filter_run(ls.take(n), drops).1;
        assert forall|i: int|
            0 <= i < n && clean_text(#[trigger] ls[i]).len() > 0 && !drop_flag(drops, i)
                implies exists|m: int| 0 <= m < k1.len() && k1[m] == ls[i] by {
            if i < n - 1 {
                let m = choose|m: int| 0 <= m < k0.len() && k0[m] == ls[i];
                assert(k1[m] == k0[m]);
            } else {
                assert(k1[k1.len() - 1] == ls[i]);
            }
        }
    } else {
        assert(ls.take(0) =~= Seq::<Seq<char>>::empty());
    }
}

/// A line holding only one ANSI control sequence (`ESC [`, digits and `;`,
/// a letter) has blank cleaned text, so it counts as a blank line.
pub proof fn law_ansi_only_line_is_blank(params: Seq<char>, letter: char)
    requires
        forall|m: int| 0 <= m < params.len() ==> is_csi_param(#[trigger] params[m]),
        is_ascii_letter(letter),
    ensures
        clean_text(seq!['\u{1b}', '['] + params + seq![letter]).len() == 0,
{
    let e: Seq<char> = seq![];
    let l = seq!['\u{1b}', '['] + params + seq![letter];
    assert(l =~= seq!['\u{1b}', '['] + params + seq![letter] + e);
    law_strip_ansi_removes_sequence(params, letter, e);
    assert(!is_ws(l[0]));
    assert(!is_ws(l.last()));
    assert(crate::text::trim_start(l) == l);
    assert(crate::text::trim_end(l) == l);
    assert(strip_ansi_spec(e) =~= e);
    assert(trim(e) =~= e);
}

} // verus!
