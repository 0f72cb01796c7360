//! Global noise filtering of gradle output: drops noise lines, removes
//! `* Try:` blocks, collapses and trims blank lines.
use vstd::prelude::*;
use regex::{Regex, RegexSet};
use crate::text::{chars_of, string_of, strs, views, lines, join_lines, split_lines, starts_with};
use crate::gradle::line_filter::{clean_text, clean_text_of, drop_flag, drops_at_least, filter_lines, kept_lines, is_blank, is_subsequence, law_content_lines_kept, law_kept_lines_survive, law_more_drops_only_remove_lines};

verus! {

broadcast use vstd::string::group_string_axioms;

/// `regex::RegexSet`, a compiled set of regular expressions, held opaque.
#[verifier::external_type_specification]
#[verifier::external_body]
pub struct ExRegexSet(regex::RegexSet);

/// The patterns a `RegexSet` was built from, in order.
pub uninterp spec fn regex_set_patterns(set: RegexSet) -> Seq<Seq<char>>;

/// Whether a set that `RegexSet::new` built from `patterns` (with the
/// crate's default options) has some regex matching somewhere in `text`.
pub uninterp spec fn regex_set_matches(patterns: Seq<Seq<char>>, text: Seq<char>) -> bool;

/// Whether `RegexSet::new` succeeds on `patterns`.
pub uninterp spec fn regex_set_builds(patterns: Seq<Seq<char>>) -> bool;

/// Whether `Regex::new` succeeds on `pattern`.
pub uninterp spec fn regex_builds(pattern: Seq<char>) -> bool;

/// The message of the error that `Regex::new` returns for `pattern`.
pub uninterp spec fn regex_error_text(pattern: Seq<char>) -> Seq<char>;

/// A set of regular expressions compiled by `RegexSet::new`, with the
/// crate's default options. Only this module builds one.
#[derive(Debug)]
pub struct PatternSet {
    set: RegexSet,
}

impl PatternSet {
    /// The patterns the set was built from, in order.
    pub closed spec fn patterns(self) -> Seq<Seq<char>> {
        regex_set_patterns(self.set)
    }

    /// Whether some pattern of the set matches somewhere in `text`.
    pub fn is_match(&self, text: &str) -> (r: bool)
        ensures
            r == regex_set_matches(self.patterns(), text@),
            self.patterns().len() == 0 ==> !r,
    {
        pattern_set_is_match(self, text)
    }
}

/// `RegexSet::new`: on success the set holds exactly the given patterns,
/// in order (its `patterns()` returns them as given). Whether it succeeds
/// is left to the name `regex_set_builds`.
#[verifier::external_body]
fn regex_set_new(patterns: &Vec<String>) -> (r: Option<PatternSet>)
    ensures
        r is Some <==> regex_set_builds(strs(patterns@)),
        r matches Some(ps) ==> regex_set_patterns(ps.set) == strs(patterns@),
{
    match RegexSet::new(patterns) {
        Ok(set) => Some(PatternSet { set }),
        Err(_) => None,
    }
}

/// `RegexSet::is_match` on a set that `RegexSet::new` built: the result is
/// named by `regex_set_matches` over the set's patterns and the text, which
/// is what it depends on for a set built with the default options; a set
/// with no patterns matches nothing, as the crate documents. Which texts a
/// pattern matches is not stated.
#[verifier::external_body]
fn pattern_set_is_match(set: &PatternSet, text: &str) -> (r: bool)
    ensures
        r == regex_set_matches(regex_set_patterns(set.set), text@),
        regex_set_patterns(set.set).len() == 0 ==> !r,
{
    set.set.is_match(text)
}

/// `Regex::new(pattern)`: `None` when the pattern compiles, else the
/// error's message. Whether it compiles is named by `regex_builds`, the
/// message by `regex_error_text`; neither is stated.
#[verifier::external_body]
fn regex_error(pattern: &str) -> (r: Option<String>)
    ensures
        r is None <==> regex_builds(pattern@),
        r matches Some(m) ==> m@ == regex_error_text(pattern@),
{
    match Regex::new(pattern) {
        Ok(_) => None,
        Err(e) => Some(e.to_string()),
    }
}

/// The built-in noise patterns.
pub open spec fn noise_pattern_spec() -> Seq<Seq<char>> {
    seq![
        r"^> Task \S+ (UP-TO-DATE|SKIPPED|NO-SOURCE|FROM-CACHE)$"@,
        r"^> Task \S+\s*$"@,
        r"^> Configure project "@,
        r"^(Starting a? ?Gradle Daemon|Gradle Daemon started|Daemon initialized|Worker lease)"@,
        r"^(OpenJDK 64-Bit Server VM warning:|Initialized native services|Initialized jansi)"@,
        r"\[Incubating\]|Configuration on demand is an incubating feature|Parallel Configuration Cache is an incubating feature"@,
        r"^(Reusing configuration cache|Calculating task graph|Configuration cache entry|Storing configuration cache|Loading configuration cache)"@,
        r"^(Deprecated Gradle features were used|For more on this, please refer to|You can use '--warning-mode all')"@,
        r"^(Download |Downloading )"@,
        r"^\s*\[[\s<=\->]+\]\s+\d+%"@,
        r"^(Publishing build scan|https://(develocity\.|scans\.gradle\.com)|Upload .* build scan|Waiting for build scan)"@,
        r"^(VFS>|Virtual file system )"@,
        r"^(Evaluating root project|All projects evaluated|Settings evaluated)"@,
        r"^(Classpath snapshot |Snapshotting classpath)"@,
        r"^(Kotlin compile daemon|Connected to the daemon)"@,
        r"(?i)^WARNING:.*illegal reflective|(?i)^WARNING:.*reflect"@,
        r"^Received \d+ file system events"@,
        r"^Note: "@,
    ]
}

/// The built-in noise patterns: task status lines, configuration, daemon
/// start-up, JVM warnings, incubating notices, configuration cache,
/// deprecation notices, downloads and progress bars, build scans, VFS,
/// evaluation, classpath snapshots, Kotlin daemon, reflection warnings, file
/// system events and javac notes.
pub fn noise_patterns() -> (r: Vec<String>)
    ensures
        strs(r@) == noise_pattern_spec(),
{
    let r = vec![
        r"^> Task \S+ (UP-TO-DATE|SKIPPED|NO-SOURCE|FROM-CACHE)$".to_string(),
        r"^> Task \S+\s*$".to_string(),
        r"^> Configure project ".to_string(),
        r"^(Starting a? ?Gradle Daemon|Gradle Daemon started|Daemon initialized|Worker lease)".to_string(),
        r"^(OpenJDK 64-Bit Server VM warning:|Initialized native services|Initialized jansi)".to_string(),
        r"\[Incubating\]|Configuration on demand is an incubating feature|Parallel Configuration Cache is an incubating feature".to_string(),
        r"^(Reusing configuration cache|Calculating task graph|Configuration cache entry|Storing configuration cache|Loading configuration cache)".to_string(),
        r"^(Deprecated Gradle features were used|For more on this, please refer to|You can use '--warning-mode all')".to_string(),
        r"^(Download |Downloading )".to_string(),
        r"^\s*\[[\s<=\->]+\]\s+\d+%".to_string(),
        r"^(Publishing build scan|https://(develocity\.|scans\.gradle\.com)|Upload .* build scan|Waiting for build scan)".to_string(),
        r"^(VFS>|Virtual file system )".to_string(),
        r"^(Evaluating root project|All projects evaluated|Settings evaluated)".to_string(),
        r"^(Classpath snapshot |Snapshotting classpath)".to_string(),
        r"^(Kotlin compile daemon|Connected to the daemon)".to_string(),
        r"(?i)^WARNING:.*illegal reflective|(?i)^WARNING:.*reflect".to_string(),
        r"^Received \d+ file system events".to_string(),
        r"^Note: ".to_string(),
    ];
    assert(strs(r@) =~= noise_pattern_spec());
    r
}


/// The patterns of an optional set.
pub open spec fn opt_patterns(set: Option<PatternSet>) -> Option<Seq<Seq<char>>> {
    match set {
        Some(s) => Some(s.patterns()),
        None => None,
    }
}

/// Whether the cleaned text `ct` matches a noise pattern or an extra pattern.
pub open spec fn is_dropped(
    ct: Seq<char>,
    noise: Seq<Seq<char>>,
    extras: Option<Seq<Seq<char>>>,
) -> bool {
    regex_set_matches(noise, ct) || (extras matches Some(e) && regex_set_matches(e, ct))
}

/// For each line, whether its cleaned text is not blank and matches a noise
/// or extra pattern.
pub open spec fn drop_marks(
    ls: Seq<Seq<char>>,
    noise: Seq<Seq<char>>,
    extras: Option<Seq<Seq<char>>>,
) -> Seq<bool> {
    Seq::new(
        ls.len(),
        |i: int| clean_text(ls[i]).len() > 0 && is_dropped(clean_text(ls[i]), noise, extras),
    )
}

/// The lines that the global filter keeps of `input`.
pub open spec fn global_filter_lines(
    input: Seq<char>,
    noise: Seq<Seq<char>>,
    extras: Option<Seq<Seq<char>>>,
) -> Seq<Seq<char>> {
    kept_lines(input, drop_marks(lines(input), noise, extras))
}

/// The output of the global filter on `input`.
pub open spec fn global_filter(
    input: Seq<char>,
    noise: Seq<Seq<char>>,
    extras: Option<Seq<Seq<char>>>,
) -> Seq<char> {
    join_lines(global_filter_lines(input, noise, extras))
}

/// Global filtering with explicit compiled sets: every line of `input` is
/// trimmed and stripped of ANSI sequences for inspection; `* Try:` blocks
/// are removed, runs of blank lines collapse to one, lines that `noise` or
/// `extra_patterns` match are dropped, the other lines are kept unchanged,
/// and leading and trailing blank lines are removed.
pub fn apply_global_filters_with_sets(
    input: &str,
    noise: &PatternSet,
    extra_patterns: &Option<PatternSet>,
) -> (r: String)
    ensures
        r@ == global_filter(input@, noise.patterns(), opt_patterns(*extra_patterns)),
{
    let ghost np = noise.patterns();
    let ghost ep = opt_patterns(*extra_patterns);
    let all = chars_of(input);
    let ls = split_lines(&all);
    let ghost marks = drop_marks(views(ls@), np, ep);
    let mut dropped: Vec<bool> = Vec::new();
    let mut k: usize = 0;
    while k < ls.len()
        invariant
            k <= ls.len(),
            np == noise.patterns(),
            ep == opt_patterns(*extra_patterns),
            marks == drop_marks(views(ls@), np, ep),
            dropped@ == marks.take(k as int),
        decreases ls.len() - k,
    {
        let ct = clean_text_of(&ls[k]);
        let mut drop = false;
        if ct.len() > 0 {
            let text = string_of(&ct);
            drop = noise.is_match(text.as_str()) || match extra_patterns {
                Some(set) => set.is_match(text.as_str()),
                None => false,
            };
        }
        assert(marks[k as int] == drop);
        dropped.push(drop);
        assert(dropped@ =~= marks.take(k + 1));
        k = k + 1;
    }
    assert(marks.take(ls.len() as int) =~= marks);
    filter_lines(input, dropped.as_slice())
}

/// The patterns of `ps` that compile on their own, in order.
pub open spec fn valid_patterns(ps: Seq<Seq<char>>) -> Seq<Seq<char>>
    decreases ps.len(),
{
    if ps.len() == 0 {
        seq![]
    } else {
        let v = valid_patterns(ps.drop_last());
        if regex_builds(ps.last()) {
            v.push(ps.last())
        } else {
            v
        }
    }
}

/// The patterns of the set that `compile_extra_patterns` builds from `ps`,
/// or `None` when it builds none.
pub open spec fn extra_set_patterns(ps: Seq<Seq<char>>) -> Option<Seq<Seq<char>>> {
    let v = valid_patterns(ps);
    if v.len() > 0 && regex_set_builds(v) {
        Some(v)
    } else {
        None
    }
}

/// The output of `apply_global_filters_with_extras`: the global filter
/// with the built-in noise patterns when they compile, else `input` itself.
pub open spec fn global_filter_or_input(
    input: Seq<char>,
    extras: Option<Seq<Seq<char>>>,
) -> Seq<char> {
    if regex_set_builds(noise_pattern_spec()) {
        global_filter(input, noise_pattern_spec(), extras)
    } else {
        input
    }
}

/// Compiles user-supplied patterns into one set, leaving out each pattern
/// that does not compile on its own; `None` when no pattern is left or the
/// set does not build.
pub fn compile_extra_patterns(patterns: &[String]) -> (r: Option<PatternSet>)
    ensures
        opt_patterns(r) == extra_set_patterns(strs(patterns@)),
{
    let mut valid: Vec<String> = Vec::new();
    let mut i: usize = 0;
    while i < patterns.len()
        invariant
            i <= patterns.len(),
            strs(valid@) == valid_patterns(strs(patterns@).take(i as int)),
        decreases patterns.len() - i,
    {
        let ghost prev = strs(patterns@).take(i as int);
        assert(strs(patterns@).take(i + 1).drop_last() =~= prev);
        assert(strs(patterns@).take(i + 1).last() == patterns@[i as int]@);
        let p = &patterns[i];
        if regex_error(p.as_str()).is_none() {
            let ghost before = strs(valid@);
            valid.push(p.clone());
            assert(strs(valid@) =~= before.push(p@));
        }
        i = i + 1;
    }
    assert(strs(patterns@).take(patterns.len() as int) =~= strs(patterns@));
    if valid.len() == 0 {
        None
    } else {
        regex_set_new(&valid)
    }
}

/// The patterns of `ps` that do not compile, each with its error message,
/// in order.
pub open spec fn rejected_patterns(ps: Seq<Seq<char>>) -> Seq<(Seq<char>, Seq<char>)>
    decreases ps.len(),
{
    if ps.len() == 0 {
        seq![]
    } else {
        let v = rejected_patterns(ps.drop_last());
        if regex_builds(ps.last()) {
            v
        } else {
            v.push((ps.last(), regex_error_text(ps.last())))
        }
    }
}

/// The user-supplied patterns that `compile_extra_patterns` leaves out
/// because they do not compile, each with its error message, in order, for
/// the caller to report.
pub fn invalid_extra_patterns(patterns: &[String]) -> (r: Vec<(String, String)>)
    ensures
        r@.map_values(|pm: (String, String)| (pm.0@, pm.1@)) == rejected_patterns(strs(patterns@)),
{
    let mut r: Vec<(String, String)> = Vec::new();
    let mut i: usize = 0;
    while i < patterns.len()
        invariant
            i <= patterns.len(),
            r@.map_values(|pm: (String, String)| (pm.0@, pm.1@)) == rejected_patterns(
                strs(patterns@).take(i as int),
            ),
        decreases patterns.len() - i,
    {
        let ghost prev = strs(patterns@).take(i as int);
        assert(strs(patterns@).take(i + 1).drop_last() =~= prev);
        assert(strs(patterns@).take(i + 1).last() == patterns@[i as int]@);
        let p = &patterns[i];
        match regex_error(p.as_str()) {
            Some(message) => {
                let ghost before = r@.map_values(|pm: (String, String)| (pm.0@, pm.1@));
                let ghost entry = (p@, message@);
                r.push((p.clone(), message));
                assert(r@.map_values(|pm: (String, String)| (pm.0@, pm.1@)) =~= before.push(
                    entry,
                ));
            },
            None => {},
        }
        i = i + 1;
    }
    assert(strs(patterns@).take(patterns.len() as int) =~= strs(patterns@));
    r
}

/// Global filtering with the built-in noise patterns and the given extra
/// set. Should the built-in patterns fail to compile, `input` is returned
/// unchanged.
pub fn apply_global_filters_with_extras(input: &str, extra_patterns: &Option<PatternSet>) -> (r:
    String)
    ensures
        r@ == global_filter_or_input(input@, opt_patterns(*extra_patterns)),
{
    let patterns = noise_patterns();
    match regex_set_new(&patterns) {
        Some(noise) => apply_global_filters_with_sets(input, &noise, extra_patterns),
        None => input.to_string(),
    }
}

/// Global filtering of gradle output with the user's extra drop patterns
/// (the `[gradle] extra_drop_patterns` of the configuration).
pub fn apply_global_filters(input: &str, extra_drop_patterns: &Vec<String>) -> (r: String)
    ensures
        r@ == global_filter_or_input(input@, extra_set_patterns(strs(extra_drop_patterns@))),
{
    let extras = compile_extra_patterns(extra_drop_patterns.as_slice());
    apply_global_filters_with_extras(input, &extras)
}



/// Every non-blank line of the global filter's output is a line of the
/// input, unchanged, whose cleaned text is no `* Try:` header and matches
/// neither a noise pattern nor an extra pattern.
pub proof fn law_global_kept_lines_survive(
    input: Seq<char>,
    noise: Seq<Seq<char>>,
    extras: Option<Seq<Seq<char>>>,
)
    ensures
        forall|k: int|
            0 <= k < global_filter_lines(input, noise, extras).len() && !is_blank(
                #[trigger] global_filter_lines(input, noise, extras)[k],
            ) ==> {
                let l = global_filter_lines(input, noise, extras)[k];
                &&& lines(input).contains(l)
                &&& !is_dropped(clean_text(l), noise, extras)
                &&& !starts_with(clean_text(l), "* Try:"@)
            },
{
    let ls = lines(input);
    let marks = drop_marks(ls, noise, extras);
    let out = global_filter_lines(input, noise, extras);
    law_kept_lines_survive(input, marks);
    assert forall|k: int| 0 <= k < out.len() && !is_blank(#[trigger] out[k]) implies {
        &&& ls.contains(out[k])
        &&& !is_dropped(clean_text(out[k]), noise, extras)
        &&& !starts_with(clean_text(out[k]), "* Try:"@)
    } by {
        let i = choose|i: int|
            {
                &&& 0 <= i < ls.len()
                &&& #[trigger] ls[i] == out[k]
                &&& !drop_flag(marks, i)
                &&& clean_text(ls[i]).len() > 0
                &&& !starts_with(clean_text(ls[i]), "* Try:"@)
            };
        assert(marks[i] == (clean_text(ls[i]).len() > 0 && is_dropped(clean_text(ls[i]), noise, extras)));
    }
}

/// Extra drop patterns only remove lines: the output with extra patterns is
/// the output without them with some lines left out, in the same order.
pub proof fn law_extra_patterns_only_remove_lines(
    input: Seq<char>,
    noise: Seq<Seq<char>>,
    extras: Option<Seq<Seq<char>>>,
)
    ensures
        is_subsequence(
            global_filter_lines(input, noise, extras),
            global_filter_lines(input, noise, None),
        ),
{
    let ls = lines(input);
    let d1 = drop_marks(ls, noise, None);
    let d2 = drop_marks(ls, noise, extras);
    assert forall|i: int| #[trigger] drop_flag(d1, i) implies drop_flag(d2, i) by {
        assert(d1[i] == (clean_text(ls[i]).len() > 0 && is_dropped(clean_text(ls[i]), noise, None)));
        assert(d2[i] == (clean_text(ls[i]).len() > 0 && is_dropped(clean_text(ls[i]), noise, extras)));
    }
    assert(drops_at_least(d2, d1));
    law_more_drops_only_remove_lines(input, d1, d2);
}

/// When no line is a `* Try:` header, every line whose cleaned text is not
/// blank and matches neither a noise pattern nor an extra pattern appears
/// in the output.
pub proof fn law_global_content_lines_kept(
    input: Seq<char>,
    noise: Seq<Seq<char>>,
    extras: Option<Seq<Seq<char>>>,
)
    requires
        forall|k: int|
            0 <= k < lines(input).len() ==> !starts_with(
                clean_text(#[trigger] lines(input)[k]),
                "* Try:"@,
            ),
    ensures
        forall|i: int|
            0 <= i < lines(input).len() && clean_text(#[trigger] lines(input)[i]).len() > 0
                && !is_dropped(clean_text(lines(input)[i]), noise, extras) ==> global_filter_lines(
                input,
                noise,
                extras,
            ).contains(lines(input)[i]),
{
    let ls = lines(input);
    let marks = drop_marks(ls, noise, extras);
    law_content_lines_kept(input, marks);
    assert forall|i: int|
        0 <= i < ls.len() && clean_text(#[trigger] ls[i]).len() > 0 && !is_dropped(
            clean_text(ls[i]),
            noise,
            extras,
        ) implies global_filter_lines(input, noise, extras).contains(ls[i]) by {
        assert(!drop_flag(marks, i));
    }
}

/// How user patterns are sorted: the patterns kept are exactly those of
/// `ps` that compile, in order, and the patterns reported are exactly the
/// others, each with its error message; together they account for every
/// pattern.
pub proof fn law_patterns_partitioned(ps: Seq<Seq<char>>)
    ensures
        forall|k: int|
            0 <= k < valid_patterns(ps).len() ==> regex_builds(#[trigger] valid_patterns(ps)[k])
                && ps.contains(valid_patterns(ps)[k]),
        forall|i: int| 0 <= i < ps.len() && regex_builds(#[trigger] ps[i]) ==> valid_patterns(
            ps,
        ).contains(ps[i]),
        forall|k: int|
            0 <= k < rejected_patterns(ps).len() ==> !regex_builds(
                (#[trigger] rejected_patterns(ps)[k]).0,
            ) && ps.contains(rejected_patterns(ps)[k].0) && rejected_patterns(ps)[k].1
                == regex_error_text(rejected_patterns(ps)[k].0),
        forall|i: int| 0 <= i < ps.len() && !regex_builds(#[trigger] ps[i]) ==> exists|k: int|
            0 <= k < rejected_patterns(ps).len() && rejected_patterns(ps)[k].0 == ps[i],
        valid_patterns(ps).len() + rejected_patterns(ps).len() == ps.len(),
    decreases ps.len(),
{
    if ps.len() > 0 {
        let prev = ps.drop_last();
        law_patterns_partitioned(prev);
        let v = valid_patterns(ps);
        let vp = valid_patterns(prev);
        let r = rejected_patterns(ps);
        let rp = rejected_patterns(prev);
        let last = ps.last();
        assert(ps[ps.len() - 1] == last);
        assert forall|k: int| 0 <= k < v.len() implies regex_builds(#[trigger] v[k]) && ps.contains(
            v[k],
        ) by {
            if k < vp.len() {
                assert(v[k] == vp[k]);
                assert(prev.contains(vp[k]));
                let j = choose|j: int| 0 <= j < prev.len() && prev[j] == vp[k];
                assert(ps[j] == prev[j]);
            }
        }
        assert forall|i: int| 0 <= i < ps.len() && regex_builds(#[trigger] ps[i]) implies v.contains(
            ps[i],
        ) by {
            if i < ps.len() - 1 {
                assert(prev[i] == ps[i]);
                assert(vp.contains(prev[i]));
                let k = choose|k: int| 0 <= k < vp.len() && vp[k] == prev[i];
                assert(v[k] == vp[k]);
            } else {
                assert(v[v.len() - 1] == last);
            }
        }
        assert forall|k: int| 0 <= k < r.len() implies !regex_builds((#[trigger] r[k]).0)
            && ps.contains(r[k].0) && r[k].1 == regex_error_text(r[k].0) by {
            if k < rp.len() {
                assert(r[k] == rp[k]);
                assert(prev.contains(rp[k].0));
                let j = choose|j: int| 0 <= j < prev.len() && prev[j] == rp[k].0;
                assert(ps[j] == prev[j]);
            }
        }
        assert forall|i: int| 0 <= i < ps.len() && !regex_builds(#[trigger] ps[i]) implies exists|
            k: int,
        | 0 <= k < r.len() && r[k].0 == ps[i] by {
            if i < ps.len() - 1 {
                assert(prev[i] == ps[i]);
                let k = choose|k: int| 0 <= k < rp.len() && rp[k].0 == prev[i];
                assert(r[k] == rp[k]);
            } else {
                assert(r[r.len() - 1].0 == last);
            }
        }
    }
}

/// The extra set holds exactly the patterns that compile, and there is no
/// set when none compiles.
pub proof fn law_extra_set_holds_valid_patterns(ps: Seq<Seq<char>>)
    ensures
        extra_set_patterns(ps) matches Some(v) ==> v == valid_patterns(ps) && v.len() > 0,
        valid_patterns(ps).len() == 0 ==> extra_set_patterns(ps) is None,
        (forall|i: int| 0 <= i < ps.len() ==> !regex_builds(#[trigger] ps[i])) ==> extra_set_patterns(
            ps,
        ) is None,
{
    law_patterns_partitioned(ps);
    if forall|i: int| 0 <= i < ps.len() ==> !regex_builds(#[trigger] ps[i]) {
        if valid_patterns(ps).len() > 0 {
            let v = valid_patterns(ps);
            assert(regex_builds(v[0]) && ps.contains(v[0]));
            let j = choose|j: int| 0 <= j < ps.len() && ps[j] == v[0];
            assert(!regex_builds(ps[j]));
        }
    }
}

} // verus!
