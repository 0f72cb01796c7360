use rtk::gradle::global::{
    invalid_extra_patterns, apply_global_filters, apply_global_filters_with_extras, compile_extra_patterns, noise_patterns,
};
use rtk::gradle::{filter_gradle_output, TaskType};
use rtk::gradle::line_filter::filter_lines;
use rtk::utils::strip_ansi;

#[test]
fn test_try_block_removal() {
    let input = "Some content\n\n* Try:\n> Run with --stacktrace option.\n> Run with --info option.\n> Run with --scan.\n> Get more help at https://help.gradle.org.\n\n* What went wrong:\nSomething failed";
    let output = apply_global_filters_with_extras(input, &None);
    assert!(!output.contains("* Try:"), "Try block should be removed");
    assert!(!output.contains("--stacktrace"), "Try block content should be removed");
    assert!(output.contains("* What went wrong:"), "What went wrong should be kept");
}

#[test]
fn test_note_lines_dropped() {
    let input = "Note: Some input files use unchecked or unsafe operations.\nNote: Recompile with -Xlint:unchecked for details.\nBUILD SUCCESSFUL in 1s";
    let output = apply_global_filters_with_extras(input, &None);
    assert!(!output.contains("Note:"), "Note: lines should be dropped");
    assert!(output.contains("BUILD SUCCESSFUL"));
}

#[test]
fn test_build_result_always_kept() {
    let input = "Starting Gradle Daemon...\nBUILD SUCCESSFUL in 12s\n8 actionable tasks: 1 executed, 7 up-to-date";
    let output = apply_global_filters_with_extras(input, &None);
    assert!(output.contains("BUILD SUCCESSFUL"));
}

#[test]
fn test_failure_header_kept() {
    let input = "FAILURE: Build failed with an exception\n\n* What went wrong:\nCompilation failed\n\nBUILD FAILED in 5s";
    let output = apply_global_filters_with_extras(input, &None);
    assert!(output.contains("FAILURE: Build failed with an exception"));
    assert!(output.contains("* What went wrong:"));
    assert!(output.contains("BUILD FAILED"));
}

#[test]
fn test_extra_drop_patterns() {
    let input = "Normal line\nCustomOrgBuildPlugin: initializing\nAnother normal line";
    let extras = compile_extra_patterns(&["^CustomOrgBuildPlugin:".to_string()]);
    let output = apply_global_filters_with_extras(input, &extras);
    assert!(!output.contains("CustomOrgBuildPlugin"));
    assert!(output.contains("Normal line"));
    assert!(output.contains("Another normal line"));
}

#[test]
fn test_invalid_extra_pattern_skipped() {
    let patterns = vec!["[invalid".to_string(), "^valid$".to_string()];
    let compiled = compile_extra_patterns(&patterns);
    assert!(compiled.is_some(), "Should produce a RegexSet with the valid pattern");
    assert!(compiled.as_ref().unwrap().is_match("valid"), "Valid pattern should match");
    assert!(!compiled.as_ref().unwrap().is_match("no match"), "Should not match arbitrary text");
}

#[test]
fn test_blank_line_trimming() {
    let input = "\n\n\nBUILD SUCCESSFUL in 1s\n\n\n";
    let output = apply_global_filters_with_extras(input, &None);
    assert!(!output.starts_with('\n'));
    assert!(!output.ends_with('\n'));
    assert!(output.contains("BUILD SUCCESSFUL"));
}

#[test]
fn test_compile_extra_patterns_none_cases() {
    assert!(compile_extra_patterns(&[]).is_none());
    assert!(compile_extra_patterns(&["(unclosed".to_string(), "[x".to_string()]).is_none());
}

#[test]
fn test_compile_extra_patterns_keeps_valid_in_order() {
    let set = compile_extra_patterns(&[
        "^a".to_string(),
        "(bad".to_string(),
        "z$".to_string(),
    ])
    .unwrap();
    assert!(set.is_match("abc"));
    assert!(set.is_match("xyz"));
    assert!(!set.is_match("(bad"));
    assert!(!set.is_match("bab"));
}

#[test]
fn test_noise_patterns_listed() {
    let p = noise_patterns();
    assert_eq!(p.len(), 18);
    assert_eq!(p[17], "^Note: ");
}

#[test]
fn test_exact_output_blank_collapse_and_noise() {
    let input = "> Task :app:compileKotlin UP-TO-DATE\nline one\n\n\n   \nline two\n> Configure project :app\nBUILD SUCCESSFUL in 3s\n";
    let output = apply_global_filters_with_extras(input, &None);
    assert_eq!(output, "line one\n\nline two\nBUILD SUCCESSFUL in 3s");
}

#[test]
fn test_kept_lines_unchanged_and_crlf_split() {
    let input = "  indented kept line  \r\n\u{1b}[32m> Task :app:test\u{1b}[0m\r\nlast\r";
    let output = apply_global_filters_with_extras(input, &None);
    assert_eq!(output, "  indented kept line  \nlast\r");
}

#[test]
fn test_ansi_only_line_becomes_blank() {
    let input = "a\n\u{1b}[0m\nb";
    let output = apply_global_filters_with_extras(input, &None);
    assert_eq!(output, "a\n\nb");
}

#[test]
fn test_try_block_ends_at_other_content() {
    let input = "* Try:\n> Run with --info\nplain text\n> quoted after block";
    let output = apply_global_filters_with_extras(input, &None);
    assert_eq!(output, "plain text\n> quoted after block");
}

#[test]
fn test_output_has_no_blank_edges_or_runs() {
    let input = "\n  \nx\n\n\n\ny\n\n \n";
    let output = apply_global_filters_with_extras(input, &None);
    assert_eq!(output, "x\n\ny");
    assert!(!output.contains("\n\n\n"));
}

#[test]
fn test_apply_global_filters_with_config_patterns() {
    let input = "keep me\nDROP this line\nkeep me too";
    let out = apply_global_filters(input, &vec!["^DROP".to_string(), "(bad".to_string()]);
    assert_eq!(out, "keep me\nkeep me too");
    let none = apply_global_filters(input, &vec![]);
    assert_eq!(none, input);
}

#[test]
fn test_filter_gradle_output_every_type_equals_global() {
    let raw = "Starting a Gradle Daemon\nBUILD SUCCESSFUL in 1s\n\n";
    let extras: Vec<String> = vec![];
    let expected = apply_global_filters(raw, &extras);
    assert_eq!(expected, "BUILD SUCCESSFUL in 1s");
    for t in [
        TaskType::Compile,
        TaskType::Test,
        TaskType::IntegrationTest,
        TaskType::Detekt,
        TaskType::Health,
        TaskType::Proto,
        TaskType::Deps,
        TaskType::Generic,
    ] {
        assert_eq!(filter_gradle_output(raw, &t, &extras), expected);
    }
}

#[test]
fn test_strip_ansi() {
    assert_eq!(strip_ansi("\u{1b}[31mred\u{1b}[0m"), "red");
    assert_eq!(strip_ansi("\u{1b}[1;32mok\u{1b}[m"), "ok");
    assert_eq!(strip_ansi("no codes"), "no codes");
    assert_eq!(strip_ansi("\u{1b}[12"), "\u{1b}[12");
    assert_eq!(strip_ansi("a\u{1b}[\u{1b}[0mm"), "a\u{1b}[m");
    assert_eq!(strip_ansi(""), "");
}

#[test]
fn test_filter_lines_with_given_drops() {
    assert_eq!(filter_lines("a\nb\nc", &[false, true]), "a\nc");
    assert_eq!(filter_lines("a\nb\nc", &[]), "a\nb\nc");
    assert_eq!(filter_lines("a\n\n\nb", &[true, true, true, true]), "");
    assert_eq!(filter_lines("x\n* Try:\n> hint\n\n* What went wrong:\ny", &[]), "x\n* What went wrong:\ny");
    assert_eq!(filter_lines("  \n\t\nkeep\n", &[]), "keep");
}

#[test]
fn test_invalid_extra_patterns_reported() {
    let rejected = invalid_extra_patterns(&[
        "[invalid".to_string(),
        "^ok$".to_string(),
        "(open".to_string(),
    ]);
    assert_eq!(rejected.len(), 2);
    assert_eq!(rejected[0].0, "[invalid");
    assert_eq!(rejected[1].0, "(open");
    assert!(!rejected[0].1.is_empty());
    assert!(invalid_extra_patterns(&["^a".to_string()]).is_empty());
}

#[test]
fn test_extra_patterns_only_remove_lines_on_values() {
    let input = "one

DROP two

three
DROP four

five";
    let base = apply_global_filters_with_extras(input, &None);
    let extras = compile_extra_patterns(&["^DROP".to_string()]);
    let out = apply_global_filters_with_extras(input, &extras);
    assert_eq!(base, "one

DROP two

three
DROP four

five");
    assert_eq!(out, "one

three

five");
    let base_lines: Vec<&str> = base.split('\n').collect();
    let mut it = base_lines.iter();
    for l in out.split('\n') {
        assert!(it.any(|b| *b == l));
    }
}
