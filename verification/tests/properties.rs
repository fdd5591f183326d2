use logrep::LinePred;
use logrep::Searcher;
use logrep::create_block_searcher;
use logrep::split_lines;
use logrep::str_contains;

const SCENARIO: &str = "Logrep\n---\ntext\n---\nlog line\n---\nend";

#[test]
fn scenario_substring_case_sensitive() {
    // Case-sensitively, "log" occurs only in the third block: "Logrep" has a
    // capital L, so the first block is not retained.
    let searcher = create_block_searcher("^---$", "log", false, false, false).unwrap();
    let result = searcher.search_from_str(SCENARIO);
    assert_eq!(result, vec!["---", "log line"]);
}

#[test]
fn scenario_substring_case_insensitive() {
    // Folded, "log" occurs in the first block ("Logrep") and the third
    // ("log line"), so exactly those two blocks are retained.
    let searcher = create_block_searcher("^---$", "log", false, true, false).unwrap();
    let result = searcher.search_from_str(SCENARIO);
    assert_eq!(result, vec!["Logrep", "---", "log line"]);
}

#[test]
fn scenario_exclude_case_sensitive() {
    // Exclude mode keeps the blocks entirely free of the pattern. The first
    // block never saw a delimiter line but is evaluated like any other, and
    // "Logrep" does not contain "log" case-sensitively, so it is retained.
    let searcher = create_block_searcher("^---$", "log", false, false, true).unwrap();
    let result = searcher.search_from_str(SCENARIO);
    assert_eq!(result, vec!["Logrep", "---", "text", "---", "end"]);
}

#[test]
fn scenario_exclude_case_insensitive() {
    let searcher = create_block_searcher("^---$", "log", false, true, true).unwrap();
    let result = searcher.search_from_str(SCENARIO);
    assert_eq!(result, vec!["---", "text", "---", "end"]);
}

#[test]
fn scenario_regex_case_insensitive() {
    // The case-insensitive regular expression "L.g" must match both "Logrep"
    // and "log line".
    let pred = LinePred::regex("(?i)L.g").unwrap();
    assert!(pred.eval("Logrep"));
    assert!(pred.eval("log line"));

    let searcher = create_block_searcher("^---$", "L.g", true, true, false).unwrap();
    let result = searcher.search_from_str(SCENARIO);
    assert_eq!(result, vec!["Logrep", "---", "log line"]);
}

#[test]
fn empty_input_both_modes() {
    let keep = create_block_searcher("^---$", "log", false, false, false).unwrap();
    assert_eq!(keep.search_from_str(""), Vec::<&str>::new());
    let drop = create_block_searcher("^---$", "log", false, false, true).unwrap();
    assert_eq!(drop.search_from_str(""), Vec::<&str>::new());
}

#[test]
fn no_delimiter_forms_one_block() {
    // No line matches the delimiter: the whole input is a single block,
    // retained or dropped as one unit.
    let text = "abc\ndef";
    let hit = create_block_searcher("^---$", "abc", false, false, false).unwrap();
    assert_eq!(hit.search_from_str(text), vec!["abc", "def"]);
    let miss = create_block_searcher("^---$", "zz", false, false, false).unwrap();
    assert_eq!(miss.search_from_str(text), Vec::<&str>::new());
    let excl = create_block_searcher("^---$", "zz", false, false, true).unwrap();
    assert_eq!(excl.search_from_str(text), vec!["abc", "def"]);
}

#[test]
fn rerun_is_identical() {
    let searcher = create_block_searcher("^---$", "log", false, true, false).unwrap();
    let first = searcher.search_from_str(SCENARIO);
    let second = searcher.search_from_str(SCENARIO);
    assert_eq!(first, second);
}

fn expect_compile_error(
    r: Result<logrep::BlockSearcher, logrep::PatternCompileError>,
) -> logrep::PatternCompileError {
    match r {
        Err(e) => e,
        Ok(_) => panic!("expected a pattern compile error"),
    }
}

#[test]
fn invalid_delimiter_reports_pattern() {
    let err = expect_compile_error(create_block_searcher("(", "log", false, false, false));
    assert_eq!(err.pattern, "(");
    assert!(!err.message.is_empty());
}

#[test]
fn invalid_pattern_reports_pattern() {
    let err = expect_compile_error(create_block_searcher("^---$", "(", true, false, false));
    assert_eq!(err.pattern, "(");
    let err = expect_compile_error(create_block_searcher("^---$", "(", true, true, false));
    assert_eq!(err.pattern, "(?i)(");
}

#[test]
fn invalid_pattern_ignored_without_regex_mode() {
    // Outside regex mode the pattern is plain text and never fails to
    // compile.
    let searcher = create_block_searcher("^---$", "(", false, false, false).unwrap();
    assert_eq!(searcher.search_from_str("a(b\nc"), vec!["a(b", "c"]);
}

#[test]
fn folding_is_applied_to_pattern_and_line() {
    // An upper-case stored pattern must match a lower-case line and the other
    // way round: both sides go through case folding.
    let upper = create_block_searcher("^---$", "LOG", false, true, false).unwrap();
    assert_eq!(upper.search_from_str("some log here"), vec!["some log here"]);
    let lower = create_block_searcher("^---$", "log", false, true, false).unwrap();
    assert_eq!(lower.search_from_str("SOME LOG HERE"), vec!["SOME LOG HERE"]);
}

#[test]
fn regex_predicate_rejects_nonmatching_line() {
    let pred = LinePred::regex("xyz").unwrap();
    assert!(!pred.eval("abc"));
    assert!(pred.eval("wxyz!"));
}

#[test]
fn substring_containment() {
    assert!(str_contains("hello", "ell"));
    assert!(str_contains("hello", ""));
    assert!(str_contains("", ""));
    assert!(!str_contains("hello", "xyz"));
    assert!(!str_contains("", "a"));
    assert!(str_contains("aab", "ab"));
}

#[test]
fn line_splitting() {
    assert_eq!(split_lines(""), Vec::<&str>::new());
    assert_eq!(split_lines("a"), vec!["a"]);
    assert_eq!(split_lines("a\n"), vec!["a"]);
    assert_eq!(split_lines("\n"), vec![""]);
    assert_eq!(split_lines("a\nb"), vec!["a", "b"]);
    assert_eq!(split_lines("a\n\nb\n"), vec!["a", "", "b"]);
}

#[test]
fn delimiter_line_is_matchable() {
    // The delimiter line itself is tested against the pattern like any other
    // line of its block.
    let searcher = create_block_searcher("^==", "==x", false, false, false).unwrap();
    assert_eq!(searcher.search_from_str("a\n==x\nb"), vec!["==x", "b"]);
}
