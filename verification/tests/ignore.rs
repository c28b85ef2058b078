use tarballin::coverage::Stats;
use tarballin::coverage::Trace;
use tarballin::ignore::FilterError;
use tarballin::ignore::Ignore;
use tarballin::ignore::IgnoreError;
use tarballin::ignore::IgnoreResult;

fn trace(line: u32, hits: usize) -> Trace {
    Trace {
        line,
        address: vec![],
        length: 0,
        stats: Stats { line: hits },
        fn_name: None,
    }
}

#[test]
fn test_basic_parse() {
    let content: &[u8] = b"src/main.rs\n\n";
    Ignore::parse(content).unwrap();
}

#[test]
fn test_query_parse() {
    let content: &[u8] = b"src/main.rs\n\t((function_item (identifier) @id) (#eq? @id \"main\"))";
    Ignore::parse(content).unwrap();
}

#[test]
fn test_odds_parse() {
    let content: &[u8] = b"\t\nsrc/main.rs\n";
    Ignore::parse(content).unwrap();
}

#[test]
fn test_match_ignore() {
    let content: &[u8] = b"src/main.rs";

    let ignore = Ignore::parse(content).unwrap();

    let res = ignore.matches(b"src/main.rs");
    assert!(
        matches!(res, IgnoreResult::Ignore),
        "expected {:?} found {:?}",
        IgnoreResult::Ignore,
        res
    );
}

#[test]
fn test_match_apply() {
    let content: &[u8] = b"src/main.rs";

    let ignore = Ignore::parse(content).unwrap();

    let res = ignore.matches(b"src/ignore.rs");
    assert!(
        matches!(res, IgnoreResult::Apply),
        "expected {:?} found {:?}",
        IgnoreResult::Apply,
        res
    );
}

#[test]
fn test_match_partial() {
    let content: &[u8] = b"src/main.rs\n\t((function_item (identifier) @id) (#eq? @id \"main\"))";

    let ignore = Ignore::parse(content).unwrap();

    let res = ignore.matches(b"src/main.rs");
    assert!(
        matches!(res, IgnoreResult::Partial(_)),
        "expected Partial found {:?}",
        res
    );
}

#[test]
fn first_matching_rule_decides() {
    // The first rule that matches the path wins, not the most specific one.
    let content: &[u8] = b"src/*.rs\nsrc/main.rs\n\t((function_item (identifier) @id) (#eq? @id \"main\"))";
    let ignore = Ignore::parse(content).unwrap();
    let res = ignore.matches(b"src/main.rs");
    assert!(
        matches!(res, IgnoreResult::Ignore),
        "expected the first (blanket) rule to win, found {:?}",
        res
    );
}

#[test]
fn unmatched_path_is_applied_in_full() {
    let ignore = Ignore::parse(b"tests/*.rs\n").unwrap();
    let res = ignore.matches(b"src/lib.rs");
    assert!(matches!(res, IgnoreResult::Apply));
}

#[test]
fn comment_and_orphan_query_lines_are_skipped() {
    // A comment, then an indented query with no rule above it: both dropped.
    let ignore = Ignore::parse(b"# header\n\t(function_item) @fn\nsrc/main.rs\n").unwrap();
    assert!(!ignore.is_empty());
    assert!(matches!(ignore.matches(b"src/main.rs"), IgnoreResult::Ignore));
}

#[test]
fn invalid_pattern_is_rejected() {
    let err = Ignore::parse(b"src/[\n").unwrap_err();
    assert_eq!(err, IgnoreError::InvalidPattern);
}

#[test]
fn invalid_query_is_rejected() {
    let err = Ignore::parse(b"src/main.rs\n\t((\n").unwrap_err();
    assert_eq!(err, IgnoreError::InvalidQuery);
}

#[test]
fn appended_rules_keep_source_order() {
    let mut ignore = Ignore::parse(b"src/*.rs\n").unwrap();
    let local = Ignore::parse(b"tests/*.rs\n").unwrap();
    ignore.append(local);
    assert!(matches!(ignore.matches(b"src/a.rs"), IgnoreResult::Ignore));
    assert!(matches!(ignore.matches(b"tests/a.rs"), IgnoreResult::Ignore));
    assert!(matches!(ignore.matches(b"build.rs"), IgnoreResult::Apply));
}

#[test]
fn ignore_filter_suppresses_everything() {
    let ignore = Ignore::parse(b"tests/*.rs\n").unwrap();
    let res = ignore.matches(b"tests/a.rs");
    let traces = vec![trace(1, 0), trace(2, 3), trace(9, 0)];
    // Content plays no part: even unparseable bytes are fine.
    let kept = res.filter(b"not rust at all {{{", &traces).unwrap();
    assert!(kept.is_empty());
}

#[test]
fn apply_filter_keeps_everything_in_order() {
    let ignore = Ignore::parse(b"tests/*.rs\n").unwrap();
    let res = ignore.matches(b"src/lib.rs");
    let traces = vec![trace(3, 0), trace(1, 2), trace(7, 0)];
    let kept = res.filter(b"fn a() {}\n", &traces).unwrap();
    let lines: Vec<u32> = kept.iter().map(|t| t.line).collect();
    assert_eq!(lines, vec![3, 1, 7]);
    let hits: Vec<usize> = kept.iter().map(|t| t.stats.line).collect();
    assert_eq!(hits, vec![0, 2, 0]);
}

#[test]
fn partial_filter_drops_traces_inside_captured_functions() {
    let rules: &[u8] = b"src/main.rs\n\t(function_item) @fn\n";
    let ignore = Ignore::parse(rules).unwrap();
    let res = ignore.matches(b"src/main.rs");
    assert!(matches!(res, IgnoreResult::Partial(_)));

    // Rows 0-2 hold main, rows 3-4 hold helper; row 6 is a plain item.
    let content: &[u8] = b"fn main() {\n    helper();\n}\nfn helper() {\n}\n\ntype Alias = u32;\n";
    let traces = vec![trace(1, 0), trace(2, 0), trace(4, 0), trace(5, 0), trace(7, 0)];
    let kept = res.filter(content, &traces).unwrap();
    let lines: Vec<u32> = kept.iter().map(|t| t.line).collect();
    // Lines within a captured row range (inclusive) are removed; the ranges
    // are compared against the trace's 1-based line as the pipeline stores it.
    assert_eq!(lines, vec![5, 7]);
}

#[test]
fn partial_filter_keeps_traces_of_an_empty_file() {
    // An empty file parses to an empty tree: the queries capture nothing and
    // every trace survives. (The `FilterError::Parse` failure cannot be
    // provoked here: the grammar's error recovery parses any byte sequence.)
    let rules: &[u8] = b"src/main.rs\n\t(function_item) @fn\n";
    let ignore = Ignore::parse(rules).unwrap();
    let res = ignore.matches(b"src/main.rs");
    let traces = vec![trace(1, 0)];
    let kept: Result<_, FilterError> = res.filter(b"", &traces);
    assert_eq!(kept.unwrap().len(), 1);
}
