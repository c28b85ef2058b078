use tarballin::line_slice::LineSlice;

#[test]
fn test_slice() {
    let content = "\nfn main() {\n    println!(\"Hello World!\");\n}\n";

    assert_eq!(
        LineSlice::build(content.as_bytes()),
        vec![
            LineSlice {
                start: 0,
                begin: 0,
                end: 0
            },
            LineSlice {
                start: 1,
                begin: 1,
                end: 12
            },
            LineSlice {
                start: 13,
                begin: 17,
                end: 42
            },
            LineSlice {
                start: 43,
                begin: 43,
                end: 44
            },
        ]
    );
}

#[test]
fn line_starts_of_short_program() {
    let content = "\nfn main() {\n    println(\"x\");\n}\n";
    let lines = LineSlice::build(content.as_bytes());
    assert_eq!(lines.len(), 4);
    assert_eq!(lines[0].start, 0);
    assert_eq!(lines[1].start, 1);
    assert_eq!(lines[2].start, 13);
    assert_eq!(lines[3].start, 31);
    // The empty first line has its begin at its own start.
    assert_eq!(lines[0].begin, lines[0].start);
    assert_eq!(lines[0].end, 0);
    // The indented line's begin skips the leading spaces.
    assert_eq!(lines[2].begin, 17);
}

#[test]
fn all_whitespace_line_begins_at_start() {
    let lines = LineSlice::build(b"   \nx\n");
    assert_eq!(lines[0], LineSlice { start: 0, begin: 0, end: 3 });
    assert_eq!(lines[1], LineSlice { start: 4, begin: 4, end: 5 });
}

#[test]
fn trailing_bytes_without_newline_make_no_record() {
    let lines = LineSlice::build(b"a\nbc");
    assert_eq!(lines.len(), 1);
    assert_eq!(lines[0], LineSlice { start: 0, begin: 0, end: 1 });
}
