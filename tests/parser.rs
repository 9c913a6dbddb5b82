use vim_review::diff::{parse_diff, LineType};

#[test]
fn two_hunks_restart_new_numbers() {
    let text = "diff --git a/src/lib.rs b/src/lib.rs\n--- a/src/lib.rs\n+++ b/src/lib.rs\n@@ -1,3 +1,4 @@\n one\n+two\n three\n four\n@@ -10,2 +11,3 @@\n ten\n+eleven\n twelve\n";
    let lines = parse_diff(text);
    assert_eq!(lines.len(), 12);
    assert_eq!(lines[3].line_type, LineType::HunkHeader);
    assert_eq!(lines[4].new_line_no, Some(1));
    assert_eq!(lines[4].old_line_no, Some(1));
    assert_eq!(lines[5].line_type, LineType::Added);
    assert_eq!(lines[5].new_line_no, Some(2));
    assert_eq!(lines[5].old_line_no, None);
    assert_eq!(lines[7].new_line_no, Some(4));
    assert_eq!(lines[8].line_type, LineType::HunkHeader);
    assert_eq!(lines[9].new_line_no, Some(11));
    assert_eq!(lines[9].old_line_no, Some(10));
    assert_eq!(lines[10].new_line_no, Some(12));
    assert_eq!(lines[11].new_line_no, Some(13));
    assert_eq!(lines[11].old_line_no, Some(11));
}

#[test]
fn headers_carry_no_numbers() {
    let text = "diff --git a/x.rs b/x.rs\n--- a/x.rs\n+++ b/x.rs\n@@ -3 +3 @@\n-old\n+new\n";
    let lines = parse_diff(text);
    for l in &lines {
        if l.line_type == LineType::FileHeader || l.line_type == LineType::HunkHeader {
            assert_eq!(l.old_line_no, None);
            assert_eq!(l.new_line_no, None);
        }
    }
    assert_eq!(lines[4].line_type, LineType::Removed);
    assert_eq!(lines[4].old_line_no, Some(3));
    assert_eq!(lines[4].new_line_no, None);
    assert_eq!(lines[5].new_line_no, Some(3));
}

#[test]
fn file_path_comes_from_marker() {
    let text = "diff --git a/src/main.rs b/src/main.rs\n@@ -1 +1 @@\n x\ndiff --git a/a/b.rs b/a/b.rs\n+y\n";
    let lines = parse_diff(text);
    assert_eq!(lines[0].file_path, "src/main.rs");
    assert_eq!(lines[2].file_path, "src/main.rs");
    assert_eq!(lines[3].file_path, "b.rs");
    assert_eq!(lines[4].file_path, "b.rs");
}

#[test]
fn malformed_hunk_header_keeps_counters() {
    let text = "@@ -5,2 +7,2 @@\n a\n@@ bogus\n b\n@@ -x +y @@\n c\n";
    let lines = parse_diff(text);
    assert_eq!(lines.len(), 6);
    assert_eq!(lines[1].new_line_no, Some(7));
    assert_eq!(lines[2].line_type, LineType::HunkHeader);
    assert_eq!(lines[3].new_line_no, Some(8));
    assert_eq!(lines[3].old_line_no, Some(6));
    assert_eq!(lines[5].new_line_no, Some(9));
}

#[test]
fn blank_and_diff_lines_are_dropped() {
    let text = "diff -r abc file.txt\n@@ -1 +1 @@\n\nplain\n";
    let lines = parse_diff(text);
    assert_eq!(lines.len(), 2);
    assert_eq!(lines[1].line_type, LineType::Context);
    assert_eq!(lines[1].content, "plain");
    assert_eq!(lines[1].new_line_no, Some(1));
}

#[test]
fn empty_text_parses_to_nothing() {
    assert!(parse_diff("").is_empty());
}

#[test]
fn crlf_line_endings_are_stripped() {
    let text = "@@ -2 +4 @@\r\n+added\r\n";
    let lines = parse_diff(text);
    assert_eq!(lines[1].content, "+added");
    assert_eq!(lines[1].new_line_no, Some(4));
}

#[test]
fn hunk_start_with_plus_sign_and_no_count() {
    let text = "@@ -12 +20 @@ fn x()\n-a\n+b\n";
    let lines = parse_diff(text);
    assert_eq!(lines[1].old_line_no, Some(12));
    assert_eq!(lines[2].new_line_no, Some(20));
}
