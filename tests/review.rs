use vim_review::app::{matching_lines, App, Mode};
use vim_review::comment::{format_comments, Comment};
use vim_review::diff::{parse_diff, DiffLine};
use vim_review::vim::{handle_key_event, Key, KeyCode};

fn sample() -> Vec<DiffLine> {
    parse_diff("diff --git a/a.rs b/a.rs\n--- a/a.rs\n+++ b/a.rs\n@@ -40,4 +40,4 @@\n ctx40\n ctx41\n ctx42\n-gone\n+fresh\n")
}

fn key(c: char) -> Key {
    Key { code: KeyCode::Char(c), control: false }
}

fn press(app: &mut App, k: KeyCode) -> bool {
    handle_key_event(app, Key { code: k, control: false }, 20)
}

fn type_text(app: &mut App, s: &str) {
    for c in s.chars() {
        handle_key_event(app, key(c), 20);
    }
}

#[test]
fn page_up_stops_at_zero() {
    let mut app = App::new(sample(), Vec::new(), String::from("out.txt"));
    app.cursor = 2;
    app.page_up(10);
    assert_eq!(app.cursor, 0);
}

#[test]
fn navigation_stays_in_range() {
    let mut app = App::new(sample(), Vec::new(), String::new());
    let last = app.diff_lines.len() - 1;
    app.move_cursor_up();
    assert_eq!(app.cursor, 0);
    app.page_down(100);
    assert_eq!(app.cursor, last);
    app.move_cursor_down();
    assert_eq!(app.cursor, last);
    app.move_to_top();
    assert_eq!(app.cursor, 0);
    app.move_to_bottom();
    assert_eq!(app.cursor, last);
    app.page_up(3);
    assert_eq!(app.cursor, last - 3);
    app.page_down(usize::MAX);
    assert_eq!(app.cursor, last);
}

#[test]
fn navigation_on_empty_diff() {
    let mut app = App::new(Vec::new(), Vec::new(), String::new());
    app.move_cursor_down();
    app.move_to_bottom();
    app.page_down(5);
    app.page_up(5);
    assert_eq!(app.cursor, 0);
}

#[test]
fn comment_then_delete_at_cursor() {
    let mut app = App::new(sample(), Vec::new(), String::new());
    app.cursor = 6;
    assert_eq!(app.diff_lines[6].new_line_no, Some(42));
    app.save_comment(String::from("why?"));
    assert_eq!(app.comments.len(), 1);
    assert_eq!(app.comments[0].file_path, "a.rs");
    assert_eq!(app.comments[0].line_number, 42);
    app.delete_comment_at_cursor();
    assert!(app.comments.is_empty());
}

#[test]
fn delete_on_removed_line_is_noop() {
    let mut app = App::new(sample(), Vec::new(), String::new());
    app.cursor = 6;
    app.save_comment(String::from("keep"));
    app.cursor = 7;
    app.delete_comment_at_cursor();
    assert_eq!(app.comments.len(), 1);
    app.save_comment(String::from("ignored"));
    assert_eq!(app.comments.len(), 1);
}

#[test]
fn delete_removes_every_duplicate() {
    let mut app = App::new(sample(), Vec::new(), String::new());
    app.cursor = 6;
    app.save_comment(String::from("one"));
    app.cursor = 5;
    app.save_comment(String::from("other"));
    app.cursor = 6;
    app.save_comment(String::from("two"));
    assert_eq!(app.comments_at(6), vec![0, 2]);
    app.delete_comment_at_cursor();
    assert_eq!(app.comments.len(), 1);
    assert_eq!(app.comments[0].text, "other");
}

#[test]
fn context_captures_lines_before() {
    let mut app = App::new(sample(), Vec::new(), String::new());
    app.cursor = 5;
    app.save_comment(String::from("c"));
    app.move_to_bottom();
    assert_eq!(app.comments[0].context, vec![String::from(" ctx40"), String::from(" ctx41")]);
    app.cursor = 8;
    app.save_comment(String::from("d"));
    assert_eq!(
        app.comments[1].context,
        vec![String::from(" ctx41"), String::from(" ctx42"), String::from("-gone"), String::from("+fresh")]
    );
}

#[test]
fn search_is_case_insensitive_and_wraps() {
    let lines = parse_diff("Foo bar\nbaz\n  afoo\n");
    let mut app = App::new(lines, Vec::new(), String::new());
    app.search("foo");
    assert_eq!(app.search_matches, vec![0, 2]);
    assert_eq!(app.cursor, 0);
    app.next_match();
    assert_eq!(app.current_match, 1);
    assert_eq!(app.cursor, 2);
    app.next_match();
    assert_eq!(app.current_match, 0);
    assert_eq!(app.cursor, 0);
    app.prev_match();
    assert_eq!(app.current_match, 1);
    assert_eq!(app.cursor, 2);
}

#[test]
fn search_upper_query_and_no_match() {
    let lines = parse_diff("Foo bar\nbaz\n  afoo\n");
    let mut app = App::new(lines, Vec::new(), String::new());
    app.cursor = 1;
    app.search("BAZ");
    assert_eq!(app.search_matches, vec![1]);
    app.search("nothing");
    assert!(app.search_matches.is_empty());
    assert_eq!(app.cursor, 1);
    app.next_match();
    assert_eq!(app.cursor, 1);
    app.search("");
    assert!(app.search_matches.is_empty());
}

#[test]
fn matching_lines_on_folded_text() {
    let texts = vec![String::from("foo bar"), String::from("baz"), String::from("  afoo")];
    assert_eq!(matching_lines(&texts, &String::from("foo")), vec![0, 2]);
    assert_eq!(matching_lines(&texts, &String::from("Foo")), Vec::<usize>::new());
}

#[test]
fn insert_round_trip() {
    let mut app = App::new(sample(), Vec::new(), String::new());
    app.cursor = 6;
    handle_key_event(&mut app, key('o'), 20);
    type_text(&mut app, "looks good");
    assert_eq!(app.mode, Mode::Insert { comment_text: String::from("looks good") });
    press(&mut app, KeyCode::Esc);
    assert_eq!(app.mode, Mode::Normal);
    assert_eq!(app.comments.len(), 1);
    assert_eq!(app.comments[0].text, "looks good");
}

#[test]
fn insert_whitespace_only_makes_nothing() {
    let mut app = App::new(sample(), Vec::new(), String::new());
    app.cursor = 6;
    handle_key_event(&mut app, key('o'), 20);
    type_text(&mut app, "  ");
    press(&mut app, KeyCode::Enter);
    press(&mut app, KeyCode::Esc);
    assert_eq!(app.mode, Mode::Normal);
    assert!(app.comments.is_empty());
}

#[test]
fn insert_newline_and_backspace() {
    let mut app = App::new(sample(), Vec::new(), String::new());
    handle_key_event(&mut app, key('O'), 20);
    type_text(&mut app, "ab");
    press(&mut app, KeyCode::Enter);
    type_text(&mut app, "c");
    press(&mut app, KeyCode::Backspace);
    assert_eq!(app.mode, Mode::Insert { comment_text: String::from("ab\n") });
}

#[test]
fn force_quit_command_does_not_save() {
    let mut app = App::new(sample(), Vec::new(), String::new());
    assert!(!app.execute_command("q!"));
    assert!(app.should_quit);
}

#[test]
fn write_quit_saves_then_quits() {
    let mut app = App::new(sample(), Vec::new(), String::new());
    assert!(app.execute_command(" wq "));
    assert!(app.should_quit);
}

#[test]
fn other_commands() {
    let mut app = App::new(sample(), Vec::new(), String::new());
    assert!(app.execute_command("w"));
    assert!(!app.should_quit);
    assert!(!app.execute_command("nope"));
    assert!(!app.should_quit);
    assert!(app.execute_command("x"));
    assert!(app.should_quit);
    let mut app2 = App::new(sample(), Vec::new(), String::new());
    assert!(app2.execute_command("q"));
    assert!(app2.should_quit);
}

#[test]
fn command_mode_through_keys() {
    let mut app = App::new(sample(), Vec::new(), String::new());
    handle_key_event(&mut app, key(':'), 20);
    type_text(&mut app, "wq");
    assert!(press(&mut app, KeyCode::Enter));
    assert!(app.should_quit);
    assert_eq!(app.mode, Mode::Normal);
}

#[test]
fn search_mode_through_keys() {
    let mut app = App::new(sample(), Vec::new(), String::new());
    handle_key_event(&mut app, key('/'), 20);
    type_text(&mut app, "FRESH");
    assert!(!press(&mut app, KeyCode::Enter));
    assert_eq!(app.cursor, 8);
    handle_key_event(&mut app, key('/'), 20);
    type_text(&mut app, "x");
    press(&mut app, KeyCode::Esc);
    assert_eq!(app.mode, Mode::Normal);
    assert_eq!(app.search_matches, vec![8]);
}

#[test]
fn normal_mode_keys() {
    let mut app = App::new(sample(), Vec::new(), String::new());
    handle_key_event(&mut app, key('j'), 20);
    press(&mut app, KeyCode::Down);
    assert_eq!(app.cursor, 2);
    handle_key_event(&mut app, key('k'), 20);
    assert_eq!(app.cursor, 1);
    handle_key_event(&mut app, key('G'), 20);
    assert_eq!(app.cursor, 8);
    handle_key_event(&mut app, Key { code: KeyCode::Char('u'), control: true }, 10);
    assert_eq!(app.cursor, 3);
    handle_key_event(&mut app, Key { code: KeyCode::Char('d'), control: true }, 4);
    assert_eq!(app.cursor, 5);
    handle_key_event(&mut app, key('g'), 20);
    assert_eq!(app.cursor, 0);
    handle_key_event(&mut app, key('?'), 20);
    assert_eq!(app.mode, Mode::Help);
    handle_key_event(&mut app, key('j'), 20);
    assert_eq!(app.cursor, 0);
    handle_key_event(&mut app, key('q'), 20);
    assert_eq!(app.mode, Mode::Normal);
    assert!(!app.should_quit);
    handle_key_event(&mut app, key('q'), 20);
    assert!(app.should_quit);
}

#[test]
fn control_c_quits_in_every_mode() {
    let mut app = App::new(sample(), Vec::new(), String::new());
    handle_key_event(&mut app, key('o'), 20);
    handle_key_event(&mut app, Key { code: KeyCode::Char('c'), control: true }, 20);
    assert!(app.should_quit);
    assert_eq!(app.mode, Mode::Insert { comment_text: String::new() });
}

#[test]
fn scroll_keeps_cursor_visible() {
    let mut app = App::new(sample(), Vec::new(), String::new());
    app.cursor = 8;
    app.scroll_into_view(3);
    assert_eq!(app.scroll_offset, 6);
    app.cursor = 2;
    app.scroll_into_view(3);
    assert_eq!(app.scroll_offset, 2);
    app.scroll_into_view(3);
    assert_eq!(app.scroll_offset, 2);
}

#[test]
fn saved_text_format() {
    let comments = vec![
        Comment::new(String::from("a.rs"), 42, String::from("fix\nthis"), Vec::new()),
        Comment::new(String::from("b/c.rs"), 7, String::from("ok"), Vec::new()),
    ];
    assert_eq!(format_comments(&comments), "a.rs:42\nfix\nthis\n\nb/c.rs:7\nok\n\n");
    assert_eq!(format_comments(&Vec::new()), "");
}

#[test]
fn search_folds_non_ascii_case() {
    let lines = parse_diff("+ÄRGER hier\n ruhig\n");
    let mut app = App::new(lines, Vec::new(), String::new());
    app.search("ärger");
    assert_eq!(app.search_matches, vec![0]);
}

#[test]
fn comments_at_past_last_line_is_empty() {
    let mut app = App::new(sample(), Vec::new(), String::new());
    app.cursor = 6;
    app.save_comment(String::from("x"));
    assert_eq!(app.comments_at(6), vec![0]);
    assert!(app.comments_at(100).is_empty());
    assert!(app.comments_at(7).is_empty());
}

#[test]
fn saved_text_numbers_in_decimal() {
    let comments = vec![
        Comment::new(String::from("z.rs"), 0, String::from("a"), Vec::new()),
        Comment::new(String::from("z.rs"), 1090, String::from("b"), Vec::new()),
        Comment::new(String::from("z.rs"), usize::MAX, String::from("c"), Vec::new()),
    ];
    let expected = format!("z.rs:0\na\n\nz.rs:1090\nb\n\nz.rs:{}\nc\n\n", usize::MAX);
    assert_eq!(format_comments(&comments), expected);
}
