//! The modal input dispatcher: one key press, read in the current mode,
//! becomes one change of the review state.

use vstd::prelude::*;
use crate::app::{draft_of, App, Mode};

verus! {

/// The keys that the dispatcher tells apart; every other key is `Other`.
#[derive(Debug, Clone, Copy, PartialEq, Eq, Structural)]
pub enum KeyCode {
    Char(char),
    Up,
    Down,
    Enter,
    Esc,
    Backspace,
    Other,
}

/// A key press: the key and whether Control was held.
#[derive(Debug, Clone, Copy, PartialEq, Eq, Structural)]
pub struct Key {
    pub code: KeyCode,
    pub control: bool,
}

/// What a key does in Normal mode; a page is half the terminal height.
pub open spec fn normal_effect(pre: App, post: App, key: Key, height: usize) -> bool {
    let c = key.code;
    if c == KeyCode::Char('q') {
        post == pre.quitted()
    } else if c == KeyCode::Char('j') || c == KeyCode::Down {
        post == pre.down()
    } else if c == KeyCode::Char('k') || c == KeyCode::Up {
        post == pre.up()
    } else if c == KeyCode::Char('g') {
        post == pre.top()
    } else if c == KeyCode::Char('G') {
        post == pre.bottom()
    } else if c == KeyCode::Char('d') && key.control {
        post == pre.paged_down(height / 2)
    } else if c == KeyCode::Char('u') && key.control {
        post == pre.paged_up(height / 2)
    } else if c == KeyCode::Char('o') || c == KeyCode::Char('O') {
        App::entered(pre, post) && post.mode is Insert
    } else if c == KeyCode::Char('d') {
        App::deleted(pre, post)
    } else if c == KeyCode::Char('/') {
        App::entered(pre, post) && post.mode is Search
    } else if c == KeyCode::Char('n') {
        post == pre.next_matched()
    } else if c == KeyCode::Char('N') {
        post == pre.prev_matched()
    } else if c == KeyCode::Char(':') {
        App::entered(pre, post) && post.mode is Command
    } else if c == KeyCode::Char('?') {
        post == pre.help_toggled()
    } else {
        post == pre
    }
}

/// What a key does in a draft mode: Esc cancels (in Insert it commits the
/// comment), Enter commits (in Insert it starts a new line), characters and
/// Backspace edit the draft.
pub open spec fn draft_effect(pre: App, post: App, key: Key, save: bool) -> bool {
    let c = key.code;
    let d = draft_of(pre.mode);
    if c == KeyCode::Esc {
        !save && if pre.mode is Insert {
            App::committed(pre, post)
        } else {
            post == pre.to_normal()
        }
    } else if c == KeyCode::Enter {
        if pre.mode is Insert {
            !save && App::drafted(pre, post, d.push('\n'))
        } else if pre.mode is Search {
            !save && App::searched(pre.to_normal(), post, d)
        } else {
            App::commanded(pre.to_normal(), post, d, save)
        }
    } else if c is Char {
        !save && App::drafted(pre, post, d.push(c->0))
    } else if c == KeyCode::Backspace {
        !save && App::drafted(pre, post, App::erased_draft(d))
    } else {
        !save && post == pre
    }
}

/// What a key does in Help mode: Esc, `?` and `q` close it.
pub open spec fn help_effect(pre: App, post: App, key: Key) -> bool {
    let c = key.code;
    if c == KeyCode::Esc || c == KeyCode::Char('?') || c == KeyCode::Char('q') {
        post == pre.to_normal()
    } else {
        post == pre
    }
}

/// What a key does in any mode. Control-C quits from every mode.
pub open spec fn key_effect(pre: App, post: App, key: Key, height: usize, save: bool) -> bool {
    if key.control && key.code == KeyCode::Char('c') {
        !save && post == pre.quitted()
    } else if pre.mode is Normal {
        !save && normal_effect(pre, post, key, height)
    } else if pre.mode is Help {
        !save && help_effect(pre, post, key)
    } else {
        draft_effect(pre, post, key, save)
    }
}

/// Applies one key press to the review state. Returns whether the comments
/// are to be written out (a saving command was committed).
pub fn handle_key_event(app: &mut App, key: Key, terminal_height: usize) -> (save: bool)
    requires
        old(app).wf(),
    ensures
        final(app).wf(),
        key_effect(*old(app), *final(app), key, terminal_height, save),
{
    if key.control && key.code == KeyCode::Char('c') {
        app.quit();
        return false;
    }
    if matches!(app.mode, Mode::Normal) {
        handle_normal_mode(app, key, terminal_height);
        false
    } else if matches!(app.mode, Mode::Help) {
        handle_help_mode(app, key);
        false
    } else {
        handle_draft_mode(app, key)
    }
}

fn handle_normal_mode(app: &mut App, key: Key, terminal_height: usize)
    requires
        old(app).wf(),
        old(app).mode is Normal,
    ensures
        final(app).wf(),
        normal_effect(*old(app), *final(app), key, terminal_height),
{
    match key.code {
        KeyCode::Char('q') => app.quit(),
        KeyCode::Char('j') | KeyCode::Down => app.move_cursor_down(),
        KeyCode::Char('k') | KeyCode::Up => app.move_cursor_up(),
        KeyCode::Char('g') => app.move_to_top(),
        KeyCode::Char('G') => app.move_to_bottom(),
        KeyCode::Char('d') if key.control => app.page_down(terminal_height / 2),
        KeyCode::Char('u') if key.control => app.page_up(terminal_height / 2),
        KeyCode::Char('o') | KeyCode::Char('O') => app.enter_insert_mode(),
        KeyCode::Char('d') => app.delete_comment_at_cursor(),
        KeyCode::Char('/') => app.enter_search_mode(),
        KeyCode::Char('n') => app.next_match(),
        KeyCode::Char('N') => app.prev_match(),
        KeyCode::Char(':') => app.enter_command_mode(),
        KeyCode::Char('?') => app.toggle_help(),
        _ => {},
    }
}

fn handle_help_mode(app: &mut App, key: Key)
    requires
        old(app).wf(),
        old(app).mode is Help,
    ensures
        final(app).wf(),
        help_effect(*old(app), *final(app), key),
{
    match key.code {
        KeyCode::Esc | KeyCode::Char('?') | KeyCode::Char('q') => {
            app.mode = Mode::Normal;
        },
        _ => {},
    }
}

fn handle_draft_mode(app: &mut App, key: Key) -> (save: bool)
    requires
        old(app).wf(),
        old(app).mode is Insert || old(app).mode is Search || old(app).mode is Command,
    ensures
        final(app).wf(),
        draft_effect(*old(app), *final(app), key, save),
{
    match key.code {
        KeyCode::Esc => {
            if matches!(app.mode, Mode::Insert { .. }) {
                app.exit_to_normal_mode();
            } else {
                app.mode = Mode::Normal;
            }
            false
        },
        KeyCode::Enter => {
            if matches!(app.mode, Mode::Insert { .. }) {
                app.push_draft('\n');
                false
            } else {
                let mut m = Mode::Normal;
                std::mem::swap(&mut m, &mut app.mode);
                match m {
                    Mode::Search { query } => {
                        app.search(query.as_str());
                        false
                    },
                    Mode::Command { command } => app.execute_command(command.as_str()),
                    _ => false,
                }
            }
        },
        KeyCode::Char(c) => {
            app.push_draft(c);
            false
        },
        KeyCode::Backspace => {
            app.pop_draft();
            false
        },
        _ => false,
    }
}

} // verus!
