//! The review state: cursor, mode, search results and comments, and every
//! change that navigation, authoring, search and commands make to it.

use vstd::prelude::*;
use crate::comment::{Comment, CommentRecord, texts};
use crate::diff::{records, DiffLine, LineRecord, LineType};
use crate::text::{chars_of, contains_seq, contains_str, lower_of, lowercase, pop_char, push_char, trim_bounds, trimmed};

verus! {

/// The modal state. Each draft mode carries the text typed so far.
#[derive(Debug, Clone, PartialEq, Eq)]
pub enum Mode {
    Normal,
    Insert { comment_text: String },
    Search { query: String },
    Command { command: String },
    Help,
}

/// The text typed so far in a draft mode; empty in the others.
pub open spec fn draft_of(m: Mode) -> Seq<char> {
    match m {
        Mode::Insert { comment_text } => comment_text@,
        Mode::Search { query } => query@,
        Mode::Command { command } => command@,
        _ => seq![],
    }
}

pub open spec fn is_draft(m: Mode) -> bool {
    m is Insert || m is Search || m is Command
}

pub open spec fn same_kind(a: Mode, b: Mode) -> bool {
    &&& (a is Normal <==> b is Normal)
    &&& (a is Insert <==> b is Insert)
    &&& (a is Search <==> b is Search)
    &&& (a is Command <==> b is Command)
    &&& (a is Help <==> b is Help)
}

/// The contents of the window `[start, end)` of lines, headers left out, in order.
pub open spec fn context_window(lines: Seq<LineRecord>, start: int, end: int) -> Seq<Seq<char>>
    decreases end - start,
{
    if end <= start {
        seq![]
    } else {
        let prev = context_window(lines, start, end - 1);
        let l = lines[end - 1];
        if l.line_type == LineType::FileHeader || l.line_type == LineType::HunkHeader {
            prev
        } else {
            prev.push(l.content)
        }
    }
}

/// The number of lines before a commented line whose contents the comment keeps.
pub const CONTEXT_SIZE: usize = 3;

/// The context kept for a comment on line `index`: lines `index - size`
/// (floored at 0) through `index`, headers left out; lines past the last one
/// are not there to take.
pub open spec fn context_before(lines: Seq<LineRecord>, index: int, size: int) -> Seq<Seq<char>> {
    let start = if index >= size {
        index - size
    } else {
        0
    };
    let end = if index + 1 <= lines.len() {
        index + 1
    } else {
        lines.len() as int
    };
    context_window(lines, start, end)
}

/// The comments that are not keyed to `(file, line)`, in order.
pub open spec fn without_key(cs: Seq<Comment>, file: Seq<char>, line: usize) -> Seq<Comment>
    decreases cs.len(),
{
    if cs.len() == 0 {
        cs
    } else {
        let rest = without_key(cs.drop_last(), file, line);
        if cs.last().file_path@ == file && cs.last().line_number == line {
            rest
        } else {
            rest.push(cs.last())
        }
    }
}

/// The indices below `n` of the texts that contain `q`, in increasing order.
pub open spec fn found_in(texts: Seq<Seq<char>>, q: Seq<char>, n: int) -> Seq<usize>
    decreases n,
{
    if n <= 0 {
        seq![]
    } else {
        let prev = found_in(texts, q, n - 1);
        if contains_seq(texts[n - 1], q) {
            prev.push((n - 1) as usize)
        } else {
            prev
        }
    }
}

/// The lowercased contents of the lines.
pub open spec fn folded_contents(lines: Seq<LineRecord>) -> Seq<Seq<char>> {
    lines.map_values(|l: LineRecord| lower_of(l.content))
}

/// The indices of the lines whose content contains the query, both
/// lowercased; none for an empty query.
pub open spec fn search_result(lines: Seq<LineRecord>, q: Seq<char>) -> Seq<usize> {
    if q.len() == 0 {
        seq![]
    } else {
        found_in(folded_contents(lines), lower_of(q), lines.len() as int)
    }
}

pub open spec fn command_saves(c: Seq<char>) -> bool {
    c == seq!['w'] || c == seq!['w', 'q'] || c == seq!['x'] || c == seq!['q']
}

pub open spec fn command_quits(c: Seq<char>) -> bool {
    c == seq!['w', 'q'] || c == seq!['x'] || c == seq!['q'] || c == seq!['q', '!']
}

/// The indices below `n` of the comments keyed to `(file, line)`, in order.
pub open spec fn keyed(cs: Seq<Comment>, file: Seq<char>, line: usize, n: int) -> Seq<usize>
    decreases n,
{
    if n <= 0 {
        seq![]
    } else {
        let prev = keyed(cs, file, line, n - 1);
        if cs[n - 1].file_path@ == file && cs[n - 1].line_number == line {
            prev.push((n - 1) as usize)
        } else {
            prev
        }
    }
}

pub struct App {
    pub diff_lines: Vec<DiffLine>,
    pub comments: Vec<Comment>,
    pub cursor: usize,
    pub scroll_offset: usize,
    pub mode: Mode,
    pub should_quit: bool,
    pub search_matches: Vec<usize>,
    pub current_match: usize,
    pub output_file: String,
}

impl App {
    /// The index of the last line, or 0 when there are none.
    pub open spec fn last_index(&self) -> int {
        if self.diff_lines@.len() == 0 {
            0
        } else {
            self.diff_lines@.len() - 1
        }
    }

    /// The cursor is on a line (at 0 when there are none), every search match
    /// is a line, and the current match is one of them.
    pub open spec fn wf(&self) -> bool {
        &&& self.cursor <= self.last_index()
        &&& forall|k: int|
            0 <= k < self.search_matches@.len() ==> #[trigger] self.search_matches@[k]
                < self.diff_lines@.len()
        &&& self.search_matches@.len() > 0 ==> self.current_match < self.search_matches@.len()
    }

    pub open spec fn lines(&self) -> Seq<LineRecord> {
        records(self.diff_lines@)
    }

    pub open spec fn with_cursor(self, c: int) -> App {
        App { cursor: c as usize, ..self }
    }

    pub open spec fn down(self) -> App {
        self.with_cursor(
            if self.cursor < self.last_index() {
                self.cursor + 1
            } else {
                self.cursor as int
            },
        )
    }

    pub open spec fn up(self) -> App {
        self.with_cursor(
            if self.cursor > 0 {
                self.cursor - 1
            } else {
                0
            },
        )
    }

    pub open spec fn top(self) -> App {
        App { cursor: 0, scroll_offset: 0, ..self }
    }

    pub open spec fn bottom(self) -> App {
        self.with_cursor(self.last_index())
    }

    pub open spec fn paged_down(self, page: usize) -> App {
        self.with_cursor(
            if self.cursor + page < self.last_index() {
                self.cursor + page
            } else {
                self.last_index()
            },
        )
    }

    pub open spec fn paged_up(self, page: usize) -> App {
        self.with_cursor(
            if self.cursor > page {
                self.cursor - page
            } else {
                0
            },
        )
    }

    pub open spec fn quitted(self) -> App {
        App { should_quit: true, ..self }
    }

    pub open spec fn to_normal(self) -> App {
        App { mode: Mode::Normal, ..self }
    }

    pub open spec fn help_toggled(self) -> App {
        App {
            mode: if self.mode is Help {
                Mode::Normal
            } else {
                Mode::Help
            },
            ..self
        }
    }

    pub open spec fn next_matched(self) -> App {
        if self.search_matches@.len() == 0 {
            self
        } else {
            let m = (self.current_match + 1) % (self.search_matches@.len() as int);
            App { current_match: m as usize, cursor: self.search_matches@[m], ..self }
        }
    }

    pub open spec fn prev_matched(self) -> App {
        if self.search_matches@.len() == 0 {
            self
        } else {
            let m = if self.current_match == 0 {
                self.search_matches@.len() - 1
            } else {
                self.current_match - 1
            };
            App { current_match: m as usize, cursor: self.search_matches@[m], ..self }
        }
    }

    /// `post` is `pre` in another mode, with nothing typed.
    pub open spec fn entered(pre: App, post: App) -> bool {
        &&& post == App { mode: post.mode, ..pre }
        &&& draft_of(post.mode) == Seq::<char>::empty()
    }

    /// `post` is `pre` with the draft text changed to `d`, in the same mode.
    pub open spec fn drafted(pre: App, post: App, d: Seq<char>) -> bool {
        &&& post == App { mode: post.mode, ..pre }
        &&& same_kind(post.mode, pre.mode)
        &&& draft_of(post.mode) == d
    }

    pub open spec fn erased_draft(d: Seq<char>) -> Seq<char> {
        if d.len() == 0 {
            d
        } else {
            d.drop_last()
        }
    }

    /// The comment that text `t` makes at the cursor, when the cursor line has
    /// a new-side number.
    pub open spec fn comment_at_cursor(&self, t: Seq<char>) -> Option<CommentRecord> {
        if self.cursor < self.diff_lines@.len() && self.lines()[self.cursor as int].new_line_no is Some {
            let l = self.lines()[self.cursor as int];
            Some(
                CommentRecord {
                    file_path: l.file_path,
                    line_number: l.new_line_no->0,
                    text: t,
                    context: context_before(self.lines(), self.cursor as int, CONTEXT_SIZE as int),
                },
            )
        } else {
            None
        }
    }

    /// `post` is `pre` with comment `c`, if any, appended to the comments.
    pub open spec fn appended(pre: App, post: App, c: Option<CommentRecord>) -> bool {
        &&& post == App { comments: post.comments, ..pre }
        &&& match c {
            Some(r) => post.comments@.len() == pre.comments@.len() + 1 && post.comments@.drop_last()
                == pre.comments@ && post.comments@.last()@ == r,
            None => post.comments@ == pre.comments@,
        }
    }

    /// `post` is `pre` in Normal mode, with a comment made from the Insert
    /// draft when it holds more than whitespace.
    pub open spec fn committed(pre: App, post: App) -> bool {
        App::appended(
            pre.to_normal(),
            post,
            if pre.mode is Insert && trimmed(draft_of(pre.mode)).len() > 0 {
                pre.comment_at_cursor(draft_of(pre.mode))
            } else {
                None
            },
        )
    }

    /// `post` is `pre` without the comments keyed to the cursor line, when
    /// that line has a new-side number.
    pub open spec fn deleted(pre: App, post: App) -> bool {
        &&& post == App { comments: post.comments, ..pre }
        &&& if pre.cursor < pre.diff_lines@.len() && pre.lines()[pre.cursor as int].new_line_no is Some {
            let l = pre.lines()[pre.cursor as int];
            post.comments@ == without_key(pre.comments@, l.file_path, l.new_line_no->0)
        } else {
            post.comments@ == pre.comments@
        }
    }

    /// `post` is `pre` after searching for `q`: the matches are found anew,
    /// the first is current, and the cursor is on it if there is one.
    pub open spec fn searched(pre: App, post: App, q: Seq<char>) -> bool {
        let found = search_result(pre.lines(), q);
        &&& post == App {
            search_matches: post.search_matches,
            current_match: 0,
            cursor: if found.len() > 0 {
                found[0]
            } else {
                pre.cursor
            },
            ..pre
        }
        &&& post.search_matches@ == found
    }

    /// `post` is `pre` after command `c`, and `save` says whether the comments
    /// are to be written out.
    pub open spec fn commanded(pre: App, post: App, c: Seq<char>, save: bool) -> bool {
        &&& save == command_saves(trimmed(c))
        &&& post == App { should_quit: pre.should_quit || command_quits(trimmed(c)), ..pre }
    }

    pub fn new(diff_lines: Vec<DiffLine>, comments: Vec<Comment>, output_file: String) -> (r: Self)
        ensures
            r.wf(),
            r == (App {
                diff_lines,
                comments,
                cursor: 0,
                scroll_offset: 0,
                mode: Mode::Normal,
                should_quit: false,
                search_matches: r.search_matches,
                current_match: 0,
                output_file,
            }),
            r.search_matches@.len() == 0,
    {
        App {
            diff_lines,
            comments,
            cursor: 0,
            scroll_offset: 0,
            mode: Mode::Normal,
            should_quit: false,
            search_matches: Vec::new(),
            current_match: 0,
            output_file,
        }
    }

    pub fn move_cursor_down(&mut self)
        requires
            old(self).wf(),
        ensures
            final(self).wf(),
            *final(self) == old(self).down(),
    {
        let len = self.diff_lines.len();
        if len > 0 && self.cursor < len - 1 {
            self.cursor += 1;
        }
    }

    pub fn move_cursor_up(&mut self)
        requires
            old(self).wf(),
        ensures
            final(self).wf(),
            *final(self) == old(self).up(),
    {
        if self.cursor > 0 {
            self.cursor -= 1;
        }
    }

    pub fn move_to_top(&mut self)
        requires
            old(self).wf(),
        ensures
            final(self).wf(),
            *final(self) == old(self).top(),
    {
        self.cursor = 0;
        self.scroll_offset = 0;
    }

    fn last_line(&self) -> (r: usize)
        ensures
            r == self.last_index(),
    {
        let len = self.diff_lines.len();
        if len == 0 {
            0
        } else {
            len - 1
        }
    }

    pub fn move_to_bottom(&mut self)
        requires
            old(self).wf(),
        ensures
            final(self).wf(),
            *final(self) == old(self).bottom(),
    {
        self.cursor = self.last_line();
    }

    /// Moves the cursor `page_size` lines down, stopping at the last line.
    pub fn page_down(&mut self, page_size: usize)
        requires
            old(self).wf(),
        ensures
            final(self).wf(),
            *final(self) == old(self).paged_down(page_size),
    {
        let last = self.last_line();
        if page_size < last - self.cursor {
            self.cursor = self.cursor + page_size;
        } else {
            self.cursor = last;
        }
    }

    /// Moves the cursor `page_size` lines up, stopping at the first line.
    pub fn page_up(&mut self, page_size: usize)
        requires
            old(self).wf(),
        ensures
            final(self).wf(),
            *final(self) == old(self).paged_up(page_size),
    {
        if self.cursor > page_size {
            self.cursor = self.cursor - page_size;
        } else {
            self.cursor = 0;
        }
    }

    pub fn enter_insert_mode(&mut self)
        requires
            old(self).wf(),
        ensures
            final(self).wf(),
            App::entered(*old(self), *final(self)),
            final(self).mode is Insert,
    {
        self.mode = Mode::Insert { comment_text: String::new() };
    }

    pub fn enter_search_mode(&mut self)
        requires
            old(self).wf(),
        ensures
            final(self).wf(),
            App::entered(*old(self), *final(self)),
            final(self).mode is Search,
    {
        self.mode = Mode::Search { query: String::new() };
    }

    pub fn enter_command_mode(&mut self)
        requires
            old(self).wf(),
        ensures
            final(self).wf(),
            App::entered(*old(self), *final(self)),
            final(self).mode is Command,
    {
        self.mode = Mode::Command { command: String::new() };
    }

    /// Runs a command (surrounding whitespace ignored): `w` saves, `wq`, `x`
    /// and `q` save and quit, `q!` quits without saving; anything else does
    /// nothing. Returns whether the comments are to be written out.
    pub fn execute_command(&mut self, command: &str) -> (save: bool)
        requires
            old(self).wf(),
        ensures
            final(self).wf(),
            App::commanded(*old(self), *final(self), command@, save),
    {
        let cs = chars_of(command);
        let (a, b) = trim_bounds(&cs);
        let ghost t = cs@.subrange(a as int, b as int);
        let n = b - a;
        let c0 = if n > 0 { cs[a] } else { ' ' };
        let c1 = if n > 1 { cs[a + 1] } else { ' ' };
        let is_w = n == 1 && c0 == 'w';
        let is_wq = n == 2 && c0 == 'w' && c1 == 'q';
        let is_x = n == 1 && c0 == 'x';
        let is_q = n == 1 && c0 == 'q';
        let is_force = n == 2 && c0 == 'q' && c1 == '!';
        proof {
            assert(t.len() == n as int);
            assert(n > 0 ==> t[0] == c0);
            assert(n > 1 ==> t[1] == c1);
            assert(seq!['w'].len() == 1 && seq!['w'][0] == 'w');
            assert(seq!['x'].len() == 1 && seq!['x'][0] == 'x');
            assert(seq!['q'].len() == 1 && seq!['q'][0] == 'q');
            assert(is_w <==> t == seq!['w']) by {
                if t == seq!['w'] {
                    assert(t[0] == 'w');
                }
                if is_w {
                    assert(t =~= seq!['w']);
                }
            }
            assert(is_x <==> t == seq!['x']) by {
                if t == seq!['x'] {
                    assert(t[0] == 'x');
                }
                if is_x {
                    assert(t =~= seq!['x']);
                }
            }
            assert(is_q <==> t == seq!['q']) by {
                if t == seq!['q'] {
                    assert(t[0] == 'q');
                }
                if is_q {
                    assert(t =~= seq!['q']);
                }
            }
            assert(is_wq <==> t == seq!['w', 'q']) by {
                if t == seq!['w', 'q'] {
                    assert(t[0] == 'w' && t[1] == 'q');
                }
                if is_wq {
                    assert(t =~= seq!['w', 'q']);
                }
            }
            assert(is_force <==> t == seq!['q', '!']) by {
                if t == seq!['q', '!'] {
                    assert(t[0] == 'q' && t[1] == '!');
                }
                if is_force {
                    assert(t =~= seq!['q', '!']);
                }
            }
        }
        if is_wq || is_x || is_q || is_force {
            self.should_quit = true;
        }
        is_w || is_wq || is_x || is_q
    }

    /// Leaves the current mode for Normal. Leaving Insert makes a comment at
    /// the cursor from the draft, when the draft holds more than whitespace.
    pub fn exit_to_normal_mode(&mut self)
        requires
            old(self).wf(),
        ensures
            final(self).wf(),
            App::committed(*old(self), *final(self)),
    {
        let mut m = Mode::Normal;
        std::mem::swap(&mut m, &mut self.mode);
        match m {
            Mode::Insert { comment_text } => {
                let cs = chars_of(comment_text.as_str());
                let (a, b) = trim_bounds(&cs);
                if a < b {
                    self.save_comment(comment_text);
                }
            },
            _ => {},
        }
    }

    /// Makes a comment with `text` at the cursor line, keeping the lines that
    /// led to it; does nothing when that line has no new-side number.
    /// Comments stack: one made on a line that already has one is kept beside
    /// it, and a delete on that line removes both.
    pub fn save_comment(&mut self, text: String)
        requires
            old(self).wf(),
        ensures
            final(self).wf(),
            App::appended(*old(self), *final(self), old(self).comment_at_cursor(text@)),
    {
        if self.cursor < self.diff_lines.len() {
            let line = &self.diff_lines[self.cursor];
            if let Some(line_number) = line.new_line_no {
                let context = self.extract_context_before(self.cursor, CONTEXT_SIZE);
                let comment = Comment::new(line.file_path.clone(), line_number, text, context);
                let ghost before = self.comments@;
                self.comments.push(comment);
                assert(self.comments@.drop_last() =~= before);
            }
        }
    }

    /// The contents of the lines from `index - context_size` (floored at 0)
    /// through `index` (stopping at the last line), headers left out, in order.
    fn extract_context_before(&self, index: usize, context_size: usize) -> (r: Vec<String>)
        ensures
            texts(r@) == context_before(self.lines(), index as int, context_size as int),
    {
        let mut context: Vec<String> = Vec::new();
        let start = if index >= context_size { index - context_size } else { 0 };
        let len = self.diff_lines.len();
        let end = if index < len { index + 1 } else { len };
        let mut i = start;
        assert(texts(context@) =~= context_window(self.lines(), start as int, start as int));
        while i < end
            invariant
                start <= i <= end || (end < start && i == start),
                end == (if index + 1 <= len { index + 1 } else { len as int }),
                len == self.diff_lines@.len(),
                end <= len,
                texts(context@) == context_window(self.lines(), start as int, i as int),
            decreases end - i,
        {
            let line = &self.diff_lines[i];
            assert(self.lines()[i as int] == line@);
            if !(line.line_type == LineType::FileHeader || line.line_type == LineType::HunkHeader) {
                let ghost before = context@;
                context.push(line.content.clone());
                assert(texts(context@) =~= texts(before).push(line.content@));
            }
            i += 1;
        }
        assert(end < start ==> context_window(self.lines(), start as int, end as int) =~= seq![]);
        context
    }

    /// Removes every comment keyed to the cursor line's file and new-side
    /// number; does nothing when that line has no new-side number.
    pub fn delete_comment_at_cursor(&mut self)
        requires
            old(self).wf(),
        ensures
            final(self).wf(),
            App::deleted(*old(self), *final(self)),
    {
        if self.cursor < self.diff_lines.len() {
            if let Some(line_number) = self.diff_lines[self.cursor].new_line_no {
                let ghost orig = self.comments@;
                let ghost file = self.diff_lines@[self.cursor as int].file_path@;
                let file_path = chars_of(self.diff_lines[self.cursor].file_path.as_str());
                let mut i: usize = 0;
                let ghost mut j: int = 0;
                assert(orig.take(0) =~= seq![]);
                assert(orig.skip(0) =~= orig);
                while i < self.comments.len()
                    invariant
                        0 <= i <= j <= orig.len(),
                        i <= self.comments@.len(),
                        file_path@ == file,
                        self.comments@.take(i as int) == without_key(orig.take(j), file, line_number),
                        self.comments@.skip(i as int) == orig.skip(j),
                        self.cursor == old(self).cursor,
                        *self == (App { comments: self.comments, ..*old(self) }),
                    decreases self.comments@.len() - i,
                {
                    let ghost cur = self.comments@;
                    assert(cur.skip(i as int).len() == cur.len() - i);
                    assert(orig.skip(j).len() == orig.len() - j);
                    assert(cur[i as int] == orig[j]) by {
                        assert(cur.skip(i as int)[0] == orig.skip(j)[0]);
                    }
                    assert(orig.take(j + 1).drop_last() =~= orig.take(j));
                    let same = self.comments[i].line_number == line_number && text_eq(
                        &self.comments[i].file_path,
                        &file_path,
                    );
                    if same {
                        self.comments.remove(i);
                        assert(self.comments@.take(i as int) =~= cur.take(i as int));
                        assert forall|k: int| 0 <= k < orig.len() - j - 1 implies #[trigger] self.comments@.skip(
                            i as int,
                        )[k] == orig.skip(j + 1)[k] by {
                            assert(cur.skip(i as int)[k + 1] == orig.skip(j)[k + 1]);
                        }
                        assert(self.comments@.skip(i as int) =~= orig.skip(j + 1));
                    } else {
                        assert(self.comments@.take(i + 1) =~= cur.take(i as int).push(orig[j]));
                        assert forall|k: int| 0 <= k < orig.len() - j - 1 implies #[trigger] self.comments@.skip(
                            i + 1,
                        )[k] == orig.skip(j + 1)[k] by {
                            assert(cur.skip(i as int)[k + 1] == orig.skip(j)[k + 1]);
                        }
                        assert(self.comments@.skip(i + 1) =~= orig.skip(j + 1));
                        i += 1;
                    }
                    proof {
                        j = j + 1;
                    }
                }
                assert(self.comments@.skip(i as int).len() == 0);
                assert(orig.skip(j).len() == orig.len() - j);
                assert(j == orig.len());
                assert(orig.take(j) =~= orig);
                assert(self.comments@.take(i as int) =~= self.comments@);
            }
        }
    }

    /// Searches the line contents for `query`, ignoring case; the cursor
    /// moves to the first match, if there is one.
    pub fn search(&mut self, query: &str)
        requires
            old(self).wf(),
        ensures
            final(self).wf(),
            App::searched(*old(self), *final(self), query@),
    {
        self.current_match = 0;
        if query.is_empty() {
            self.search_matches.clear();
            return;
        }
        let folded_query = lowercase(query);
        let mut folded: Vec<String> = Vec::new();
        let mut i: usize = 0;
        while i < self.diff_lines.len()
            invariant
                i <= self.diff_lines@.len(),
                texts(folded@) == folded_contents(self.lines()).take(i as int),
            decreases self.diff_lines@.len() - i,
        {
            let ghost before = folded@;
            folded.push(lowercase(self.diff_lines[i].content.as_str()));
            assert(texts(folded@) =~= folded_contents(self.lines()).take(i + 1)) by {
                assert(texts(folded@) =~= texts(before).push(lower_of(self.diff_lines@[i as int].content@)));
            }
            i += 1;
        }
        assert(folded_contents(self.lines()).take(i as int) =~= folded_contents(self.lines()));
        self.search_matches = matching_lines(&folded, &folded_query);
        proof {
            lemma_found_in_bounds(texts(folded@), folded_query@, folded@.len() as int);
        }
        if self.search_matches.len() > 0 {
            self.cursor = self.search_matches[0];
        }
    }

    /// Moves to the next search match, wrapping to the first.
    pub fn next_match(&mut self)
        requires
            old(self).wf(),
        ensures
            final(self).wf(),
            *final(self) == old(self).next_matched(),
    {
        let n = self.search_matches.len();
        if n == 0 {
            return;
        }
        self.current_match = (self.current_match + 1) % n;
        self.cursor = self.search_matches[self.current_match];
    }

    /// Moves to the previous search match, wrapping to the last.
    pub fn prev_match(&mut self)
        requires
            old(self).wf(),
        ensures
            final(self).wf(),
            *final(self) == old(self).prev_matched(),
    {
        if self.search_matches.is_empty() {
            return;
        }
        self.current_match = if self.current_match == 0 {
            self.search_matches.len() - 1
        } else {
            self.current_match - 1
        };
        self.cursor = self.search_matches[self.current_match];
    }

    /// Moves the first visible line so that the cursor is among the
    /// `visible_height` lines shown.
    pub fn scroll_into_view(&mut self, visible_height: usize)
        requires
            old(self).wf(),
        ensures
            final(self).wf(),
            *final(self) == (App { scroll_offset: final(self).scroll_offset, ..*old(self) }),
            final(self).scroll_offset == (if old(self).cursor >= old(self).scroll_offset + visible_height {
                old(self).cursor + 1 - visible_height
            } else if old(self).cursor < old(self).scroll_offset {
                old(self).cursor as int
            } else {
                old(self).scroll_offset as int
            }),
            visible_height > 0 ==> final(self).scroll_offset <= final(self).cursor
                < final(self).scroll_offset + visible_height,
    {
        // the length bounds the cursor below usize::MAX
        let _len = self.diff_lines.len();
        if self.cursor >= self.scroll_offset && self.cursor - self.scroll_offset >= visible_height {
            self.scroll_offset = self.cursor + 1 - visible_height;
        } else if self.cursor < self.scroll_offset {
            self.scroll_offset = self.cursor;
        }
    }

    /// The indices of the comments on line `index`, in store order; none when
    /// the line has no new-side number or there is no such line.
    pub fn comments_at(&self, index: usize) -> (r: Vec<usize>)
        ensures
            r@ == (if index < self.diff_lines@.len() && self.lines()[index as int].new_line_no is Some {
                keyed(
                    self.comments@,
                    self.lines()[index as int].file_path,
                    self.lines()[index as int].new_line_no->0,
                    self.comments@.len() as int,
                )
            } else {
                seq![]
            }),
    {
        let mut r: Vec<usize> = Vec::new();
        if index >= self.diff_lines.len() {
            return r;
        }
        let line = &self.diff_lines[index];
        if let Some(n) = line.new_line_no {
            let file = chars_of(line.file_path.as_str());
            let mut i: usize = 0;
            while i < self.comments.len()
                invariant
                    i <= self.comments@.len(),
                    file@ == line.file_path@,
                    r@ == keyed(self.comments@, file@, n, i as int),
                decreases self.comments@.len() - i,
            {
                if self.comments[i].line_number == n && text_eq(&self.comments[i].file_path, &file) {
                    r.push(i);
                }
                i += 1;
            }
        }
        r
    }

    /// Appends `c` to the draft of a draft mode; does nothing in the others.
    pub fn push_draft(&mut self, c: char)
        requires
            old(self).wf(),
        ensures
            final(self).wf(),
            is_draft(old(self).mode) ==> App::drafted(*old(self), *final(self), draft_of(old(self).mode).push(c)),
            !is_draft(old(self).mode) ==> *final(self) == *old(self),
    {
        let mut m = Mode::Normal;
        std::mem::swap(&mut m, &mut self.mode);
        self.mode = match m {
            Mode::Insert { mut comment_text } => {
                push_char(&mut comment_text, c);
                Mode::Insert { comment_text }
            },
            Mode::Search { mut query } => {
                push_char(&mut query, c);
                Mode::Search { query }
            },
            Mode::Command { mut command } => {
                push_char(&mut command, c);
                Mode::Command { command }
            },
            other => other,
        };
    }

    /// Removes the last character of the draft of a draft mode, if any; does
    /// nothing in the other modes.
    pub fn pop_draft(&mut self)
        requires
            old(self).wf(),
        ensures
            final(self).wf(),
            is_draft(old(self).mode) ==> App::drafted(*old(self), *final(self), App::erased_draft(draft_of(old(self).mode))),
            !is_draft(old(self).mode) ==> *final(self) == *old(self),
    {
        let mut m = Mode::Normal;
        std::mem::swap(&mut m, &mut self.mode);
        self.mode = match m {
            Mode::Insert { mut comment_text } => {
                pop_char(&mut comment_text);
                Mode::Insert { comment_text }
            },
            Mode::Search { mut query } => {
                pop_char(&mut query);
                Mode::Search { query }
            },
            Mode::Command { mut command } => {
                pop_char(&mut command);
                Mode::Command { command }
            },
            other => other,
        };
    }

    pub fn quit(&mut self)
        requires
            old(self).wf(),
        ensures
            final(self).wf(),
            *final(self) == old(self).quitted(),
    {
        self.should_quit = true;
    }

    pub fn toggle_help(&mut self)
        requires
            old(self).wf(),
        ensures
            final(self).wf(),
            *final(self) == old(self).help_toggled(),
    {
        self.mode = if let Mode::Help = self.mode {
            Mode::Normal
        } else {
            Mode::Help
        };
    }
}

proof fn lemma_without_key(cs: Seq<Comment>, file: Seq<char>, line: usize)
    ensures
        forall|k: int|
            0 <= k < without_key(cs, file, line).len() ==> !(
            #[trigger] without_key(cs, file, line)[k].file_path@ == file && without_key(cs, file, line)[k].line_number
                == line),
    decreases cs.len(),
{
    if cs.len() > 0 {
        lemma_without_key(cs.drop_last(), file, line);
        let rest = without_key(cs.drop_last(), file, line);
        let w = without_key(cs, file, line);
        assert forall|k: int| 0 <= k < w.len() implies !(#[trigger] w[k].file_path@ == file
            && w[k].line_number == line) by {
            if k < rest.len() {
                assert(w[k] == rest[k]);
            }
        }
    }
}

/// A comment made at the cursor is gone after a delete at the same cursor:
/// no comment keyed to the cursor line survives. Where the cursor line takes
/// no comment, the two leave the comments as they were.
pub proof fn lemma_comment_then_delete(pre: App, mid: App, post: App, t: Seq<char>)
    requires
        App::appended(pre, mid, pre.comment_at_cursor(t)),
        App::deleted(mid, post),
    ensures
        pre.comment_at_cursor(t) is None ==> post.comments@ == pre.comments@,
        pre.comment_at_cursor(t) is Some ==> forall|k: int|
            0 <= k < post.comments@.len() ==> !(#[trigger] post.comments@[k]@.file_path
                == pre.comment_at_cursor(t)->0.file_path && post.comments@[k].line_number
                == pre.comment_at_cursor(t)->0.line_number),
{
    if pre.comment_at_cursor(t) is Some {
        let l = mid.lines()[mid.cursor as int];
        lemma_without_key(mid.comments@, l.file_path, l.new_line_no->0);
        assert forall|k: int| 0 <= k < post.comments@.len() implies !(#[trigger] post.comments@[k]@.file_path
            == pre.comment_at_cursor(t)->0.file_path && post.comments@[k].line_number
            == pre.comment_at_cursor(t)->0.line_number) by {
            assert(post.comments@[k]@.file_path == post.comments@[k].file_path@);
        }
    }
}

/// Leaving Insert mode with a draft that holds more than whitespace, on a
/// line with a new-side number, adds exactly one comment, with that draft as
/// its text; with a draft of whitespace alone it adds none.
pub proof fn lemma_commit_draft(pre: App, post: App)
    requires
        App::committed(pre, post),
        pre.mode is Insert,
    ensures
        trimmed(draft_of(pre.mode)).len() == 0 ==> post.comments@ == pre.comments@,
        trimmed(draft_of(pre.mode)).len() > 0 && pre.comment_at_cursor(draft_of(pre.mode)) is Some
            ==> post.comments@.len() == pre.comments@.len() + 1 && post.comments@.drop_last()
            == pre.comments@ && post.comments@.last().text@ == draft_of(pre.mode),
        post.mode is Normal,
{
}

/// Whether two strings hold the same characters.
fn text_eq(s: &String, t: &Vec<char>) -> (r: bool)
    ensures
        r == (s@ == t@),
{
    let cs = chars_of(s.as_str());
    if cs.len() != t.len() {
        return false;
    }
    let mut i: usize = 0;
    while i < cs.len()
        invariant
            cs@ == s@,
            cs@.len() == t@.len(),
            i <= cs@.len(),
            forall|k: int| 0 <= k < i ==> cs@[k] == t@[k],
        decreases cs@.len() - i,
    {
        if cs[i] != t[i] {
            return false;
        }
        i += 1;
    }
    assert(cs@ =~= t@);
    true
}

proof fn lemma_found_in_bounds(texts: Seq<Seq<char>>, q: Seq<char>, n: int)
    ensures
        forall|k: int| 0 <= k < found_in(texts, q, n).len() ==> #[trigger] found_in(texts, q, n)[k] < n,
    decreases n,
{
    if n > 0 {
        lemma_found_in_bounds(texts, q, n - 1);
        let prev = found_in(texts, q, n - 1);
        assert forall|k: int| 0 <= k < prev.len() implies #[trigger] prev[k] < n by {}
    }
}

/// The indices of the texts that contain `query`, in increasing order. Used
/// with texts and query lowercased, it is the matching of a search.
pub fn matching_lines(folded_contents: &Vec<String>, folded_query: &String) -> (r: Vec<usize>)
    ensures
        r@ == found_in(texts(folded_contents@), folded_query@, folded_contents@.len() as int),
{
    let mut r: Vec<usize> = Vec::new();
    let mut i: usize = 0;
    while i < folded_contents.len()
        invariant
            i <= folded_contents@.len(),
            r@ == found_in(texts(folded_contents@), folded_query@, i as int),
        decreases folded_contents@.len() - i,
    {
        assert(texts(folded_contents@)[i as int] == folded_contents@[i as int]@);
        if contains_str(folded_contents[i].as_str(), folded_query.as_str()) {
            r.push(i);
        }
        i += 1;
    }
    r
}

} // verus!
