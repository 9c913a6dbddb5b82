//! The unified-diff parser: raw diff text to line-numbered records.

use vstd::prelude::*;
use crate::text::{
    before_char, chars_of, find_char, has_at, lines_of, parse_usize, skip_repeated, starts_with,
    string_of, strip_repeated, text_lines, to_usize, words, words_of,
};

verus! {

#[derive(Debug, Clone, Copy, PartialEq, Eq, Structural)]
pub enum LineType {
    Added,
    Removed,
    Context,
    FileHeader,
    HunkHeader,
}

#[derive(Debug, Clone)]
pub struct DiffLine {
    pub content: String,
    pub line_type: LineType,
    pub old_line_no: Option<usize>,
    pub new_line_no: Option<usize>,
    pub file_path: String,
}

/// What a `DiffLine` holds, with its texts as character sequences.
pub struct LineRecord {
    pub content: Seq<char>,
    pub line_type: LineType,
    pub old_line_no: Option<usize>,
    pub new_line_no: Option<usize>,
    pub file_path: Seq<char>,
}

impl View for DiffLine {
    type V = LineRecord;

    open spec fn view(&self) -> LineRecord {
        LineRecord {
            content: self.content@,
            line_type: self.line_type,
            old_line_no: self.old_line_no,
            new_line_no: self.new_line_no,
            file_path: self.file_path@,
        }
    }
}

pub open spec fn records(v: Seq<DiffLine>) -> Seq<LineRecord> {
    v.map_values(|l: DiffLine| l@)
}

pub open spec fn is_header(t: LineType) -> bool {
    t == LineType::FileHeader || t == LineType::HunkHeader
}

/// The parser's running state between lines: the current file and the next
/// old-side and new-side line numbers.
pub struct ParseState {
    pub file: Seq<char>,
    pub old: usize,
    pub new: usize,
}

pub open spec fn initial_state() -> ParseState {
    ParseState { file: seq![], old: 0, new: 0 }
}

/// A line counter moves on by one; it stays put at the largest `usize`.
pub open spec fn next_no(n: usize) -> usize {
    if n < usize::MAX {
        (n + 1) as usize
    } else {
        n
    }
}

pub open spec fn file_marker() -> Seq<char> {
    seq!['d', 'i', 'f', 'f', ' ', '-', '-', 'g', 'i', 't']
}

pub open spec fn diff_word() -> Seq<char> {
    seq!['d', 'i', 'f', 'f']
}

/// The path named by a file-introduction line: its third word without the
/// leading `a/` prefixes; the current path when the line has fewer words.
pub open spec fn marker_path(current: Seq<char>, line: Seq<char>) -> Seq<char> {
    let w = words_of(line);
    if w.len() > 2 {
        strip_repeated(w[2], seq!['a', '/'])
    } else {
        current
    }
}

/// The old and new start numbers of a hunk header, when it is well formed.
pub open spec fn hunk_starts(line: Seq<char>) -> Option<(usize, usize)> {
    let w = words_of(line);
    if w.len() < 3 {
        None
    } else {
        let o = parse_usize(before_char(strip_repeated(w[1], seq!['-']), ','));
        let n = parse_usize(before_char(strip_repeated(w[2], seq!['+']), ','));
        if o is Some && n is Some {
            Some((o->0, n->0))
        } else {
            None
        }
    }
}

pub open spec fn record(
    line: Seq<char>,
    t: LineType,
    old: Option<usize>,
    new: Option<usize>,
    file: Seq<char>,
) -> LineRecord {
    LineRecord { content: line, line_type: t, old_line_no: old, new_line_no: new, file_path: file }
}

/// One line of diff text: the state after it and the record it emits, if any.
pub open spec fn step(st: ParseState, line: Seq<char>) -> (ParseState, Option<LineRecord>) {
    if starts_with(line, file_marker()) {
        let f = marker_path(st.file, line);
        (
            ParseState { file: f, ..st },
            Some(record(line, LineType::FileHeader, None, None, f)),
        )
    } else if starts_with(line, seq!['-', '-', '-']) || starts_with(line, seq!['+', '+', '+']) {
        (st, Some(record(line, LineType::FileHeader, None, None, st.file)))
    } else if starts_with(line, seq!['@', '@']) {
        let st2 = match hunk_starts(line) {
            Some(p) => ParseState { old: p.0, new: p.1, ..st },
            None => st,
        };
        (st2, Some(record(line, LineType::HunkHeader, None, None, st.file)))
    } else if starts_with(line, seq!['+']) {
        (
            ParseState { new: next_no(st.new), ..st },
            Some(record(line, LineType::Added, None, Some(st.new), st.file)),
        )
    } else if starts_with(line, seq!['-']) {
        (
            ParseState { old: next_no(st.old), ..st },
            Some(record(line, LineType::Removed, Some(st.old), None, st.file)),
        )
    } else if starts_with(line, seq![' ']) || (!starts_with(line, diff_word()) && line.len() > 0) {
        (
            ParseState { old: next_no(st.old), new: next_no(st.new), ..st },
            Some(record(line, LineType::Context, Some(st.old), Some(st.new), st.file)),
        )
    } else {
        (st, None)
    }
}

/// The state and the records after the first `n` lines.
pub open spec fn parse_upto(lines: Seq<Seq<char>>, n: nat) -> (ParseState, Seq<LineRecord>)
    decreases n,
{
    if n == 0 || n > lines.len() {
        (initial_state(), seq![])
    } else {
        let (st, out) = parse_upto(lines, (n - 1) as nat);
        let (st2, r) = step(st, lines[n - 1]);
        match r {
            Some(rec) => (st2, out.push(rec)),
            None => (st2, out),
        }
    }
}

/// The records that a diff text parses to.
pub open spec fn parse_text(text: Seq<char>) -> Seq<LineRecord> {
    let lines = lines_of(text);
    parse_upto(lines, lines.len()).1
}

pub open spec fn side_no(r: LineRecord, new_side: bool) -> Option<usize> {
    if new_side {
        r.new_line_no
    } else {
        r.old_line_no
    }
}

pub open spec fn side_counter(st: ParseState, new_side: bool) -> usize {
    if new_side {
        st.new
    } else {
        st.old
    }
}

/// No hunk header stands strictly between positions `j` and `k`.
pub open spec fn same_hunk(out: Seq<LineRecord>, j: int, k: int) -> bool {
    forall|m: int| j < m < k ==> #[trigger] out[m].line_type != LineType::HunkHeader
}

pub open spec fn headers_unnumbered(out: Seq<LineRecord>) -> bool {
    forall|k: int|
        0 <= k < out.len() && is_header(#[trigger] out[k].line_type) ==> out[k].old_line_no is None
            && out[k].new_line_no is None
}

/// Within a hunk, each number of one side is above every earlier number of
/// that side, unless the earlier one is already the largest `usize`.
pub open spec fn numbers_rise(out: Seq<LineRecord>, new_side: bool) -> bool {
    forall|j: int, k: int|
        0 <= j < k < out.len() && #[trigger] side_no(out[j], new_side) is Some && #[trigger] side_no(
            out[k],
            new_side,
        ) is Some && same_hunk(out, j, k) && side_no(out[j], new_side)->0 < usize::MAX
            ==> side_no(out[j], new_side)->0 < side_no(out[k], new_side)->0
}

spec fn below_counter(st: ParseState, out: Seq<LineRecord>, new_side: bool) -> bool {
    forall|k: int|
        0 <= k < out.len() && #[trigger] side_no(out[k], new_side) is Some && same_hunk(
            out,
            k,
            out.len() as int,
        ) ==> side_no(out[k], new_side)->0 < side_counter(st, new_side) || side_no(out[k], new_side)->0
            == usize::MAX
}

proof fn lemma_parse_upto(lines: Seq<Seq<char>>, n: nat, new_side: bool)
    ensures
        headers_unnumbered(parse_upto(lines, n).1),
        numbers_rise(parse_upto(lines, n).1, new_side),
        below_counter(parse_upto(lines, n).0, parse_upto(lines, n).1, new_side),
    decreases n,
{
    if n == 0 || n > lines.len() {
        return;
    }
    lemma_parse_upto(lines, (n - 1) as nat, new_side);
    let (st, out) = parse_upto(lines, (n - 1) as nat);
    let (st2, r) = step(st, lines[n - 1]);
    if r is None {
        assert(parse_upto(lines, n) == (st, out));
        return;
    }
    let rec = r->0;
    let out2 = out.push(rec);
    assert(parse_upto(lines, n) == (st2, out2));
    let c = side_counter(st, new_side);
    let c2 = side_counter(st2, new_side);
    assert(is_header(rec.line_type) ==> rec.old_line_no is None && rec.new_line_no is None);
    assert(side_no(rec, new_side) is Some ==> side_no(rec, new_side)->0 == c && c2 == next_no(c));
    assert(rec.line_type != LineType::HunkHeader ==> c2 == c || c2 == next_no(c));
    assert forall|j: int, k: int| 0 <= j < k < out.len() && same_hunk(out2, j, k) implies same_hunk(
        out,
        j,
        k,
    ) by {
        assert forall|m: int| j < m < k implies #[trigger] out[m].line_type
            != LineType::HunkHeader by {
            assert(out2[m] == out[m]);
        }
    }
    assert forall|k: int| 0 <= k < out.len() && same_hunk(out2, k, out2.len() as int) implies same_hunk(
        out,
        k,
        out.len() as int,
    ) by {
        assert forall|m: int| k < m < out.len() implies #[trigger] out[m].line_type
            != LineType::HunkHeader by {
            assert(out2[m] == out[m]);
        }
    }
    assert forall|k: int|
        0 <= k < out2.len() && is_header(#[trigger] out2[k].line_type) implies out2[k].old_line_no is None
        && out2[k].new_line_no is None by {
        if k < out.len() {
            assert(out2[k] == out[k]);
        }
    }
    assert forall|j: int, k: int|
        0 <= j < k < out2.len() && #[trigger] side_no(out2[j], new_side) is Some && #[trigger] side_no(
            out2[k],
            new_side,
        ) is Some && same_hunk(out2, j, k) && side_no(out2[j], new_side)->0 < usize::MAX implies side_no(
        out2[j],
        new_side,
    )->0 < side_no(out2[k], new_side)->0 by {
        assert(out2[j] == out[j]);
        if k < out.len() {
            assert(out2[k] == out[k]);
            assert(same_hunk(out, j, k));
        } else {
            assert(out2[k] == rec);
            assert(same_hunk(out2, j, out2.len() - 1));
            assert forall|m: int| j < m < out.len() implies #[trigger] out[m].line_type
                != LineType::HunkHeader by {
                assert(out2[m] == out[m]);
            }
            assert(same_hunk(out, j, out.len() as int));
        }
    }
    assert forall|k: int|
        0 <= k < out2.len() && #[trigger] side_no(out2[k], new_side) is Some && same_hunk(
            out2,
            k,
            out2.len() as int,
        ) implies side_no(out2[k], new_side)->0 < c2 || side_no(out2[k], new_side)->0
        == usize::MAX by {
        if k < out.len() {
            assert(out2[k] == out[k]);
            assert(out2[out.len() as int] == rec);
            assert(rec.line_type != LineType::HunkHeader);
            assert(same_hunk(out, k, out.len() as int));
        } else {
            assert(out2[k] == rec);
        }
    }
}

/// The parser never numbers a header record, and within one hunk the line
/// numbers of each side rise strictly from record to record (a counter that
/// reached the largest `usize` stays there).
pub proof fn lemma_line_numbers(text: Seq<char>)
    ensures
        headers_unnumbered(parse_text(text)),
        numbers_rise(parse_text(text), true),
        numbers_rise(parse_text(text), false),
{
    let lines = lines_of(text);
    lemma_parse_upto(lines, lines.len(), true);
    lemma_parse_upto(lines, lines.len(), false);
}

/// No record of `out` carries the largest `usize` as a line number, as in
/// any diff whose line numbers fit in a `usize` with room to count past them.
pub open spec fn numbers_below_max(out: Seq<LineRecord>) -> bool {
    forall|k: int|
        0 <= k < out.len() ==> (#[trigger] out[k].old_line_no is Some ==> out[k].old_line_no->0
            < usize::MAX) && (out[k].new_line_no is Some ==> out[k].new_line_no->0 < usize::MAX)
}

/// Where no line number reaches the largest `usize`, the numbers of each
/// side rise strictly within a hunk: a later record of a side carries a
/// greater number than every earlier one, with no hunk header between.
pub proof fn lemma_line_numbers_rise(text: Seq<char>)
    requires
        numbers_below_max(parse_text(text)),
    ensures
        forall|j: int, k: int|
            0 <= j < k < parse_text(text).len() && #[trigger] parse_text(text)[j].new_line_no is Some
                && #[trigger] parse_text(text)[k].new_line_no is Some && same_hunk(parse_text(text), j, k)
                ==> parse_text(text)[j].new_line_no->0 < parse_text(text)[k].new_line_no->0,
        forall|j: int, k: int|
            0 <= j < k < parse_text(text).len() && #[trigger] parse_text(text)[j].old_line_no is Some
                && #[trigger] parse_text(text)[k].old_line_no is Some && same_hunk(parse_text(text), j, k)
                ==> parse_text(text)[j].old_line_no->0 < parse_text(text)[k].old_line_no->0,
{
    let out = parse_text(text);
    lemma_line_numbers(text);
    assert forall|j: int, k: int|
        0 <= j < k < out.len() && #[trigger] out[j].new_line_no is Some && #[trigger] out[k].new_line_no is Some
            && same_hunk(out, j, k) implies out[j].new_line_no->0 < out[k].new_line_no->0 by {
        assert(side_no(out[j], true) == out[j].new_line_no);
        assert(side_no(out[k], true) == out[k].new_line_no);
    }
    assert forall|j: int, k: int|
        0 <= j < k < out.len() && #[trigger] out[j].old_line_no is Some && #[trigger] out[k].old_line_no is Some
            && same_hunk(out, j, k) implies out[j].old_line_no->0 < out[k].old_line_no->0 by {
        assert(side_no(out[j], false) == out[j].old_line_no);
        assert(side_no(out[k], false) == out[k].old_line_no);
    }
}

fn literal(s: &str) -> (r: Vec<char>)
    ensures
        r@ == s@,
{
    chars_of(s)
}

/// The starts of a hunk header (`@@ -a[,b] +c[,d] @@`), or `None` when the
/// header has fewer than three words or a start is not a number.
fn parse_hunk_header(line: &str) -> (r: Option<(usize, usize)>)
    ensures
        r == hunk_starts(line@),
{
    let parts = words(line);
    proof {
        assert(parts@.map_values(|w: String| w@).len() == parts@.len());
    }
    if parts.len() < 3 {
        return None;
    }
    let ghost w = parts@.map_values(|w: String| w@);
    assert(w[1] == parts@[1]@ && w[2] == parts@[2]@);
    let old_part = chars_of(parts[1].as_str());
    let new_part = chars_of(parts[2].as_str());
    let minus = vec!['-'];
    let plus = vec!['+'];
    assert(minus@ =~= seq!['-']);
    assert(plus@ =~= seq!['+']);
    let a = skip_repeated(&old_part, &minus);
    let a_end = find_char(&old_part, a, ',');
    let b = skip_repeated(&new_part, &plus);
    let b_end = find_char(&new_part, b, ',');
    let old_start = to_usize(string_of(old_part.as_slice(), a, a_end).as_str());
    let new_start = to_usize(string_of(new_part.as_slice(), b, b_end).as_str());
    match (old_start, new_start) {
        (Some(o), Some(n)) => Some((o, n)),
        _ => None,
    }
}

/// The path that a file-introduction line names, or `current` when it names none.
fn marker_file(line: &str, current: &String) -> (r: String)
    ensures
        r@ == marker_path(current@, line@),
{
    let parts = words(line);
    proof {
        assert(parts@.map_values(|w: String| w@).len() == parts@.len());
    }
    if parts.len() > 2 {
        let ghost w = parts@.map_values(|w: String| w@);
        assert(w[2] == parts@[2]@);
        let path = chars_of(parts[2].as_str());
        let prefix = vec!['a', '/'];
        assert(prefix@ =~= seq!['a', '/']);
        let start = skip_repeated(&path, &prefix);
        let r = string_of(path.as_slice(), start, path.len());
        assert(path@.subrange(start as int, path@.len() as int) =~= path@.skip(start as int));
        r
    } else {
        current.clone()
    }
}

fn make_line(
    content: &String,
    line_type: LineType,
    old_line_no: Option<usize>,
    new_line_no: Option<usize>,
    file: &String,
) -> (r: DiffLine)
    ensures
        r@ == record(content@, line_type, old_line_no, new_line_no, file@),
{
    DiffLine {
        content: content.clone(),
        line_type,
        old_line_no,
        new_line_no,
        file_path: file.clone(),
    }
}

fn bump(n: usize) -> (r: usize)
    ensures
        r == next_no(n),
{
    if n < usize::MAX {
        n + 1
    } else {
        n
    }
}

/// Parses unified-diff text into line records. Parsing never fails: lines
/// it cannot place are classified permissively or dropped.
pub fn parse_diff(diff_text: &str) -> (r: Vec<DiffLine>)
    ensures
        records(r@) == parse_text(diff_text@),
{
    let lines = text_lines(diff_text);
    let ghost ls = lines@.map_values(|l: String| l@);
    let marker = literal("diff --git");
    let word = literal("diff");
    proof {
        reveal_strlit("diff --git");
        reveal_strlit("diff");
        assert(marker@ =~= file_marker());
        assert(word@ =~= diff_word());
    }
    let mut out: Vec<DiffLine> = Vec::new();
    let mut current_file = String::new();
    let mut old_line: usize = 0;
    let mut new_line: usize = 0;
    let mut i: usize = 0;
    assert(records(out@) =~= seq![]);
    while i < lines.len()
        invariant
            ls == lines_of(diff_text@),
            ls == lines@.map_values(|l: String| l@),
            i <= lines@.len(),
            marker@ == file_marker(),
            word@ == diff_word(),
            parse_upto(ls, i as nat) == (
            ParseState { file: current_file@, old: old_line, new: new_line },
            records(out@),
            ),
        decreases lines@.len() - i,
    {
        let line = &lines[i];
        let ghost st = ParseState { file: current_file@, old: old_line, new: new_line };
        let ghost l = ls[i as int];
        assert(l == line@);
        let cs = chars_of(line.as_str());
        assert(cs@.skip(0) =~= cs@);
        let ghost before = out@;
        if has_at(&cs, 0, &marker) {
            current_file = marker_file(line.as_str(), &current_file);
            out.push(make_line(line, LineType::FileHeader, None, None, &current_file));
        } else if (cs.len() >= 3 && cs[0] == '-' && cs[1] == '-' && cs[2] == '-') || (cs.len()
            >= 3 && cs[0] == '+' && cs[1] == '+' && cs[2] == '+') {
            assert(starts_with(l, seq!['-', '-', '-']) || starts_with(l, seq!['+', '+', '+'])) by {
                if cs[0] == '-' {
                    assert(l.take(3) =~= seq!['-', '-', '-']);
                } else {
                    assert(l.take(3) =~= seq!['+', '+', '+']);
                }
            }
            out.push(make_line(line, LineType::FileHeader, None, None, &current_file));
        } else if cs.len() >= 2 && cs[0] == '@' && cs[1] == '@' {
            assert(!starts_with(l, seq!['-', '-', '-']) && !starts_with(l, seq!['+', '+', '+'])) by {
                if starts_with(l, seq!['-', '-', '-']) {
                    assert(l.take(3)[0] == '-');
                }
                if starts_with(l, seq!['+', '+', '+']) {
                    assert(l.take(3)[0] == '+');
                }
            }
            assert(l.take(2) =~= seq!['@', '@']);
            if let Some((o, n)) = parse_hunk_header(line.as_str()) {
                old_line = o;
                new_line = n;
            }
            out.push(make_line(line, LineType::HunkHeader, None, None, &current_file));
        } else if cs.len() >= 1 && cs[0] == '+' {
            assert(!starts_with(l, seq!['-', '-', '-'])) by {
                if starts_with(l, seq!['-', '-', '-']) {
                    assert(l.take(3)[0] == '-');
                }
            }
            assert(!starts_with(l, seq!['+', '+', '+'])) by {
                if starts_with(l, seq!['+', '+', '+']) {
                    assert(l.take(3)[1] == '+' && l.take(3)[2] == '+');
                }
            }
            assert(!starts_with(l, seq!['@', '@'])) by {
                if starts_with(l, seq!['@', '@']) {
                    assert(l.take(2)[0] == '@');
                }
            }
            assert(l.take(1) =~= seq!['+']);
            out.push(make_line(line, LineType::Added, None, Some(new_line), &current_file));
            new_line = bump(new_line);
        } else if cs.len() >= 1 && cs[0] == '-' {
            assert(!starts_with(l, seq!['-', '-', '-'])) by {
                if starts_with(l, seq!['-', '-', '-']) {
                    assert(l.take(3)[1] == '-' && l.take(3)[2] == '-');
                }
            }
            assert(!starts_with(l, seq!['+', '+', '+'])) by {
                if starts_with(l, seq!['+', '+', '+']) {
                    assert(l.take(3)[0] == '+');
                }
            }
            assert(!starts_with(l, seq!['@', '@'])) by {
                if starts_with(l, seq!['@', '@']) {
                    assert(l.take(2)[0] == '@');
                }
            }
            assert(!starts_with(l, seq!['+'])) by {
                if starts_with(l, seq!['+']) {
                    assert(l.take(1)[0] == '+');
                }
            }
            assert(l.take(1) =~= seq!['-']);
            out.push(make_line(line, LineType::Removed, Some(old_line), None, &current_file));
            old_line = bump(old_line);
        } else {
            assert(!starts_with(l, seq!['-', '-', '-'])) by {
                if starts_with(l, seq!['-', '-', '-']) {
                    assert(l.take(3)[0] == '-');
                }
            }
            assert(!starts_with(l, seq!['+', '+', '+'])) by {
                if starts_with(l, seq!['+', '+', '+']) {
                    assert(l.take(3)[0] == '+');
                }
            }
            assert(!starts_with(l, seq!['@', '@'])) by {
                if starts_with(l, seq!['@', '@']) {
                    assert(l.take(2)[0] == '@' && l.take(2)[1] == '@');
                }
            }
            assert(!starts_with(l, seq!['+'])) by {
                if starts_with(l, seq!['+']) {
                    assert(l.take(1)[0] == '+');
                }
            }
            assert(!starts_with(l, seq!['-'])) by {
                if starts_with(l, seq!['-']) {
                    assert(l.take(1)[0] == '-');
                }
            }
            let space = cs.len() >= 1 && cs[0] == ' ';
            if space {
                assert(l.take(1) =~= seq![' ']);
            } else {
                assert(!starts_with(l, seq![' '])) by {
                    if starts_with(l, seq![' ']) {
                        assert(l.take(1)[0] == ' ');
                    }
                }
            }
            if space || (!has_at(&cs, 0, &word) && cs.len() > 0) {
                out.push(make_line(line, LineType::Context, Some(old_line), Some(new_line), &current_file));
                old_line = bump(old_line);
                new_line = bump(new_line);
            }
        }
        proof {
            let (st2, r) = step(st, l);
            assert(parse_upto(ls, (i + 1) as nat) == (st2, match r {
                Some(rec) => records(before).push(rec),
                None => records(before),
            }));
            match r {
                Some(rec) => {
                    assert(records(out@) =~= records(before).push(rec));
                },
                None => {
                    assert(out@ == before);
                },
            }
        }
        i += 1;
    }
    out
}

} // verus!
