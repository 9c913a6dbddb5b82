//! Review comments: what each one holds, and the text form they are saved in.

use vstd::prelude::*;
use crate::text::{decimal, decimal_of, push_char};

verus! {

/// A point in time: whole seconds since the Unix epoch and the nanoseconds
/// past that second.
#[derive(Debug, Clone, Copy, PartialEq, Eq)]
pub struct Timestamp {
    pub seconds: i64,
    pub nanos: u32,
}

/// A comment on one new-side line of one file, with the lines that led to
/// it as they read when the comment was made.
#[derive(Debug, Clone)]
pub struct Comment {
    pub file_path: String,
    pub line_number: usize,
    pub text: String,
    pub context: Vec<String>,
    pub timestamp: Timestamp,
}

/// What a comment says, with its texts as character sequences; the time it
/// was made is left out.
pub struct CommentRecord {
    pub file_path: Seq<char>,
    pub line_number: usize,
    pub text: Seq<char>,
    pub context: Seq<Seq<char>>,
}

pub open spec fn texts(v: Seq<String>) -> Seq<Seq<char>> {
    v.map_values(|s: String| s@)
}

impl View for Comment {
    type V = CommentRecord;

    open spec fn view(&self) -> CommentRecord {
        CommentRecord {
            file_path: self.file_path@,
            line_number: self.line_number,
            text: self.text@,
            context: texts(self.context@),
        }
    }
}

pub open spec fn comment_records(v: Seq<Comment>) -> Seq<CommentRecord> {
    v.map_values(|c: Comment| c@)
}

/// Relies on chrono's `From<SystemTime>` for `DateTime<Utc>` (which takes
/// times before 1970 too), with `DateTime::timestamp` and
/// `DateTime::timestamp_subsec_nanos`: the current time.
#[verifier::external_body]
fn now() -> (r: Timestamp) {
    let t = chrono::DateTime::<chrono::Utc>::from(std::time::SystemTime::now());
    Timestamp { seconds: t.timestamp(), nanos: t.timestamp_subsec_nanos() }
}

impl Comment {
    /// A comment made now.
    pub fn new(file_path: String, line_number: usize, text: String, context: Vec<String>) -> (r:
        Self)
        ensures
            r@ == (CommentRecord {
                file_path: file_path@,
                line_number,
                text: text@,
                context: texts(context@),
            }),
    {
        Comment { file_path, line_number, text, context, timestamp: now() }
    }
}

/// One comment in the saved text: `<file>:<line>`, then its text, then a
/// blank line.
pub open spec fn entry_text(c: CommentRecord) -> Seq<char> {
    c.file_path + seq![':'] + decimal_of(c.line_number as nat) + seq!['\n'] + c.text + seq![
        '\n',
        '\n',
    ]
}

pub open spec fn saved_text(cs: Seq<CommentRecord>) -> Seq<char>
    decreases cs.len(),
{
    if cs.len() == 0 {
        seq![]
    } else {
        saved_text(cs.drop_last()) + entry_text(cs.last())
    }
}

/// The text that a comment file holds for these comments, in order.
pub fn format_comments(comments: &Vec<Comment>) -> (r: String)
    ensures
        r@ == saved_text(comment_records(comments@)),
{
    let mut out = String::new();
    let mut i: usize = 0;
    while i < comments.len()
        invariant
            i <= comments@.len(),
            out@ == saved_text(comment_records(comments@.take(i as int))),
        decreases comments@.len() - i,
    {
        let c = &comments[i];
        let ghost before = out@;
        out.append(c.file_path.as_str());
        push_char(&mut out, ':');
        let n = decimal(c.line_number);
        out.append(n.as_str());
        push_char(&mut out, '\n');
        out.append(c.text.as_str());
        push_char(&mut out, '\n');
        push_char(&mut out, '\n');
        proof {
            let cs = comment_records(comments@.take(i + 1));
            assert(cs.drop_last() =~= comment_records(comments@.take(i as int)));
            assert(cs.last() == c@);
            assert(out@ =~= before + entry_text(c@));
        }
        i += 1;
    }
    assert(comments@.take(comments@.len() as int) =~= comments@);
    out
}

} // verus!
