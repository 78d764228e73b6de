//! Lines of command output: how they are stamped, ordered and written to a log.

use crate::kinds::CommandOutputType;
use crate::sort::{is_stable_sort, stable_sort, views_of, Keyed};
use crate::text::{chars_of, copy_text, string_of};
use vstd::prelude::*;
use vstd::string::StringExecFns;

verus! {

/// A line that a command wrote.
#[derive(Debug)]
pub struct CommandOutput {
    /// The moment at which the line was read, as text in local time.
    pub time: String,
    /// The line, without its line break.
    pub text: String,
    /// The stream it was read from.
    pub kind: CommandOutputType,
}

/// What a line holds, as mathematical values.
pub ghost struct LineView {
    pub time: Seq<char>,
    pub text: Seq<char>,
    pub kind: CommandOutputType,
}

impl View for CommandOutput {
    type V = LineView;

    open spec fn view(&self) -> LineView {
        LineView { time: self.time@, text: self.text@, kind: self.kind }
    }
}

/// What a list of lines holds, as mathematical values.
pub open spec fn line_views(lines: Seq<CommandOutput>) -> Seq<LineView> {
    Seq::new(lines.len(), |i: int| lines[i]@)
}

impl Keyed for CommandOutput {
    open spec fn key_of(line: LineView) -> Seq<char> {
        line.time
    }

    fn key(&self) -> (k: &str) {
        self.time.as_str()
    }
}

/// The lines of both streams of a command in one list, ordered by their
/// time. Lines of the same time stay as they were: those of standard output
/// first, each stream in its own order.
pub fn merge_output(stdout: Vec<CommandOutput>, stderr: Vec<CommandOutput>) -> (lines: Vec<
    CommandOutput,
>)
    ensures
        is_stable_sort::<CommandOutput>(
            line_views(lines@),
            line_views(stdout@) + line_views(stderr@),
        ),
{
    let mut all = stdout;
    let mut rest = stderr;
    all.append(&mut rest);
    assert(views_of(all@) =~= line_views(stdout@) + line_views(stderr@));
    let lines = stable_sort(all);
    assert(views_of(lines@) =~= line_views(lines@));
    lines
}

/// The test whether a character is not `c`.
pub open spec fn is_not(c: char) -> spec_fn(char) -> bool {
    |x: char| x != c
}

/// A text without its line feeds.
pub open spec fn without_line_feeds(s: Seq<char>) -> Seq<char> {
    s.filter(is_not('\n'))
}

/// A copy of a text without its line feeds.
pub fn strip_line_feeds(s: &str) -> (r: String)
    ensures
        r@ == without_line_feeds(s@),
{
    let cs = chars_of(s);
    let mut kept: Vec<char> = Vec::new();
    let mut i: usize = 0;
    proof {
        reveal(Seq::filter);
        assert(cs@.take(0) =~= Seq::<char>::empty());
    }
    while i < cs.len()
        invariant
            i <= cs.len(),
            cs@ == s@,
            kept@ == without_line_feeds(cs@.take(i as int)),
        decreases cs.len() - i,
    {
        proof {
            reveal(Seq::filter);
            let next = cs@.take(i + 1);
            assert(next.drop_last() =~= cs@.take(i as int));
            assert(next.last() == cs@[i as int]);
        }
        if cs[i] != '\n' {
            kept.push(cs[i]);
        }
        i += 1;
    }
    assert(cs@.take(cs.len() as int) =~= cs@);
    string_of(&kept)
}

/// Makes the lines read from one stream of a command into records: each
/// pair holds the time at which a line was read and the line as it was
/// read; a record holds the time, the line without its line feed, and the
/// stream.
pub fn read_buffer(lines: &Vec<(String, String)>, out_type: CommandOutputType) -> (messages: Vec<
    CommandOutput,
>)
    ensures
        messages.len() == lines.len(),
        forall|i: int|
            0 <= i < lines.len() ==> (#[trigger] messages@[i])@ == (LineView {
                time: lines@[i].0@,
                text: without_line_feeds(lines@[i].1@),
                kind: out_type,
            }),
{
    let mut messages: Vec<CommandOutput> = Vec::new();
    let mut i: usize = 0;
    while i < lines.len()
        invariant
            i <= lines.len(),
            messages.len() == i,
            forall|k: int|
                0 <= k < i ==> (#[trigger] messages@[k])@ == (LineView {
                    time: lines@[k].0@,
                    text: without_line_feeds(lines@[k].1@),
                    kind: out_type,
                }),
        decreases lines.len() - i,
    {
        let time = copy_text(lines[i].0.as_str());
        let text = strip_line_feeds(lines[i].1.as_str());
        messages.push(CommandOutput { time, text, kind: out_type });
        i += 1;
    }
    messages
}

impl LineView {
    /// The line as it stands in a log: time, the letter of the stream and
    /// the text, with a space between them and a line feed at the end.
    pub open spec fn log_line(self) -> Seq<char> {
        self.time + seq![' '] + self.kind.letter() + seq![' '] + self.text + seq!['\n']
    }
}

impl CommandOutput {
    /// The line as it is written to the log of its timer.
    pub fn log_line(&self) -> (s: String)
        ensures
            s@ == self@.log_line(),
    {
        let mut s = copy_text(self.time.as_str());
        s.push(' ');
        s.append(self.kind.as_str());
        s.push(' ');
        s.append(self.text.as_str());
        s.push('\n');
        assert(s@ =~= self@.log_line());
        s
    }
}

/// The word that reports how a command ended: `OK` for exit code 0, `NOK`
/// for any other code and for a command that could not be started or
/// waited for, which has no code.
pub open spec fn outcome_word(exit_code: Option<i32>) -> Seq<char> {
    if exit_code == Some(0i32) {
        "OK"@
    } else {
        "NOK"@
    }
}

/// The word that reports how a command ended.
pub fn outcome(exit_code: Option<i32>) -> (word: &'static str)
    ensures
        word@ == outcome_word(exit_code),
{
    match exit_code {
        Some(code) => if code == 0 {
            "OK"
        } else {
            "NOK"
        },
        None => "NOK",
    }
}

/// The event that reports the end of a timer's command to the status
/// client: the timer's identifier and the word for the outcome.
pub fn status_event(id: &str, exit_code: Option<i32>) -> (event: (String, String))
    ensures
        event.0@ == id@,
        event.1@ == outcome_word(exit_code),
{
    (copy_text(id), copy_text(outcome(exit_code)))
}

} // verus!
