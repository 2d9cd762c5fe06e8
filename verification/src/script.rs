//! Operator-supplied scripts: what is run, and how its ending reads.

use crate::text::{cat3, pieces, signed_decimal, signed_number, split, texts, trim, trimmed, utf8_lossy, lossy_text};
use vstd::prelude::*;
use vstd::string::*;

verus! {

/// A script to run, with its fixed arguments and its deadline.
#[derive(Debug, Clone, PartialEq, Eq)]
pub struct ScriptHook {
    pub path: String,
    pub args: Vec<String>,
    pub timeout_ms: u64,
}

/// How a script that ran to its end ended.
#[derive(Debug, Clone, PartialEq, Eq)]
pub struct ScriptOutcome {
    /// The exit code; `None` when a signal ended the script.
    pub code: Option<i32>,
    pub stdout: Vec<u8>,
    pub stderr: Vec<u8>,
}

/// What came of an attempt to run a script.
#[derive(Debug, Clone, PartialEq, Eq)]
pub enum ScriptRun {
    /// It could not be started, fed or waited for, or ran out of time; in
    /// words.
    Failed(String),
    Finished(ScriptOutcome),
}

/// The first line that is not blank, without white space around it.
pub open spec fn first_of(lines: Seq<Seq<char>>) -> Option<Seq<char>>
    decreases lines.len(),
{
    if lines.len() == 0 {
        None
    } else if trimmed(lines[0]).len() > 0 {
        Some(trimmed(lines[0]))
    } else {
        first_of(lines.skip(1))
    }
}

/// The first line of a text that is not blank.
pub open spec fn first_line(text: Seq<char>) -> Option<Seq<char>> {
    first_of(pieces(text, '\n'))
}

fn leading_line(text: &str) -> (r: Option<String>)
    ensures
        match r {
            Some(line) => first_line(text@) == Some(line@),
            None => first_line(text@) is None,
        },
{
    let lines = split(text, '\n');
    let ghost all = texts(lines@);
    let mut i: usize = 0;
    assert(all.skip(0) == all);
    while i < lines.len()
        invariant
            i <= lines@.len(),
            all == texts(lines@),
            all == pieces(text@, '\n'),
            first_of(all) == first_of(all.skip(i as int)),
        decreases lines@.len() - i,
    {
        let line = trim(lines[i].as_str());
        let ghost rest = all.skip(i as int);
        assert(rest[0] == lines@[i as int]@);
        assert(rest.skip(1) == all.skip(i as int + 1));
        if !line.as_str().is_empty() {
            return Some(line);
        }
        i += 1;
    }
    None
}

/// An exit status in words.
pub open spec fn status_words(code: Option<i32>) -> Seq<char> {
    match code {
        Some(n) => signed_decimal(n as int),
        None => "unknown"@,
    }
}

fn status_text(code: Option<i32>) -> (r: String)
    ensures
        r@ == status_words(code),
{
    match code {
        Some(n) => signed_number(n as i64),
        None => "unknown".to_owned(),
    }
}

impl ScriptOutcome {
    /// A script succeeds by exiting with 0.
    pub open spec fn succeeded(&self) -> bool {
        self.code == Some(0i32)
    }

    pub fn success(&self) -> (r: bool)
        ensures
            r == self.succeeded(),
    {
        match self.code {
            Some(n) => n == 0,
            None => false,
        }
    }
}

/// What a failed script has to say for itself, from what it printed and wrote to
/// stderr: the first line of either, or else its exit status.
pub open spec fn words_of(
    out: Seq<char>,
    err: Seq<char>,
    code: Option<i32>,
    what: Seq<char>,
) -> Seq<char> {
    match first_line(out) {
        Some(line) => line,
        None => match first_line(err) {
            Some(line) => line,
            None => what + " exited with status "@ + status_words(code),
        },
    }
}

/// What a failed script has to say for itself.
pub open spec fn complaint(outcome: ScriptOutcome, what: Seq<char>) -> Seq<char> {
    words_of(lossy_text(outcome.stdout@), lossy_text(outcome.stderr@), outcome.code, what)
}

/// What a failed script has to say for itself, from what it printed and wrote to
/// stderr.
pub fn script_words(out: &str, err: &str, code: Option<i32>, what: &str) -> (r: String)
    ensures
        r@ == words_of(out@, err@, code, what@),
{
    match leading_line(out) {
        Some(line) => line,
        None => match leading_line(err) {
            Some(line) => line,
            None => cat3(what, " exited with status ", status_text(code).as_str()),
        },
    }
}

impl ScriptHook {
    /// A hook for the script at `path`; none for a blank path.
    pub fn new(path: &str, args: &Vec<String>, timeout_ms: u64) -> (r: Option<ScriptHook>)
        ensures
            match r {
                Some(hook) => {
                    &&& trimmed(path@).len() > 0
                    &&& hook.path@ == path@
                    &&& texts(hook.args@) == texts(args@)
                    &&& hook.timeout_ms == timeout_ms
                },
                None => trimmed(path@).len() == 0,
            },
    {
        if trim(path).as_str().is_empty() {
            None
        } else {
            Some(ScriptHook { path: path.to_owned(), args: crate::text::copies(args), timeout_ms })
        }
    }

    /// What a failed script has to say for itself: the first line it printed,
    /// or else wrote to stderr, or else its exit status.
    pub fn detail(outcome: &ScriptOutcome, what: &str) -> (r: String)
        ensures
            r@ == complaint(*outcome, what@),
    {
        let out = utf8_lossy(outcome.stdout.as_slice());
        let err = utf8_lossy(outcome.stderr.as_slice());
        script_words(out.as_str(), err.as_str(), outcome.code, what)
    }
}

/// What a script has to say is its first line that is not blank, without the white
/// space around it; a script that printed none says nothing.
pub proof fn the_first_line_that_is_not_blank(lines: Seq<Seq<char>>)
    ensures
        first_of(lines) is None <==> forall|i: int|
            0 <= i < lines.len() ==> trimmed(#[trigger] lines[i]).len() == 0,
        forall|i: int|
            0 <= i < lines.len() && trimmed(#[trigger] lines[i]).len() > 0 && (forall|j: int|
                0 <= j < i ==> trimmed(#[trigger] lines[j]).len() == 0) ==> first_of(lines)
                == Some(trimmed(lines[i])),
    decreases lines.len(),
{
    if lines.len() > 0 {
        let rest = lines.skip(1);
        the_first_line_that_is_not_blank(rest);
        assert forall|i: int| 0 <= i < rest.len() implies rest[i] == lines[i + 1] by {}
        if first_of(lines) is None {
            assert forall|i: int| 0 <= i < lines.len() implies trimmed(
                #[trigger] lines[i],
            ).len() == 0 by {
                if i > 0 {
                    assert(trimmed(rest[i - 1]).len() == 0);
                }
            }
        }
        if forall|i: int| 0 <= i < lines.len() ==> trimmed(#[trigger] lines[i]).len() == 0 {
            assert(trimmed(lines[0]).len() == 0);
            assert forall|i: int| 0 <= i < rest.len() implies trimmed(#[trigger] rest[i]).len()
                == 0 by {
                assert(trimmed(lines[i + 1]).len() == 0);
            }
        }
        assert forall|i: int|
            0 <= i < lines.len() && trimmed(#[trigger] lines[i]).len() > 0 && (forall|j: int|
                0 <= j < i ==> trimmed(#[trigger] lines[j]).len() == 0) implies first_of(lines)
            == Some(trimmed(lines[i])) by {
            if i > 0 {
                assert(trimmed(lines[0]).len() == 0);
                assert(trimmed(rest[i - 1]).len() > 0);
                assert forall|j: int| 0 <= j < i - 1 implies trimmed(#[trigger] rest[j]).len()
                    == 0 by {
                    assert(trimmed(lines[j + 1]).len() == 0);
                }
            }
        }
    }
}

/// A complaint is what was printed, or else what was written to stderr, or else the
/// status that the script ended with.
pub proof fn a_complaint_prefers_what_was_printed(
    outcome: ScriptOutcome,
    out: Seq<char>,
    err: Seq<char>,
    code: Option<i32>,
    what: Seq<char>,
)
    ensures
        first_line(out) == first_of(pieces(out, '\n')),
        first_line(out) matches Some(line) ==> words_of(out, err, code, what) == line,
        first_line(out) is None && first_line(err) is Some ==> words_of(out, err, code, what)
            == first_line(err)->Some_0,
        first_line(out) is None && first_line(err) is None && code is Some ==> words_of(
            out,
            err,
            code,
            what,
        ) == what + " exited with status "@ + signed_decimal(code->Some_0 as int),
        first_line(out) is None && first_line(err) is None && code is None ==> words_of(
            out,
            err,
            code,
            what,
        ) == what + " exited with status "@ + "unknown"@,
        complaint(outcome, what) == words_of(
            lossy_text(outcome.stdout@),
            lossy_text(outcome.stderr@),
            outcome.code,
            what,
        ),
{
}

/// A script succeeds by exiting with 0, and in no other way.
pub proof fn only_zero_is_success(outcome: ScriptOutcome)
    ensures
        outcome.succeeded() <==> outcome.code is Some && outcome.code->Some_0 == 0,
{
}

} // verus!
