//! Text recognition through the `tesseract` program: what is found, what
//! its outcome means, and how long to wait for it.

use vstd::prelude::*;
use crate::error::OcrError;
use crate::text::{
    law_trim_removes_only_surrounding_white_space, law_white_space_is_unicode, chars_of, push_signed_decimal, push_str, signed_decimal, string_of, trim, trimmed_string};

verus! {

/// Tesseract-based OCR.
///
/// Recognition runs the system `tesseract` executable; the executable is
/// located once, when the engine is made.
pub struct TesseractOcr {
    executable: Option<String>,
}

impl TesseractOcr {
    /// The executable the engine runs, if one was found.
    pub closed spec fn spec_executable(&self) -> Option<Seq<char>> {
        match self.executable {
            Some(p) => Some(p@),
            None => None,
        }
    }

    /// An engine running the executable that was found, if any.
    pub fn new(executable: Option<String>) -> (r: Self)
        ensures
            r.spec_executable() == (match executable {
                Some(p) => Some(p@),
                None => None,
            }),
    {
        TesseractOcr { executable }
    }

    /// The executable to run; without one, recognition is refused with
    /// `NotInitialized`.
    pub fn executable(&self) -> (r: Result<&String, OcrError>)
        ensures
            match self.spec_executable() {
                Some(p) => r matches Ok(e) && e@ == p,
                None => r matches Err(OcrError::NotInitialized),
            },
    {
        match &self.executable {
            Some(p) => Ok(p),
            None => Err(OcrError::NotInitialized),
        }
    }
}

/// Where the tesseract executable is looked for.
#[derive(Debug, Clone, Copy, PartialEq, Eq, Structural)]
pub enum ExecutableSource {
    /// Asking `where` for the program by name.
    WhereLookup,
    /// Asking `which` for `tesseract` (not on Windows).
    WhichLookup,
    /// The copy bundled in a `tesseract` directory beside the application.
    Bundled,
}

/// The places the executable is looked for, in order.
pub open spec fn spec_search_order(windows: bool) -> Seq<ExecutableSource> {
    if windows {
        seq![ExecutableSource::WhereLookup, ExecutableSource::Bundled]
    } else {
        seq![ExecutableSource::WhereLookup, ExecutableSource::WhichLookup, ExecutableSource::Bundled]
    }
}

/// The places the tesseract executable is looked for, in order; the first
/// that yields an existing file wins.
pub fn executable_search_order(windows: bool) -> (r: Vec<ExecutableSource>)
    ensures
        r@ == spec_search_order(windows),
{
    let mut r: Vec<ExecutableSource> = Vec::new();
    r.push(ExecutableSource::WhereLookup);
    if !windows {
        r.push(ExecutableSource::WhichLookup);
    }
    r.push(ExecutableSource::Bundled);
    r
}

/// What the search for the executable does after looking at one place.
#[derive(Debug, Clone, Copy, PartialEq, Eq, Structural)]
pub enum SearchStep {
    /// Take the path found there.
    Take,
    /// Look at this place next.
    TryNext(ExecutableSource),
    /// Every place was looked at: there is no executable.
    NotFound,
}

/// Decides the search's next move after looking at place number
/// `position` of the search order: a path found there that exists is
/// taken; otherwise the next place is looked at, and after the last one
/// nothing is found.
pub fn next_search_step(windows: bool, position: usize, found: bool, exists: bool) -> (s: SearchStep)
    requires
        position < spec_search_order(windows).len(),
    ensures
        found && exists ==> s == SearchStep::Take,
        !(found && exists) && position + 1 < spec_search_order(windows).len() ==> s
            == SearchStep::TryNext(spec_search_order(windows)[position + 1]),
        !(found && exists) && position + 1 >= spec_search_order(windows).len() ==> s
            == SearchStep::NotFound,
{
    if found && exists {
        return SearchStep::Take;
    }
    let order = executable_search_order(windows);
    if position + 1 < order.len() {
        SearchStep::TryNext(order[position + 1])
    } else {
        SearchStep::NotFound
    }
}

/// The name of the tesseract program on this kind of system.
pub fn tesseract_program(windows: bool) -> (r: &'static str)
    ensures
        r@ == (if windows {
            "tesseract.exe"@
        } else {
            "tesseract"@
        }),
{
    if windows {
        "tesseract.exe"
    } else {
        "tesseract"
    }
}

/// The first line of `s`: everything before the first line feed.
pub open spec fn first_line(s: Seq<char>) -> Seq<char>
    decreases s.len(),
{
    if s.len() == 0 || s[0] == '\n' {
        Seq::empty()
    } else {
        seq![s[0]] + first_line(s.drop_first())
    }
}

/// The first line is the text up to the first line feed: a prefix of `s`
/// holding no line feed, followed in `s` by a line feed or by nothing.
pub proof fn law_first_line(s: Seq<char>)
    ensures
        first_line(s).len() <= s.len(),
        first_line(s) == s.subrange(0, first_line(s).len() as int),
        forall|i: int| 0 <= i < first_line(s).len() ==> #[trigger] first_line(s)[i] != '\n',
        first_line(s).len() < s.len() ==> s[first_line(s).len() as int] == '\n',
    decreases s.len(),
{
    if s.len() > 0 && s[0] != '\n' {
        let t = s.drop_first();
        law_first_line(t);
        let f = first_line(s);
        assert(f == seq![s[0]] + first_line(t));
        assert(f =~= s.subrange(0, f.len() as int));
        assert forall|i: int| 0 <= i < f.len() implies #[trigger] f[i] != '\n' by {
            if i > 0 {
                assert(f[i] == first_line(t)[i - 1]);
            }
        }
        if f.len() < s.len() {
            assert(s[f.len() as int] == t[first_line(t).len() as int]);
        }
    } else {
        assert(s.subrange(0, 0) =~= Seq::<char>::empty());
    }
}

/// The path a lookup command (`where`) printed: its first line without
/// surrounding white space, or none when it printed nothing.
pub fn located_path(output: &str) -> (r: Option<String>)
    ensures
        output@.len() == 0 ==> r is None,
        output@.len() > 0 ==> (r matches Some(p) && p@ == trim(first_line(output@))),
{
    let v = chars_of(output);
    if v.len() == 0 {
        return None;
    }
    let mut i: usize = 0;
    proof {
        assert(v@.subrange(0, 0) + v@.subrange(0, v@.len() as int) =~= v@);
    }
    while i < v.len() && v[i] != '\n'
        invariant
            i <= v.len(),
            v@ == output@,
            first_line(v@) == v@.subrange(0, i as int) + first_line(v@.subrange(i as int, v@.len() as int)),
        decreases v.len() - i,
    {
        proof {
            let t = v@.subrange(i as int, v@.len() as int);
            assert(t.drop_first() =~= v@.subrange(i + 1, v@.len() as int));
            assert(v@.subrange(0, i + 1) =~= v@.subrange(0, i as int) + seq![t[0]]);
        }
        i = i + 1;
    }
    proof {
        let t = v@.subrange(i as int, v@.len() as int);
        assert(first_line(t) =~= Seq::<char>::empty());
        assert(first_line(v@) =~= v@.subrange(0, i as int));
    }
    Some(trimmed_string(&v, 0, i))
}

/// How an exit code is written in the failure message (`{:?}` of an
/// `Option<i32>`).
pub open spec fn exit_code_text(code: Option<i32>) -> Seq<char> {
    match code {
        Some(c) => "Some("@ + signed_decimal(c as int) + ")"@,
        None => "None"@,
    }
}

/// The error for a tesseract run that did not succeed, naming its exit
/// code (none when it was ended by a signal).
pub fn exit_failure(code: Option<i32>) -> (e: OcrError)
    ensures
        e matches OcrError::Recognition(m) && m@ == "Tesseract exited with code "@
            + exit_code_text(code),
{
    let mut m = string_of("Tesseract exited with code ");
    match code {
        Some(c) => {
            push_str(&mut m, "Some(");
            push_signed_decimal(&mut m, c as i64);
            push_str(&mut m, ")");
        },
        None => push_str(&mut m, "None"),
    }
    OcrError::Recognition(m)
}

/// The recognised text: tesseract's output without surrounding white space.
pub fn recognized_text(output: &str) -> (r: String)
    ensures
        r@ == trim(output@),
{
    let v = chars_of(output);
    proof {
        assert(v@.subrange(0, v@.len() as int) =~= v@);
    }
    trimmed_string(&v, 0, v.len())
}

/// The recognised text keeps nothing of the white space around tesseract's
/// output: in particular it neither starts nor ends with the form feed
/// that ends each page, or with a line break.
pub proof fn law_recognized_text_drops_page_breaks(output: Seq<char>)
    ensures
        trim(output).len() > 0 ==> trim(output)[0] != '\u{0C}' && trim(output).last() != '\u{0C}'
            && trim(output)[0] != '\n' && trim(output).last() != '\n' && trim(output).last()
            != '\r',
{
    law_trim_removes_only_surrounding_white_space(output);
    if trim(output).len() > 0 {
        law_white_space_is_unicode(trim(output)[0]);
        law_white_space_is_unicode(trim(output).last());
    }
}

/// What polling the tesseract process found.
#[derive(Debug, Clone, PartialEq, Eq)]
pub enum ChildPoll {
    /// The process has ended.
    Exited,
    /// The process is still running.
    Running,
    /// Asking about the process failed, with this reason.
    Failed(String),
}

/// What to do after polling the tesseract process.
#[derive(Debug)]
pub enum WaitStep {
    /// It ended: look at its exit status.
    Done,
    /// It is still running and time is left: sleep, then poll again.
    PollAgain,
    /// Give up: kill the process (on a timeout) and report this message.
    GiveUp(String, bool),
}

/// Decides the next step of waiting for tesseract after `elapsed_ms` of a
/// `timeout_ms` budget: a running process is killed once the budget is
/// spent, and a failed poll ends the wait.
pub fn next_wait_step(poll: ChildPoll, elapsed_ms: u64, timeout_ms: u64) -> (s: WaitStep)
    ensures
        match poll {
            ChildPoll::Exited => s matches WaitStep::Done,
            ChildPoll::Running => if elapsed_ms >= timeout_ms {
                s matches WaitStep::GiveUp(m, kill) && kill && m@
                    == "Tesseract timed out after 30 seconds"@
            } else {
                s matches WaitStep::PollAgain
            },
            ChildPoll::Failed(e) => s matches WaitStep::GiveUp(m, kill) && !kill && m@
                == "Failed to wait for tesseract: "@ + e@,
        },
{
    match poll {
        ChildPoll::Exited => WaitStep::Done,
        ChildPoll::Running => {
            if elapsed_ms >= timeout_ms {
                WaitStep::GiveUp(string_of("Tesseract timed out after 30 seconds"), true)
            } else {
                WaitStep::PollAgain
            }
        },
        ChildPoll::Failed(e) => {
            let mut m = string_of("Failed to wait for tesseract: ");
            push_str(&mut m, e.as_str());
            WaitStep::GiveUp(m, false)
        },
    }
}

}
