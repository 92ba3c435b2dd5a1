//! The wire contract with the analyzer: how it is launched, how a request
//! is framed, and what a line read from it means.

use crate::text::{contains, has_infix, trim, trimmed};
use vstd::prelude::*;
use vstd::string::StringExecFns;

verus! {

/// The text by which the analyzer announces, on its diagnostic stream, that
/// it has finished loading.
pub const READY_MARKER: &'static str = "System ready!";

/// The program that runs the analyzer's packaged artifact.
pub const INTERPRETER: &'static str = "java";

/// The interpreter's option that introduces the artifact's path.
pub const ARTIFACT_OPTION: &'static str = "-jar";

/// The character that ends a request.
pub const LINE_END: char = '\n';

/// A program to launch and the arguments to hand it. Its three standard
/// streams are to be captured.
#[derive(Debug, PartialEq, Eq)]
pub struct LaunchCommand {
    pub program: String,
    pub args: Vec<String>,
}

/// The mathematical content of a [`LaunchCommand`].
pub struct LaunchCommandView {
    pub program: Seq<char>,
    pub args: Seq<Seq<char>>,
}

impl View for LaunchCommand {
    type V = LaunchCommandView;

    open spec fn view(&self) -> LaunchCommandView {
        LaunchCommandView { program: self.program@, args: self.args.deep_view() }
    }
}

/// The invocation of the analyzer whose artifact lies at `artifact`, with
/// `flags` after the artifact's path.
pub open spec fn invocation(artifact: Seq<char>, flags: Seq<Seq<char>>) -> LaunchCommandView {
    LaunchCommandView {
        program: INTERPRETER@,
        args: seq![ARTIFACT_OPTION@, artifact] + flags,
    }
}

/// Whether a line of the diagnostic stream announces readiness: the
/// marker appears somewhere in it.
pub open spec fn announces_ready(line: Seq<char>) -> bool {
    has_infix(line, READY_MARKER@)
}

/// Whether a line of the output stream carries no answer: it is blank, or
/// it is the readiness marker with nothing but white space around it.
pub open spec fn is_noise(line: Seq<char>) -> bool {
    trimmed(line).len() == 0 || trimmed(line) == READY_MARKER@
}

/// `text` as one line on the wire.
pub open spec fn framed(text: Seq<char>) -> Seq<char> {
    text.push(LINE_END)
}

/// The command that launches the analyzer.
pub fn launch_command(artifact: &str, flags: &Vec<String>) -> (command: LaunchCommand)
    ensures
        command@ == invocation(artifact@, flags.deep_view()),
{
    let mut args: Vec<String> = Vec::new();
    args.push(String::from_str(ARTIFACT_OPTION));
    args.push(String::from_str(artifact));
    let n: usize = flags.len();
    let mut i: usize = 0;
    while i < n
        invariant
            i <= n,
            n == flags@.len(),
            args.deep_view() == seq![ARTIFACT_OPTION@, artifact@] + flags.deep_view().take(
                i as int,
            ),
        decreases n - i,
    {
        let ghost before = args.deep_view();
        args.push(flags[i].clone());
        assert(args.deep_view() =~= before.push(flags.deep_view()[i as int]));
        i += 1;
    }
    assert(flags.deep_view().take(n as int) == flags.deep_view());
    LaunchCommand { program: String::from_str(INTERPRETER), args }
}

/// Frames a request for the wire: the text, then a line end.
pub fn frame_request(text: &str) -> (line: String)
    ensures
        line@ == framed(text@),
{
    let mut line = String::from_str(text);
    line.push(LINE_END);
    line
}

/// Whether a line read from the diagnostic stream announces that the
/// analyzer is ready.
pub fn is_ready_line(line: &str) -> (ready: bool)
    ensures
        ready == announces_ready(line@),
{
    contains(line, READY_MARKER)
}

/// The answer that a line read from the output stream carries, if any:
/// the line without the white space around it. Blank lines and repeats of
/// the readiness marker carry none.
pub fn response_of(line: &str) -> (answer: Option<String>)
    ensures
        is_noise(line@) <==> answer is None,
        answer matches Some(text) ==> text@ == trimmed(line@),
{
    let text = trim(line);
    let marker = String::from_str(READY_MARKER);
    if text.as_str().is_empty() || text == marker {
        None
    } else {
        Some(text)
    }
}

} // verus!
