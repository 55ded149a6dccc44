//! Lines of status output. The library says what a line reads and in which
//! tone; how a tone looks on a terminal is left to the caller.

use vstd::prelude::*;
use vstd::string::*;

verus! {

/// The tone of a line of output.
#[derive(Clone, Copy, Debug, PartialEq, Eq)]
pub enum Tone {
    /// Ordinary output.
    Plain,
    /// Detail of lesser weight.
    Dim,
    /// A hint to the operator.
    Notice,
    /// Something failed; the run goes on.
    Warning,
    /// The run is complete.
    Success,
}

/// One line of output.
#[derive(Clone, Debug, PartialEq, Eq)]
pub struct ReportLine {
    pub tone: Tone,
    pub text: String,
}

/// The mathematical content of a `ReportLine`.
pub struct LineView {
    pub tone: Tone,
    pub text: Seq<char>,
}

impl View for ReportLine {
    type V = LineView;

    open spec fn view(&self) -> LineView {
        LineView { tone: self.tone, text: self.text@ }
    }
}

/// The content of each line of a list.
pub open spec fn line_views(lines: Seq<ReportLine>) -> Seq<LineView> {
    lines.map_values(|l: ReportLine| l@)
}

/// The cause of a failure, or none for a success.
pub open spec fn cause_of(result: Result<(), String>) -> Option<Seq<char>> {
    match result {
        Ok(_) => None,
        Err(cause) => Some(cause@),
    }
}

/// A line that reads `head` followed by `tail`.
pub fn line_of(tone: Tone, head: &str, tail: &str) -> (line: ReportLine)
    ensures
        line@ == (LineView { tone, text: head@ + tail@ }),
{
    let mut text = String::from_str(head);
    text.append(tail);
    ReportLine { tone, text }
}

/// The line that closes a batch of deletions, whether or not each of them succeeded.
pub open spec fn banner_line() -> LineView {
    LineView { tone: Tone::Success, text: "Done!"@ }
}

/// The line that closes a batch of deletions.
pub fn completion_banner() -> (line: ReportLine)
    ensures
        line@ == banner_line(),
{
    ReportLine { tone: Tone::Success, text: String::from_str("Done!") }
}

} // verus!
