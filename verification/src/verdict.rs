//! The output classifier: from the raw text of one build-and-run cycle to a verdict.

use crate::body::Kind;
use crate::synth::value_mark;
use crate::text::{contains, occurs_at, find_first, first_occurrence, to_chars, trim, trimmed};
use vstd::prelude::*;
use vstd::string::*;

verus! {

/// The result of one build-and-run cycle.
#[derive(Debug)]
pub enum Verdict {
    /// The toolchain reported diagnostics; the text is its output, verbatim.
    CompileError(String),
    /// The program ended abnormally; the text is the output, verbatim.
    RuntimeFailure(String),
    /// The program ran; the value of its tail expression, if it printed one.
    Success(Option<String>),
}

/// A verdict as plain values.
pub enum VerdictView {
    CompileError(Seq<char>),
    RuntimeFailure(Seq<char>),
    Success(Option<Seq<char>>),
}

impl View for Verdict {
    type V = VerdictView;

    open spec fn view(&self) -> VerdictView {
        match self {
            Verdict::CompileError(t) => VerdictView::CompileError(t@),
            Verdict::RuntimeFailure(t) => VerdictView::RuntimeFailure(t@),
            Verdict::Success(Some(v)) => VerdictView::Success(Some(v@)),
            Verdict::Success(None) => VerdictView::Success(None),
        }
    }
}

/// The word by which the toolchain marks a diagnostic that stops the build.
pub open spec fn error_mark() -> Seq<char> {
    "error"@
}

/// The value printed after the first value mark, without the whitespace around it.
pub open spec fn printed_value(raw: Seq<char>) -> Option<Seq<char>> {
    match first_occurrence(raw, value_mark()) {
        Some(i) => Some(trimmed(raw.subrange(i + value_mark().len(), raw.len() as int))),
        None => None,
    }
}

/// The verdict on an output: diagnostics first, then the exit status, then the value.
pub open spec fn verdict_of(raw: Seq<char>, exit_ok: bool, tail: Kind) -> VerdictView {
    if contains(raw, error_mark()) {
        VerdictView::CompileError(raw)
    } else if !exit_ok {
        VerdictView::RuntimeFailure(raw)
    } else if tail == Kind::Expression {
        VerdictView::Success(printed_value(raw))
    } else {
        VerdictView::Success(None)
    }
}

/// Reads the printed value off an output.
pub fn extract_value(raw: &str) -> (r: Option<String>)
    ensures
        match printed_value(raw@) {
            Some(v) => r is Some && r->Some_0@ == v,
            None => r is None,
        },
{
    let hay = to_chars(raw);
    let mark = to_chars("[irust:value] ");
    match find_first(&hay, &mark) {
        Some(i) => {
            let n: usize = hay.len();
            assert(occurs_at(hay@, mark@, i as int));
            let rest = raw.substring_char(i + mark.len(), n);
            Some(trim(rest))
        },
        None => None,
    }
}

/// Classifies the output of one cycle. `exit_ok` says that the process ended
/// normally; `tail` is the kind of the candidate at the end of the program.
pub fn classify(raw: &str, exit_ok: bool, tail: Kind) -> (r: Verdict)
    ensures
        r@ == verdict_of(raw@, exit_ok, tail),
{
    let hay = to_chars(raw);
    let mark = to_chars("error");
    if find_first(&hay, &mark).is_some() {
        Verdict::CompileError(String::from_str(raw))
    } else if !exit_ok {
        Verdict::RuntimeFailure(String::from_str(raw))
    } else if tail == Kind::Expression {
        Verdict::Success(extract_value(raw))
    } else {
        Verdict::Success(None)
    }
}

} // verus!
