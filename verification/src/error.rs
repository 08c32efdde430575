//! The ways in which an operation of the session can fail.

use vstd::prelude::*;
use vstd::string::*;

verus! {

/// Every failure is recoverable: the session goes on after it.
#[derive(Debug)]
pub enum IRustError {
    /// The toolchain could not be launched at all.
    ToolchainUnavailable,
    /// The toolchain reported diagnostics; the text is its output.
    CompileError(String),
    /// The program was built and ran, and ended abnormally.
    RuntimeFailure(String),
    /// A fragment was addressed by a position that the body does not have.
    InvalidIndex,
    /// A fragment was to be taken from an empty body.
    EmptyStore,
    /// A dependency's path could not be made absolute.
    InvalidDependencyPath,
    /// A file could not be read or written; the text says why.
    IoFailure(String),
    /// A file's content is not UTF-8.
    NonUtf8Content,
    /// The type of an expression could not be read off the diagnostics.
    UnknownType,
    /// A directive came without the argument it needs.
    MissingArgument,
}

impl IRustError {
    /// The text that the toolchain or the system gave with the failure, if any.
    pub open spec fn detail(self) -> Seq<char> {
        match self {
            IRustError::CompileError(t) => t@,
            IRustError::RuntimeFailure(t) => t@,
            IRustError::IoFailure(t) => t@,
            _ => Seq::empty(),
        }
    }

    /// The fixed part of the message shown for this failure.
    pub open spec fn headline(self) -> Seq<char> {
        match self {
            IRustError::ToolchainUnavailable => "The build toolchain could not be started"@,
            IRustError::CompileError(_) => ""@,
            IRustError::RuntimeFailure(_) => ""@,
            IRustError::InvalidIndex => "Incorrect line number"@,
            IRustError::EmptyStore => "Nothing to remove"@,
            IRustError::InvalidDependencyPath => "The dependency path could not be resolved"@,
            IRustError::IoFailure(_) => "IO error: "@,
            IRustError::NonUtf8Content => "The specified file is not utf8 encoded"@,
            IRustError::UnknownType => "Unknown"@,
            IRustError::MissingArgument => "Missing argument"@,
        }
    }

    /// The message to show: the headline, then the detail.
    pub fn message(&self) -> (r: String)
        ensures
            r@ == self.headline() + self.detail(),
    {
        let mut out = match self {
            IRustError::ToolchainUnavailable => String::from_str(
                "The build toolchain could not be started",
            ),
            IRustError::CompileError(_) => String::from_str(""),
            IRustError::RuntimeFailure(_) => String::from_str(""),
            IRustError::InvalidIndex => String::from_str("Incorrect line number"),
            IRustError::EmptyStore => String::from_str("Nothing to remove"),
            IRustError::InvalidDependencyPath => String::from_str(
                "The dependency path could not be resolved",
            ),
            IRustError::IoFailure(_) => String::from_str("IO error: "),
            IRustError::NonUtf8Content => String::from_str(
                "The specified file is not utf8 encoded",
            ),
            IRustError::UnknownType => String::from_str("Unknown"),
            IRustError::MissingArgument => String::from_str("Missing argument"),
        };
        match self {
            IRustError::CompileError(t) => out.append(t.as_str()),
            IRustError::RuntimeFailure(t) => out.append(t.as_str()),
            IRustError::IoFailure(t) => out.append(t.as_str()),
            _ => {
                assert(out@ + Seq::<char>::empty() =~= out@);
            },
        }
        out
    }
}

} // verus!
