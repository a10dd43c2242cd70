//! Errors that can occur around a function analysis run.

use vstd::prelude::*;
use vstd::string::StringExecFns;

verus! {

/// Errors that can occur during function analysis.
#[derive(Debug)]
pub enum AnalysisError {
    /// An input/output failure, carrying the underlying error's text.
    Io(String),
    /// A directory that could not be walked.
    DirectoryNotAccessible { directory: String },
    /// A directory in which no Rust source file was found.
    NoRustFiles { directory: String },
}

/// Result type alias for convenience.
pub type AnalysisResult<T> = Result<T, AnalysisError>;

/// The message text of each error.
pub open spec fn spec_message(e: AnalysisError) -> Seq<char> {
    match e {
        AnalysisError::Io(m) => ("IO error: ")@ + m@,
        AnalysisError::DirectoryNotAccessible { directory } => ("Directory not accessible: ")@
            + directory@,
        AnalysisError::NoRustFiles { directory } => ("No Rust files found in directory: ")@
            + directory@,
    }
}

impl AnalysisError {
    /// A human-readable description of the error.
    pub fn message(&self) -> (r: String)
        ensures
            r@ == spec_message(*self),
    {
        match self {
            AnalysisError::Io(m) => {
                let mut s = String::from_str("IO error: ");
                s.append(m.as_str());
                s
            },
            AnalysisError::DirectoryNotAccessible { directory } => {
                let mut s = String::from_str("Directory not accessible: ");
                s.append(directory.as_str());
                s
            },
            AnalysisError::NoRustFiles { directory } => {
                let mut s = String::from_str("No Rust files found in directory: ");
                s.append(directory.as_str());
                s
            },
        }
    }
}

} // verus!
