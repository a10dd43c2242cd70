//! The command-line options of the plain interface. Argument parsing
//! itself happens outside the library; these types carry the parsed values.

use vstd::prelude::*;

verus! {

/// Function analyzer options: the directory to scan and the output format.
#[derive(Debug)]
pub struct Client {
    /// Directory to analyze for Rust files.
    pub directory: String,
    /// Output format.
    pub format: OutputFormat,
}

/// How to render the function listing.
#[derive(Clone, Debug)]
pub enum OutputFormat {
    /// Table format (the default).
    Table,
    /// JSON format.
    Json,
    /// CSV format.
    Csv,
}

} // verus!
