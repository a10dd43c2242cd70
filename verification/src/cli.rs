//! The command-line options of the extended interface. Argument parsing
//! itself happens outside the library; these types carry the parsed values.

use vstd::prelude::*;

verus! {

/// Function analyzer options: where to look and how to report.
#[derive(Debug)]
pub struct Cli {
    /// Directory to analyze for Rust files.
    pub directory: String,
    /// Show verbose output with additional information.
    pub verbose: bool,
    /// Minimum lines of code a function must have to be displayed.
    pub min_lines: usize,
    /// Maximum number of functions to display.
    pub limit: Option<usize>,
    /// Sort criterion for the function listing.
    pub sort: SortBy,
    /// Output format.
    pub format: OutputFormat,
}

/// What to sort the function listing by.
#[derive(Clone, Debug)]
pub enum SortBy {
    /// Sort by total lines.
    Total,
    /// Sort by code lines (the default).
    Code,
    /// Sort by comment lines.
    Comments,
    /// Sort by function name.
    Name,
}

/// How to render the function listing.
#[derive(Clone, Debug)]
pub enum OutputFormat {
    /// Table format (the default).
    Table,
    /// JSON format.
    Json,
    /// CSV format.
    Csv,
}

} // verus!
