//! Per-function source-code metrics for Rust code: line composition
//! (code/comment/blank), cyclomatic complexity, and maximum nesting depth.
//!
//! The structural metrics are computed over the crate's own syntax-tree
//! model ([`ast`]); parsing source text into that model, file discovery and
//! printing are left to the surrounding application.

pub mod ast;
pub mod cli;
pub mod client;
pub mod counts;
pub mod cyclomatic_complexity;
pub mod errors;
pub mod file_scanner;
pub mod function_analyzer;
pub mod function_extractor;
pub mod laws;
pub mod nesting_depth;
pub mod output_formatter;

pub use client::Client;
pub use client::OutputFormat;
pub use errors::AnalysisError;
pub use errors::AnalysisResult;
pub use function_analyzer::FunctionAnalysisResult;