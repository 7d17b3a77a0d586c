//! Report building for the command line: symbol filtering, the text report
//! and the JSON documents.

pub mod formatter;
pub mod json_output;
pub mod document;

pub use formatter::{apply as apply_filter, by_search as filter_by_search};
