//! Utility modules: path validation and normalization.

pub mod path;
