//! CloseEnv: a secretless repository scanner.
//!
//! The crate decides what a repository scan reports. It works on plain values: the
//! paths that were listed, the bytes that were read, the arguments that were given.
//! Every rule is stated as a specification function over sequences of characters and
//! every executable function is proved to compute what its specification says. The module
//! [`laws`] states what holds of the whole.

pub mod checks;
pub mod cli;
pub mod content;
pub mod detect;
pub mod dotenv;
pub mod error;
pub mod json;
pub mod laws;
pub mod listing;
pub mod number;
pub mod order;
pub mod outside;
pub mod package;
pub mod paths;
pub mod policy;
pub mod render;
pub mod report;
pub mod sarif;
pub mod scan;
pub mod secrets;
pub mod text;

pub use policy::{ScanMode, ScanOptions};
pub use render::{report_text, report_text_with_limit};
pub use report::{Finding, ScanCheck, ScanReport, Severity};
pub use scan::{scan_path, scan_path_with_options};
