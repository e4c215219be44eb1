//! What holds of the library as a whole.

pub mod characters;
pub mod commands;
pub mod detections;
pub mod endings;
pub mod examples;
pub mod files;
pub mod lines;
pub mod lists;
pub mod names;
pub mod outcomes;
pub mod pairs;
pub mod patterns;
pub mod places;
pub mod policies;
pub mod printing;
pub mod reads;
pub mod reports;
pub mod requests;
pub mod tokens;
pub mod values;
pub mod walks;
