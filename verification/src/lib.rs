//! Typed schemas, field parsing and time resolution for a small journal and
//! data-entry tool.

pub mod args;
pub mod clock;
pub mod config;
pub mod dialog;
pub mod errors;
pub mod fields;
pub mod numbers;
pub mod schema;
pub mod text;
pub mod trusted;
pub mod utils;
