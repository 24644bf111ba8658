//! Source locations, statements and diagnostics.

pub mod error;
pub mod location;
pub mod message;
pub mod stmt;
