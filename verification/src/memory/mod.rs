//! The memory extension: what the user wants remembered, kept in text files.

pub mod args;
pub mod files;
pub mod laws;
pub mod router;
pub mod store;
pub mod tool_laws;
pub mod wording;
