//! The developer tools: running shell commands, editing files, looking at the screen.

pub mod editor;
pub mod history;
pub mod laws;
pub mod paths;
pub mod router;
pub mod screen;
pub mod shell;
pub mod wording;
