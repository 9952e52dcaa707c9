//! The working parts of the goose agent: its sessions, the developer and memory
//! extensions, logging in with OAuth and logging, with their behaviour proved.

pub mod config;
pub mod developer;
pub mod encoding;
pub mod json;
pub mod logging;
pub mod memory;
pub mod message;
pub mod oauth;
pub mod protocol;
pub mod session;
pub mod session_laws;
pub mod text;
pub mod text_laws;
