//! Logging in with OAuth: where the token is kept, how it is asked for and how the
//! browser hands over the code.

pub mod callback;
pub mod discovery;
pub mod flow;
pub mod laws;
pub mod login;
pub mod token;
