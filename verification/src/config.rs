//! Under which names the application keeps its files.

use vstd::prelude::*;

verus! {

/// The top-level domain of the application.
pub const TOP_LEVEL_DOMAIN: &'static str = "Block";

/// The author of the application.
pub const AUTHOR: &'static str = "Block";

/// The name of the application.
pub const APP_NAME: &'static str = "goose";

/// The directory of the sessions, below that of the data.
pub const SESSIONS_DIR: &'static str = "sessions";

/// The file of hints, below the directory of the configuration or of the project.
pub const HINTS_FILE: &'static str = ".goosehints";

/// The directory of the global memories, below that of the configuration.
pub const GLOBAL_MEMORY_DIR: &'static str = "memory";

/// The directory of the local memories, below that of the project.
pub const LOCAL_MEMORY_DIR: &'static str = ".goose/memory";

/// The directory of the logs, below that of the state.
pub const LOG_DIR: &'static str = "logs/cli";

} // verus!
