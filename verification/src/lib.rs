//! Gaffa, a process manager for Procfile based applications in a single
//! terminal.
//!
//! The library decides, and leaves the outside work to its caller: it parses
//! Procfiles, says which children to spawn and when to end them, lays out what
//! the terminal shows, and keeps the state of the interactive screen.

pub mod actor;
pub mod color;
pub mod console;
pub mod console_laws;
pub mod constants;
pub mod manager_laws;
pub mod name_map;
pub mod output;
pub mod platform;
pub mod process_manager;
pub mod procfile;
pub mod screen;
pub mod screen_laws;
pub mod session;
pub mod session_laws;
pub mod shell;
pub mod status;
pub mod summary;
pub mod text;
pub mod text_laws;
pub mod types;
pub mod ui;

pub use process_manager::{LifecycleOptions, ProcessManager};
pub use procfile::parse_env_file;
pub use shell::Shell;
pub use types::{ProcessError, ProcessInfo, ProcessStatus};
