[package]
name = "gaffa"
version = "0.1.0"
edition = "2021"
publish = false

[dependencies]
chrono = "0.4"
clap = "4"
cli-clipboard = "0.4"
colored = "3"
crossterm = "0.28"
libc = "0.2"
ratatui = "0.29"
regex = "1"
shell-words = "1"
thiserror = "2"
tokio = { version = "1", features = ["full"] }
unicode-width = "0.2"
winapi = { version = "0.3", features = ["consoleapi", "handleapi", "jobapi2", "minwindef", "processenv", "processthreadsapi", "winbase", "wincon", "winnt"] }
