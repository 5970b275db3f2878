//! Times, exit codes and sizes that the whole program goes by. Spans of time
//! are in nanoseconds.

use vstd::prelude::*;

verus! {

pub const NANOS_PER_MILLI: u128 = 1_000_000;

pub const NANOS_PER_SEC: u128 = 1_000_000_000;

/// The longest span of time there is: 2^64 - 1 seconds and the nanoseconds
/// short of one more.
pub const MAX_SPAN: u128 = 18_446_744_073_709_551_615_999_999_999;

/// How long a process has to exit once it was asked to, unless
/// `ProcessManager::set_shutdown_timeout` says otherwise.
pub const GRACEFUL_SHUTDOWN_TIMEOUT: u128 = 10_000_000_000;

/// Window to confirm a force-killed process has actually exited.
pub const PROCESS_WAIT_TIMEOUT: u128 = 2_000_000_000;

/// Poll interval while waiting for a terminating process to exit.
pub const TERMINATION_POLL_INTERVAL: u128 = 100_000_000;

/// What the wait for one process of many gets on top of its own timeout.
pub const STOP_ALL_CUSHION: u128 = 1_000_000_000;

/// Pause after all processes were told to stop.
pub const STOP_ALL_SETTLE: u128 = 100_000_000;

/// Pause between the end of a process and its restart, so that its ports and
/// files are free again.
pub const RESTART_SETTLE: u128 = 200_000_000;

pub const EXIT_CODE_KEYBOARD_INTERRUPT: i32 = 512;

pub const EXIT_CODE_CTRL_C_WINDOWS: i32 = -1073741510;

pub const EXIT_CODE_FORCED_TERMINATION: i32 = -1;

/// Windows creation flag that makes the child lead a process group.
pub const CREATE_NEW_PROCESS_GROUP: u32 = 0x00000200;

pub const TERMINAL_SEPARATOR_WIDTH: usize = 79;

pub const MAX_DISPLAY_LINES: usize = 10;

/// How many entries the shared log keeps.
pub const MAX_LOG_LINES: usize = 1000;

/// How many entries the screen keeps.
pub const MAX_UI_LOGS: usize = 10000;

/// The length of the name "gaffa".
pub const GAFFA_LEN: usize = 5;

/// The spans of time go with each other: a second is a thousand milliseconds, a process
/// has ten seconds to exit and two to be gone once it is killed, in which it is looked
/// at ten times a second, and the pauses between operations are shorter than a second.
pub proof fn law_spans_go_with_each_other()
    ensures
        NANOS_PER_SEC == 1000 * NANOS_PER_MILLI,
        MAX_SPAN == u64::MAX * NANOS_PER_SEC + (NANOS_PER_SEC - 1),
        GRACEFUL_SHUTDOWN_TIMEOUT == 10 * NANOS_PER_SEC,
        PROCESS_WAIT_TIMEOUT == 2 * NANOS_PER_SEC,
        10 * TERMINATION_POLL_INTERVAL == NANOS_PER_SEC,
        STOP_ALL_CUSHION == NANOS_PER_SEC,
        STOP_ALL_SETTLE == 100 * NANOS_PER_MILLI,
        RESTART_SETTLE == 2 * STOP_ALL_SETTLE,
        NANOS_PER_MILLI == 1_000_000,
        MAX_UI_LOGS == 10 * MAX_LOG_LINES && MAX_LOG_LINES == 1000,
        GAFFA_LEN == "gaffa"@.len(),
{
    reveal_strlit("gaffa");
}

} // verus!
