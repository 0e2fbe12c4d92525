//! The agent's log lines.
pub mod emit;
pub mod format;
pub mod process;
