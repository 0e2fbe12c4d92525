//! The agent: its session with the server, and the jobs that it is given.
pub mod archive;
pub mod cli;
pub mod git;
pub mod job;
pub mod session;
pub mod update;
