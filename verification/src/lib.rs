//! The Statix host agent.
pub mod agent;
pub mod digest;
pub mod jobs;
pub mod logs;
pub mod metrics;
pub mod netaddr;
pub mod networking;
pub mod paths;
pub mod process;
pub mod segment;
pub mod shell;
pub mod stream;
pub mod text;
