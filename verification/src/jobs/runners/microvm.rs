//! Jobs in virtual machines of their own.
pub mod command;
pub mod guest;
pub mod image;
pub mod project;
pub mod qemu;
pub mod runner;
pub mod service;
pub mod util;
pub mod wait;

pub use self::runner::{MicrovmRunner, ProjectMicrovmRunner};
