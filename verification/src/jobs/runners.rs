//! The runners of jobs.
pub mod container;
pub mod microvm;
