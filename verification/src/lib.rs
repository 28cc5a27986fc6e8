//! Configure, run, and monitor single child processes or entire pipelines
//! of processes.
//!
//! [`ChildBuilder`] configures a child process: its executable, arguments,
//! file descriptors (through the values of the [`ioconfig`] module),
//! environment (built with [`envconfig::EnvironmentBuilder`]) and
//! directories. [`ChildBuilder::spawn_plan`] turns the configuration into
//! the exact sequence of operations that the parent and the child perform
//! around the fork. [`SimplePipelineBuilder`] wires child processes into a
//! pipeline, stdout of each to stdin of the next.
//!
//! The system calls themselves (fork, pipe, dup2, exec, wait, kill) are
//! made by the caller, from the plans and values this crate computes.
#![allow(unused_imports)]

/// Configuration of child processes and the plan of their start.
pub mod creche;
/// Types for manipulating the environment variables of a child process.
pub mod envconfig;
/// Errors of raw system calls, and the classification of their results.
pub mod error;
/// Types used to configure child process file descriptors, for use with
/// [`ChildBuilder::config_io()`].
pub mod ioconfig;
/// Values of the `clone3` system call and of the child status that
/// `waitid` reports.
pub mod pidfd;
/// Helpers for composing child processes into a pipeline.
pub mod pipeline;
/// Arguments and positional tagging of sequences.
pub mod utils;

pub use creche::{ChildBuilder, SpawnPlan};
pub use pipeline::{PipelineChildren, SimplePipelineBuilder};

use vstd::prelude::*;

verus! {

/// Path of the null device that `quiet` redirections write to.
pub const DEVNULL: &'static str = "/dev/null";

} // verus!
