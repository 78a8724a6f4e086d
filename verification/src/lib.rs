//! Planning and execution of tasks on local and remote hosts.
//!
//! Tasks are compiled into plans of `sh`-compatible commands, each guarded by
//! checks (`Ensure`s) that are run on the target host before the command. The
//! library holds the planning logic, the decisions of the executors and of the
//! command line, controller and agent programs, and the text they produce.

pub mod text;
pub mod plan;
pub mod executor;
pub mod ipc;
pub mod apply;
pub mod cli;
pub mod controller;
pub mod agent;
pub mod log;
