//! Process supervisor library: the control protocol, the per-child
//! supervision state machine, the supervisor's dispatch rules and the
//! configuration model, each stated and proved with Verus.

use vstd::prelude::*;

pub mod frame;
pub mod text;
pub mod api;
pub mod shell;
pub mod config;
pub mod log;
pub mod process;
pub mod supervisor;
pub mod server;
pub mod client;
pub mod parser;
pub mod number;
pub mod config_parser;
pub mod command;

verus! {

/// Port on which the daemon listens by default (loopback only).
pub const DEFAULT_PORT: u16 = 9450;

} // verus!
