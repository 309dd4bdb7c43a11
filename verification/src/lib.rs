//! Mirrors the X11 CLIPBOARD selection to the Wayland clipboard.
//!
//! The library holds the decisions: command-line and environment
//! resolution, what to publish for each clipboard change, the reconnect
//! backoff, and the pure parts of the X11 selection protocol. The
//! program around it performs the I/O.
use vstd::prelude::*;

pub mod error;
pub mod cli;
pub mod config;
pub mod daemon;
pub mod mirror;
pub mod text;
pub mod wayland;
pub mod x11;

verus! {

} // verus!
