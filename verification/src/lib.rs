//! Verified decision logic of `rift-ergo`, a helper for the Rift window manager.
//!
//! The library decides; it reaches nothing by itself. [`cli`] reads the command line, and
//! [`session`] takes a command step by step, naming what it needs from the outside: a query or
//! a command to Rift, an event, the clock, the policy or macOS. The commands stand in
//! [`workflow`], over the queries of [`rift`], the waits of [`transaction`], the monitor
//! [`policy`] and the recovery of [`space_escape`].
//!
//! What a command does is stated as a program in [`dialogue`]. What holds of the commands as a
//! whole is stated and proved in [`laws`].
pub mod cli;
pub mod dialogue;
pub mod error;
pub mod geometry;
pub mod laws;
pub mod model;
pub mod names;
pub mod policy;
pub mod rift;
pub mod session;
pub mod space_escape;
pub mod text;
pub mod transaction;
pub mod workflow;
