//! Finds installed packages that no configured repository offers any more and
//! drives their removal.
//!
//! The library never starts a process itself. It builds the command lines to
//! run, and interprets what running them produced; the caller runs them. Each
//! stage is a function from plain values to plain values, and `pipeline` strings
//! the stages together as a state machine.

pub mod text;
pub mod manager;
pub mod outcome;
pub mod command;
pub mod detect;
pub mod inventory;
pub mod filter;
pub mod remove;
pub mod report;
pub mod pipeline;
pub mod run;
