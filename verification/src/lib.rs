//! A dispatcher for a small pool of locally running text-generation backend
//! processes.
//!
//! The library holds the verified logic of the dispatcher: prompt-file
//! parsing and preprocessing, command parsing, the undo/redo response
//! history, cost-based request routing, and the state machines that govern
//! pool startup, incremental preview and cooperative cancellation.  Process
//! spawning and every network call live outside the library and hand it
//! plain values.

pub mod command;
pub mod config;
pub mod error;
pub mod history;
pub mod json;
pub mod num;
pub mod preprocess;
pub mod promptfile;
pub mod router;
pub mod session;
pub mod startup;
pub mod tags;
pub mod text;
pub mod yaml;

use vstd::prelude::*;

verus! {

} // verus!
