//! The command engine of an interactive shell over a multi-table key-value
//! store: it turns a command line into a closed set of requests, and renders
//! what the storage backend reports into the text the shell prints.

use vstd::prelude::*;

pub mod command;
pub mod commands;
pub mod text;

verus! {

} // verus!
