//! Resolution of one project's effective build configuration: file groups,
//! inherited and local tasks, and token expansion of task fields.
use vstd::prelude::*;

pub mod config;
pub mod errors;
pub mod expand;
pub mod file_group;
pub mod inherit;
pub mod laws;
pub mod project;
pub mod strings;
pub mod target;
pub mod task;
pub mod token;

verus! {

} // verus!
