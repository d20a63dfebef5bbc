//! A gate host: one session's gates, its audit chain and its workspace.
use vstd::prelude::*;

pub mod effects;
pub mod host;
pub mod laws;
pub mod model;

verus! {

} // verus!
