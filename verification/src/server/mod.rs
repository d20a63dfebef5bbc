//! The session server: two seats, one host, and what they see.
use vstd::prelude::*;

pub mod closing;
pub mod effects;
pub mod laws;
pub mod model;
mod net;
pub mod presence;
pub mod session;
pub mod showing;
pub mod wire;

verus! {

} // verus!
