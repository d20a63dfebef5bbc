//! The audit trail: signed records and the hash chain that links them.
use vstd::prelude::*;

pub mod chain;
pub mod laws;
pub mod record;

verus! {

} // verus!
