use vstd::prelude::*;

pub mod distribution;
pub mod errors;
pub mod escrow;
pub mod identity;
pub mod laws;
pub mod lifecycle;
pub mod records;

verus! {

} // verus!
