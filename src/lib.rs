//! A payment-gated allocator that hands out items drawn at random, without
//! replacement, from a dense pool.
use vstd::prelude::*;

pub mod contract;
pub mod crypto;
pub mod msg;
pub mod pool;
pub mod state;

verus! {

} // verus!
