//! Reward computation and epoch control for a proof-of-work token: solution
//! checks, the reward formula, transaction introspection for proof binding, bus
//! accounting and the smoothed reward-rate controller.

use vstd::prelude::*;

pub mod consts;
pub mod epoch;
pub mod introspection;
pub mod math;
pub mod mine;
pub mod reprocess;
pub mod reward;
pub mod state;
pub mod work;

verus! {

} // verus!
