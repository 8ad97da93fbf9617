//! Fresh goal identifiers for `send_goal`.

use vstd::prelude::*;
use crate::ids::GoalId;

verus! {

/// Relies on rand::random: a uniformly random 128-bit value from the
/// thread's generator. Nothing is promised of the result: it depends on the
/// generator's state. The call can fail only by aborting, if the operating
/// system's entropy source fails while the generator initializes or
/// reseeds; no input controls that.
#[verifier::external_body]
fn random_u128() -> u128 {
    rand::random::<u128>()
}

/// Draws a fresh random goal id. Two draws collide only when two 128-bit
/// random values coincide, so ids are distinct in practice across any
/// realistic number of goals.
pub fn fresh_goal_id() -> GoalId {
    GoalId::from_u128(random_u128())
}

} // verus!
