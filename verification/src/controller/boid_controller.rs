use vstd::prelude::*;
use crate::vector::RealBits;

verus! {

/// Flocking regulator parameters (binary32 bit patterns).
#[derive(Clone, Copy, Debug, PartialEq, Eq, Structural)]
pub struct BoidsController {
    /// Neighbours farther than this are ignored.
    pub interaction_radius: RealBits,
    /// Spacing that the formation force pulls neighbours towards.
    pub desired_distance: RealBits,
    pub formation_gain: RealBits,
    pub alignment_gain: RealBits,
    /// Upper bound on the length of the returned force.
    pub max_force: RealBits,
}

impl BoidsController {
    /// Radius `6.0`, spacing `3.0`, formation gain `1.0`, alignment gain `0.5`,
    /// force bound `5.0`.
    pub open spec fn spec_default() -> BoidsController {
        BoidsController {
            interaction_radius: 0x40c0_0000u32,
            desired_distance: 0x4040_0000u32,
            formation_gain: 0x3f80_0000u32,
            alignment_gain: 0x3f00_0000u32,
            max_force: 0x40a0_0000u32,
        }
    }

    /// The default parameters with the given interaction radius.
    pub fn new(interaction_radius: RealBits) -> (b: BoidsController)
        ensures
            b == (BoidsController { interaction_radius, ..BoidsController::spec_default() }),
    {
        BoidsController { interaction_radius, ..BoidsController::default() }
    }
}

impl Default for BoidsController {
    fn default() -> (b: BoidsController)
        ensures
            b == BoidsController::spec_default(),
    {
        BoidsController {
            interaction_radius: 0x40c0_0000u32,
            desired_distance: 0x4040_0000u32,
            formation_gain: 0x3f80_0000u32,
            alignment_gain: 0x3f00_0000u32,
            max_force: 0x40a0_0000u32,
        }
    }
}

} // verus!
