//! Engine tunables.
//!
//! Probabilities gate a uniform 64-bit draw: an event with probability `p`
//! fires when the draw is below `p * 2^64` rounded to the nearest integer, a
//! pure integer comparison.  Real-valued tunables are binary64 bit patterns.
use vstd::prelude::*;

verus! {

/// Probability that each link weight is mutated in a mutation pass (0.2),
/// as a draw threshold.
pub const MUTATION_RATE_GATE: u64 = 0x3333333333333333;

/// Probability that an offspring slot is filled by crossover rather than by
/// a mutated clone (0.7), as a draw threshold.
pub const CROSSOVER_RATE_GATE: u64 = 0xB333333333333333;

/// Probability that an add-node mutation fires in a mutation pass (0.03).
pub const ADD_NODE_GATE: u64 = 0x07AE147AE147AE14;

/// Probability that an add-link mutation fires when add-node did not (0.05).
pub const ADD_LINK_GATE: u64 = 0x0CCCCCCCCCCCCCCD;

/// Probability that a mutated weight is replaced outright instead of
/// perturbed (0.1).
pub const WEIGHT_REPLACE_GATE: u64 = 0x199999999999999A;

/// Probability that a matching gene disabled in either parent stays disabled
/// in the offspring (0.75).
pub const INHERIT_DISABLED_GATE: u64 = 0xC000000000000000;

/// An even coin for matching-gene selection (0.5).
pub const HALF_GATE: u64 = 0x8000000000000000;

/// Compatibility-distance coefficient for excess genes (1.0, binary64 bits).
pub const EXCESS_COEFF: u64 = 0x3FF0000000000000;

/// Compatibility-distance coefficient for disjoint genes (1.0).
pub const DISJOINT_COEFF: u64 = 0x3FF0000000000000;

/// Compatibility-distance coefficient for the mean weight difference (0.4).
pub const WEIGHT_COEFF: u64 = 0x3FD999999999999A;

/// Initial compatibility threshold for joining a species (3.0).
pub const COMPAT_THRESHOLD: u64 = 0x4008000000000000;

/// Step by which the compatibility threshold is nudged to keep the species
/// count near the target (0.3).
pub const THRESHOLD_STEP: u64 = 0x3FD3333333333333;

/// The species-count band the threshold adjustment aims for.
pub const TARGET_SPECIES: usize = 4;

/// Generations a species may go without improving before removal (15).
pub const STAGNATION_LIMIT: u32 = 15;

/// Minimum species size for keeping an unmutated elite.
pub const ELITE_MIN_SIZE: usize = 5;

/// Attempts an add-link mutation makes to find a valid unconnected pair
/// before silently giving up.
pub const ADD_LINK_RETRIES: usize = 5;

/// Below this many link genes in the larger genome, the distance terms are
/// not normalized by genome size.
pub const SMALL_GENOME_LIMIT: usize = 20;

/// Magnitude of a weight perturbation step (0.5, binary64 bits).
pub const MAX_PERTURBATION: u64 = 0x3FE0000000000000;

/// Upper cap on a mutated weight (8.0, binary64 bits).
pub const WEIGHT_CAP: u64 = 0x4020000000000000;

/// Lower cap on a mutated weight (-8.0, binary64 bits).
pub const WEIGHT_CAP_NEG: u64 = 0xC020000000000000;

} // verus!
