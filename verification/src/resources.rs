//! The shared per-world values: the tick counter, the generation length,
//! the tick duration, the arena bounds, and the set of targets pending
//! respawn.

use vstd::prelude::*;
use crate::components::Position;

verus! {

/// The fixed duration of one simulation tick, in fixed-point seconds.
#[derive(Clone, Copy, Debug)]
pub struct DeltaTime(pub i64);

/// The exclusive upper corner of the arena; positions wrap at these bounds.
#[derive(Clone, Copy, Debug)]
pub struct MaxPos(pub Position);

/// Which targets were captured this tick and await relocation: one flag per
/// target, deduplicated by construction however many agents hit the target.
#[derive(Debug)]
pub struct HitTargets(pub Vec<bool>);

/// The number of ticks simulated so far.
#[derive(Debug, Default)]
pub struct Ticks(pub u64);

impl Ticks {
    pub fn inc(&mut self)
        requires
            old(self).0 < u64::MAX,
        ensures
            final(self).0 == old(self).0 + 1,
    {
        self.0 = self.0 + 1;
    }

    pub fn get(&self) -> (r: u64)
        ensures
            r == self.0,
    {
        self.0
    }
}

/// How frequently (in ticks) to generate a new population and reset scores.
#[derive(Clone, Copy, Debug)]
pub struct ResetInterval(pub u64);

/// A tick count sits on a generation boundary when it is a positive
/// multiple of the reset interval.
pub open spec fn is_boundary(ticks: u64, interval: u64) -> bool {
    ticks % interval == 0
}

} // verus!
