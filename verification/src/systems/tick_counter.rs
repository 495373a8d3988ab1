//! Advances the tick counter; runs first in every tick.

use vstd::prelude::*;
use crate::resources::Ticks;

verus! {

pub struct TickCounter;

impl TickCounter {
    pub fn run(ticks: &mut Ticks)
        requires
            old(ticks).0 < u64::MAX,
        ensures
            final(ticks).0 == old(ticks).0 + 1,
    {
        ticks.inc();
    }
}

} // verus!
