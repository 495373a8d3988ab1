//! An alternative fitness rule: on generation boundaries each agent's
//! fitness is its raw score. An agent with score zero then has no chance of
//! selection, which the rank rule avoids; the scheduler uses the rank rule.

use vstd::prelude::*;
use crate::components::Score;
use crate::resources::{is_boundary, ResetInterval, Ticks};

verus! {

pub struct RouletteSelection;

impl RouletteSelection {
    pub fn run(
        scores: &Vec<Score>,
        fitness: &mut Vec<u32>,
        ticks: &Ticks,
        interval: &ResetInterval,
    )
        requires
            interval.0 >= 1,
            old(fitness)@.len() == scores@.len(),
        ensures
            final(fitness)@.len() == old(fitness)@.len(),
            is_boundary(ticks.0, interval.0) ==> forall|i: int|
                0 <= i < final(fitness)@.len() ==> #[trigger] final(fitness)@[i]
                    == scores@[i].score,
            !is_boundary(ticks.0, interval.0) ==> final(fitness)@ == old(fitness)@,
    {
        if ticks.get() % interval.0 != 0 {
            return ;
        }
        let n = scores.len();
        let mut i: usize = 0;
        while i < n
            invariant
                i <= n,
                n == scores@.len(),
                fitness@.len() == n,
                forall|k: int| 0 <= k < i ==> #[trigger] fitness@[k] == scores@[k].score,
            decreases n - i,
        {
            fitness.set(i, scores[i].score());
            i = i + 1;
        }
    }
}

} // verus!
