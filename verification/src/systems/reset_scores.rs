//! Zeroes every agent's score on generation boundaries.

use vstd::prelude::*;
use crate::components::Score;
use crate::resources::{is_boundary, ResetInterval, Ticks};

verus! {

pub struct ResetScores;

impl ResetScores {
    pub fn run(scores: &mut Vec<Score>, ticks: &Ticks, interval: &ResetInterval)
        requires
            interval.0 >= 1,
        ensures
            final(scores)@.len() == old(scores)@.len(),
            is_boundary(ticks.0, interval.0) ==> forall|i: int|
                0 <= i < final(scores)@.len() ==> (#[trigger] final(scores)@[i]).score == 0,
            !is_boundary(ticks.0, interval.0) ==> final(scores)@ == old(scores)@,
    {
        if ticks.get() % interval.0 != 0 {
            return ;
        }
        let n = scores.len();
        let mut i: usize = 0;
        while i < n
            invariant
                i <= n,
                n == scores@.len(),
                forall|k: int| 0 <= k < i ==> (#[trigger] scores@[k]).score == 0,
            decreases n - i,
        {
            scores.set(i, Score::new());
            i = i + 1;
        }
    }
}

} // verus!
