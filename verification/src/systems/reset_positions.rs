//! On generation boundaries, scatters every agent to a fresh
//! uniform-random position inside the arena.

use vstd::prelude::*;
use crate::components::{max_pos_wf, pos_in_bounds, Position};
use crate::resources::{is_boundary, MaxPos, ResetInterval, Ticks};
use crate::rng::rand_i64;

verus! {

pub struct ResetPositions;

impl ResetPositions {
    pub fn run(
        positions: &mut Vec<Position>,
        ticks: &Ticks,
        interval: &ResetInterval,
        max: &MaxPos,
        rng: &mut rand::rngs::StdRng,
    )
        requires
            interval.0 >= 1,
            max_pos_wf(max.0),
        ensures
            final(positions)@.len() == old(positions)@.len(),
            is_boundary(ticks.0, interval.0) ==> forall|i: int|
                0 <= i < final(positions)@.len() ==> pos_in_bounds(
                    #[trigger] final(positions)@[i],
                    max.0,
                ),
            !is_boundary(ticks.0, interval.0) ==> final(positions)@ == old(positions)@,
    {
        if ticks.get() % interval.0 != 0 {
            return ;
        }
        let n = positions.len();
        let mut i: usize = 0;
        while i < n
            invariant
                i <= n,
                n == positions@.len(),
                max_pos_wf(max.0),
                forall|k: int| 0 <= k < i ==> pos_in_bounds(#[trigger] positions@[k], max.0),
            decreases n - i,
        {
            let x = rand_i64(rng, 0, max.0.x);
            let y = rand_i64(rng, 0, max.0.y);
            positions.set(i, Position { x, y });
            i = i + 1;
        }
    }
}

} // verus!
