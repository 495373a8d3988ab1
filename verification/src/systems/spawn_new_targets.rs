//! Relocates every target captured this tick to a fresh uniform-random
//! position inside the arena. The target keeps its identity: the entry is
//! rewritten in place, never destroyed and recreated.

use vstd::prelude::*;
use crate::components::{max_pos_wf, pos_in_bounds, Position, Target};
use crate::resources::{HitTargets, MaxPos};
use crate::rng::rand_i64;

verus! {

pub struct SpawnNewTargets;

impl SpawnNewTargets {
    pub fn run(
        targets: &mut Vec<Target>,
        hit: &HitTargets,
        max: &MaxPos,
        rng: &mut rand::rngs::StdRng,
    )
        requires
            hit.0@.len() == old(targets)@.len(),
            max_pos_wf(max.0),
        ensures
            final(targets)@.len() == old(targets)@.len(),
            forall|t: int|
                0 <= t < final(targets)@.len() && hit.0@[t] ==> pos_in_bounds(
                    (#[trigger] final(targets)@[t]).position,
                    max.0,
                ),
            forall|t: int|
                0 <= t < final(targets)@.len() && !hit.0@[t] ==> #[trigger] final(targets)@[t]
                    == old(targets)@[t],
    {
        let m = targets.len();
        let mut t: usize = 0;
        while t < m
            invariant
                t <= m,
                m == targets@.len() == old(targets)@.len() == hit.0@.len(),
                max_pos_wf(max.0),
                forall|k: int|
                    t <= k < m ==> #[trigger] targets@[k] == old(targets)@[k],
                forall|k: int|
                    0 <= k < t && hit.0@[k] ==> pos_in_bounds(
                        (#[trigger] targets@[k]).position,
                        max.0,
                    ),
                forall|k: int|
                    0 <= k < t && !hit.0@[k] ==> #[trigger] targets@[k] == old(targets)@[k],
            decreases m - t,
        {
            if hit.0[t] {
                let x = rand_i64(rng, 0, max.0.x);
                let y = rand_i64(rng, 0, max.0.y);
                targets.set(t, Target { position: Position { x, y } });
            }
            t = t + 1;
        }
    }
}

} // verus!
