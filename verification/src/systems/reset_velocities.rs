//! On generation boundaries, gives every agent a fresh uniform-random
//! heading in `[0, tau)` and speed inside the configured range.

use vstd::prelude::*;
use crate::components::Velocity;
use crate::fx::{FX_LIM, FX_TAU};
use crate::resources::{is_boundary, ResetInterval, Ticks};
use crate::rng::rand_i64;

verus! {

pub struct ResetVelocities;

impl ResetVelocities {
    pub fn run(
        velocities: &mut Vec<Velocity>,
        ticks: &Ticks,
        interval: &ResetInterval,
        magnitude_lo: i64,
        magnitude_hi: i64,
        rng: &mut rand::rngs::StdRng,
    )
        requires
            interval.0 >= 1,
            0 <= magnitude_lo < magnitude_hi <= FX_LIM,
        ensures
            final(velocities)@.len() == old(velocities)@.len(),
            is_boundary(ticks.0, interval.0) ==> forall|i: int|
                0 <= i < final(velocities)@.len() ==> {
                    let v = #[trigger] final(velocities)@[i];
                    0 <= v.heading < FX_TAU && magnitude_lo <= v.magnitude < magnitude_hi
                },
            !is_boundary(ticks.0, interval.0) ==> final(velocities)@ == old(velocities)@,
    {
        if ticks.get() % interval.0 != 0 {
            return ;
        }
        let n = velocities.len();
        let mut i: usize = 0;
        while i < n
            invariant
                i <= n,
                n == velocities@.len(),
                0 <= magnitude_lo < magnitude_hi <= FX_LIM,
                forall|k: int|
                    0 <= k < i ==> {
                        let v = #[trigger] velocities@[k];
                        0 <= v.heading < FX_TAU && magnitude_lo <= v.magnitude < magnitude_hi
                    },
            decreases n - i,
        {
            let heading = rand_i64(rng, 0, FX_TAU);
            let magnitude = rand_i64(rng, magnitude_lo, magnitude_hi);
            velocities.set(i, Velocity { heading, magnitude });
            i = i + 1;
        }
    }
}

} // verus!
