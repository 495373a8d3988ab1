//! Integrates each agent's velocity into its position under toroidal
//! wraparound: coordinates always land back inside `[0, max) `, whatever
//! the direction of travel.

use vstd::prelude::*;
use crate::components::{max_pos_wf, pos_in_bounds, velocity_wf, Position, Velocity};
use crate::fx::{fx_mul, fx_mul_spec, wrap_fx, FX_LIM};
use crate::resources::{DeltaTime, MaxPos};
use crate::trig::{cos_fx, cos_spec, sin_fx, sin_spec};

verus! {

/// The position after one tick of travel: the heading's direction vector
/// scaled by speed and tick duration, wrapped into the arena.
pub open spec fn velocity_applied(p: Position, v: Velocity, dt: i64, max: Position) -> Position {
    let step = fx_mul_spec(v.magnitude as int, dt as int);
    let dx = fx_mul_spec(cos_spec(v.heading as int), step);
    let dy = fx_mul_spec(sin_spec(v.heading as int), step);
    (Position {
        x: ((p.x + dx) % (max.x as int)) as i64,
        y: ((p.y + dy) % (max.y as int)) as i64,
    })
}

pub struct ApplyVelocity;

impl ApplyVelocity {
    pub fn run(
        positions: &mut Vec<Position>,
        velocities: &Vec<Velocity>,
        delta: &DeltaTime,
        max: &MaxPos,
    )
        requires
            old(positions)@.len() == velocities@.len(),
            max_pos_wf(max.0),
            forall|i: int|
                0 <= i < old(positions)@.len() ==> pos_in_bounds(
                    #[trigger] old(positions)@[i],
                    max.0,
                ),
            forall|i: int|
                0 <= i < velocities@.len() ==> velocity_wf(#[trigger] velocities@[i], FX_LIM),
        ensures
            final(positions)@.len() == old(positions)@.len(),
            forall|i: int|
                0 <= i < final(positions)@.len() ==> #[trigger] final(positions)@[i]
                    == velocity_applied(old(positions)@[i], velocities@[i], delta.0, max.0),
            forall|i: int|
                0 <= i < final(positions)@.len() ==> pos_in_bounds(
                    #[trigger] final(positions)@[i],
                    max.0,
                ),
    {
        let n = positions.len();
        let mut i: usize = 0;
        while i < n
            invariant
                i <= n,
                n == positions@.len() == velocities@.len() == old(positions)@.len(),
                max_pos_wf(max.0),
                forall|k: int|
                    i <= k < n ==> #[trigger] positions@[k] == old(positions)@[k],
                forall|k: int|
                    0 <= k < n ==> pos_in_bounds(#[trigger] old(positions)@[k], max.0),
                forall|k: int|
                    0 <= k < n ==> velocity_wf(#[trigger] velocities@[k], FX_LIM),
                forall|k: int|
                    0 <= k < i ==> #[trigger] positions@[k] == velocity_applied(
                        old(positions)@[k],
                        velocities@[k],
                        delta.0,
                        max.0,
                    ),
                forall|k: int|
                    0 <= k < i ==> pos_in_bounds(#[trigger] positions@[k], max.0),
            decreases n - i,
        {
            let p = positions[i];
            let v = velocities[i];
            let cos = cos_fx(v.heading);
            let sin = sin_fx(v.heading);
            let step = fx_mul(v.magnitude, delta.0);
            let dx = fx_mul(cos, step);
            let dy = fx_mul(sin, step);
            let x = wrap_fx(p.x + dx, max.0.x);
            let y = wrap_fx(p.y + dy, max.0.y);
            positions.set(i, Position { x, y });
            i = i + 1;
        }
    }
}

} // verus!
