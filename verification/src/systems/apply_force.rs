//! Integrates each agent's commanded force into its velocity: thrust scales
//! the magnitude (clamped into `[0, max_magnitude]`), rotation turns the
//! heading (renormalized into `[0, tau)`).

use vstd::prelude::*;
use crate::components::{velocity_wf, Force, Velocity};
use crate::fx::{fx_add, fx_add_spec, fx_clamp, fx_mul, fx_mul_spec, wrap_fx, FX_LIM, FX_TAU};
use crate::resources::DeltaTime;

verus! {

/// The velocity after one tick of the given force.
pub open spec fn force_applied(v: Velocity, f: Force, dt: i64, max_magnitude: i64) -> Velocity {
    let m1 = fx_add_spec(v.magnitude as int, fx_mul_spec(f.translation as int, dt as int));
    let m2 = if m1 < 0 {
        0
    } else if m1 > max_magnitude {
        max_magnitude as int
    } else {
        m1
    };
    let h = (v.heading + fx_mul_spec(f.rotation as int, dt as int)) % (FX_TAU as int);
    (Velocity { heading: h as i64, magnitude: m2 as i64 })
}

pub struct ApplyForce;

impl ApplyForce {
    pub fn run(
        velocities: &mut Vec<Velocity>,
        forces: &Vec<Force>,
        delta: &DeltaTime,
        max_magnitude: i64,
    )
        requires
            old(velocities)@.len() == forces@.len(),
            0 <= max_magnitude <= FX_LIM,
            forall|i: int|
                0 <= i < old(velocities)@.len() ==> velocity_wf(
                    #[trigger] old(velocities)@[i],
                    FX_LIM,
                ),
        ensures
            final(velocities)@.len() == old(velocities)@.len(),
            forall|i: int|
                0 <= i < final(velocities)@.len() ==> #[trigger] final(velocities)@[i]
                    == force_applied(old(velocities)@[i], forces@[i], delta.0, max_magnitude),
            forall|i: int|
                0 <= i < final(velocities)@.len() ==> velocity_wf(
                    #[trigger] final(velocities)@[i],
                    max_magnitude,
                ),
    {
        let n = velocities.len();
        let mut i: usize = 0;
        while i < n
            invariant
                i <= n,
                n == velocities@.len() == forces@.len() == old(velocities)@.len(),
                0 <= max_magnitude <= FX_LIM,
                forall|k: int|
                    i <= k < n ==> #[trigger] velocities@[k] == old(velocities)@[k],
                forall|k: int|
                    0 <= k < n ==> velocity_wf(#[trigger] old(velocities)@[k], FX_LIM),
                forall|k: int|
                    0 <= k < i ==> #[trigger] velocities@[k] == force_applied(
                        old(velocities)@[k],
                        forces@[k],
                        delta.0,
                        max_magnitude,
                    ),
                forall|k: int|
                    0 <= k < i ==> velocity_wf(#[trigger] velocities@[k], max_magnitude),
            decreases n - i,
        {
            let v = velocities[i];
            let f = forces[i];
            let dm = fx_mul(f.translation, delta.0);
            let m = fx_add(v.magnitude, dm);
            let m = fx_clamp(m, 0, max_magnitude);
            let dh = fx_mul(f.rotation, delta.0);
            let h = wrap_fx(v.heading + dh, FX_TAU);
            velocities.set(i, Velocity { heading: h, magnitude: m });
            i = i + 1;
        }
    }
}

} // verus!
