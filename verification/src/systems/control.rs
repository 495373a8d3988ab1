//! Turns each agent's most recent sensor vector into a steering force by
//! running its neural controller. A controller with exactly two outputs
//! commands rotation and thrust; each output is clamped into `(0, 1]` and
//! rescaled into `(-10, 10]`, with a non-positive output meaning "no
//! command" (zero force) rather than a negative one.

use vstd::prelude::*;
use crate::components::{Agent, Force};
use crate::fx::FX_ONE;
use crate::neural::{net_eval, net_input_size, net_wf};

verus! {

/// One steering component from one controller output: clamp into `(0, 1]`,
/// shift to be centered, scale by 20, so the result lies in `(-10, 10]`;
/// outputs at or below zero command nothing.
pub open spec fn steer(o: i64) -> int {
    if o > 0 {
        (if o > FX_ONE {
            FX_ONE as int
        } else {
            o as int
        } - 500_000) * 20
    } else {
        0
    }
}

/// The force commanded by a controller's output vector; a controller whose
/// output width is not two leaves the previous force standing.
pub open spec fn control_force(outputs: Seq<i64>, prev: Force) -> Force {
    if outputs.len() == 2 {
        (Force { rotation: steer(outputs[0]) as i64, translation: steer(outputs[1]) as i64 })
    } else {
        prev
    }
}

/// The force an agent commands this tick: its controller run on its sensor
/// buffer, or the previous force while no sensor pass has happened yet.
pub open spec fn agent_force(a: Agent, prev: Force) -> Force {
    match a.inputs {
        Some(buf) => control_force(net_eval(a.network.layers@, buf@), prev),
        None => prev,
    }
}

pub struct Control;

impl Control {
    pub fn run(agents: &Vec<Agent>, forces: &mut Vec<Force>)
        requires
            old(forces)@.len() == agents@.len(),
            forall|i: int| 0 <= i < agents@.len() ==> net_wf((#[trigger] agents@[i]).network),
            forall|i: int|
                0 <= i < agents@.len() ==> ((#[trigger] agents@[i]).inputs matches Some(buf)
                    ==> buf@.len() == net_input_size(agents@[i].network)),
        ensures
            final(forces)@.len() == old(forces)@.len(),
            forall|i: int|
                0 <= i < final(forces)@.len() ==> #[trigger] final(forces)@[i] == agent_force(
                    agents@[i],
                    old(forces)@[i],
                ),
    {
        let n = agents.len();
        let mut i: usize = 0;
        while i < n
            invariant
                i <= n,
                n == agents@.len() == forces@.len() == old(forces)@.len(),
                forall|k: int| 0 <= k < n ==> net_wf((#[trigger] agents@[k]).network),
                forall|k: int|
                    0 <= k < n ==> ((#[trigger] agents@[k]).inputs matches Some(buf) ==> buf@.len()
                        == net_input_size(agents@[k].network)),
                forall|k: int|
                    i <= k < n ==> #[trigger] forces@[k] == old(forces)@[k],
                forall|k: int|
                    0 <= k < i ==> #[trigger] forces@[k] == agent_force(
                        agents@[k],
                        old(forces)@[k],
                    ),
            decreases n - i,
        {
            match &agents[i].inputs {
                Some(buf) => {
                    let outputs = agents[i].network.propagate(buf);
                    if outputs.len() == 2 {
                        let rotation = Self::steer_output(outputs[0]);
                        let translation = Self::steer_output(outputs[1]);
                        forces.set(i, Force { rotation, translation });
                    }
                },
                None => {},
            }
            i = i + 1;
        }
    }

    /// One steering component, exactly `steer` of the output.
    pub fn steer_output(o: i64) -> (r: i64)
        ensures
            r == steer(o),
            -10 * FX_ONE < r <= 10 * FX_ONE,
    {
        if o > 0 {
            let c = if o > FX_ONE {
                FX_ONE
            } else {
                o
            };
            (c - 500_000) * 20
        } else {
            0
        }
    }
}

} // verus!
