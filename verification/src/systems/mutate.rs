//! On generation boundaries, mutates every agent's freshly crossed-over
//! controller: each gene independently, with a small fixed probability, is
//! replaced by a fresh draw from `[-1, 1]`.

use vstd::prelude::*;
use crate::components::Agent;
use crate::fx::FX_ONE;
use crate::neural::net_mutated;
use crate::resources::{is_boundary, ResetInterval, Ticks};

verus! {

pub struct Mutate;

impl Mutate {
    pub fn run(
        agents: &mut Vec<Agent>,
        ticks: &Ticks,
        interval: &ResetInterval,
        probability: i64,
        rng: &mut rand::rngs::StdRng,
    )
        requires
            interval.0 >= 1,
            0 <= probability <= FX_ONE,
        ensures
            final(agents)@.len() == old(agents)@.len(),
            is_boundary(ticks.0, interval.0) ==> forall|i: int|
                0 <= i < final(agents)@.len() ==> net_mutated(
                    (#[trigger] final(agents)@[i]).network,
                    old(agents)@[i].network,
                ) && final(agents)@[i].inputs == old(agents)@[i].inputs,
            !is_boundary(ticks.0, interval.0) ==> final(agents)@ == old(agents)@,
    {
        if ticks.get() % interval.0 != 0 {
            return ;
        }
        let n = agents.len();
        let mut out: Vec<Agent> = Vec::new();
        let mut i: usize = 0;
        while i < n
            invariant
                i <= n,
                0 <= probability <= FX_ONE,
                n == old(agents)@.len(),
                agents@ == old(agents)@.skip(i as int),
                out@.len() == i,
                forall|k: int|
                    0 <= k < i ==> net_mutated(
                        (#[trigger] out@[k]).network,
                        old(agents)@[k].network,
                    ) && out@[k].inputs == old(agents)@[k].inputs,
            decreases n - i,
        {
            let mut a = agents.remove(0);
            proof {
                assert(old(agents)@.skip(i as int).drop_first() =~= old(agents)@.skip(
                    i as int + 1,
                ));
            }
            a.network.mutate_uniform(rng, probability);
            out.push(a);
            i = i + 1;
        }
        *agents = out;
    }
}

} // verus!
