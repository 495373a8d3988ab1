//! On generation boundaries, replaces every agent's controller by a uniform
//! crossover of two parents drawn, independently and with replacement, from
//! the whole current population with fitness as selection weight. The
//! parent pool is a snapshot taken before any agent is overwritten, so no
//! crossover ever reads an already-replaced controller.

use vstd::prelude::*;
use crate::components::Agent;
use crate::neural::{net_crossed, same_shape, Network};
use crate::resources::{is_boundary, ResetInterval, Ticks};
use crate::rng::rand_u64;

verus! {

/// The sum of the selection weights.
pub open spec fn total_weight(s: Seq<u32>) -> int
    decreases s.len(),
{
    if s.len() == 0 {
        0
    } else {
        total_weight(s.drop_last()) + s.last()
    }
}

proof fn lemma_total_weight_bounds(s: Seq<u32>)
    ensures
        0 <= total_weight(s) <= s.len() * (u32::MAX as int),
        (forall|i: int| 0 <= i < s.len() ==> #[trigger] s[i] >= 1) ==> total_weight(s) >= s.len(),
    decreases s.len(),
{
    if s.len() == 0 {
    } else {
        lemma_total_weight_bounds(s.drop_last());
        assert((s.len() - 1) * (u32::MAX as int) + u32::MAX == s.len() * (u32::MAX as int))
            by (nonlinear_arith);
        if forall|i: int| 0 <= i < s.len() ==> #[trigger] s[i] >= 1 {
            assert(forall|i: int|
                0 <= i < s.drop_last().len() ==> #[trigger] s.drop_last()[i] >= 1);
            assert(s.last() >= 1);
        }
    }
}

pub struct Crossover;

impl Crossover {
    pub fn run(
        agents: &mut Vec<Agent>,
        fitness: &Vec<u32>,
        ticks: &Ticks,
        interval: &ResetInterval,
        rng: &mut rand::rngs::StdRng,
    )
        requires
            interval.0 >= 1,
            fitness@.len() == old(agents)@.len(),
            old(agents)@.len() <= u32::MAX,
            is_boundary(ticks.0, interval.0) ==> {
                &&& old(agents)@.len() >= 1
                &&& forall|i: int| 0 <= i < fitness@.len() ==> #[trigger] fitness@[i] >= 1
                &&& forall|i: int, j: int|
                    0 <= i < old(agents)@.len() && 0 <= j < old(agents)@.len() ==> same_shape(
                        (#[trigger] old(agents)@[i]).network,
                        (#[trigger] old(agents)@[j]).network,
                    )
            },
        ensures
            final(agents)@.len() == old(agents)@.len(),
            is_boundary(ticks.0, interval.0) ==> forall|i: int|
                0 <= i < final(agents)@.len() ==> ((exists|p: int, q: int|
                    0 <= p < old(agents)@.len() && 0 <= q < old(agents)@.len() && net_crossed(
                        (#[trigger] final(agents)@[i]).network,
                        old(agents)@[p].network,
                        old(agents)@[q].network,
                    )) && (#[trigger] final(agents)@[i]).inputs == old(agents)@[i].inputs),
            !is_boundary(ticks.0, interval.0) ==> final(agents)@ == old(agents)@,
    {
        if ticks.get() % interval.0 != 0 {
            return ;
        }
        let n = agents.len();
        // freeze the parent pool before any agent is overwritten
        let mut pool: Vec<Network> = Vec::new();
        let mut bufs: Vec<Option<Vec<i64>>> = Vec::new();
        let mut i: usize = 0;
        while i < n
            invariant
                i <= n,
                n == old(agents)@.len(),
                agents@ == old(agents)@.skip(i as int),
                pool@.len() == i,
                bufs@.len() == i,
                forall|k: int|
                    0 <= k < i ==> #[trigger] pool@[k] == old(agents)@[k].network,
                forall|k: int|
                    0 <= k < i ==> #[trigger] bufs@[k] == old(agents)@[k].inputs,
            decreases n - i,
        {
            let a = agents.remove(0);
            proof {
                assert(old(agents)@.skip(i as int).drop_first() =~= old(agents)@.skip(
                    i as int + 1,
                ));
            }
            let Agent { inputs, network } = a;
            pool.push(network);
            bufs.push(inputs);
            i = i + 1;
        }
        let total = Self::total(fitness);
        proof {
            lemma_total_weight_bounds(fitness@);
        }
        let mut i: usize = 0;
        while i < n
            invariant
                i <= n,
                n == old(agents)@.len() == fitness@.len() >= 1,
                total == total_weight(fitness@),
                total >= 1,
                agents@.len() == i,
                bufs@.len() == n - i,
                forall|k: int|
                    0 <= k < n - i ==> #[trigger] bufs@[k] == old(agents)@[k + i].inputs,
                pool@.len() == n,
                forall|k: int|
                    0 <= k < n ==> #[trigger] pool@[k] == old(agents)@[k].network,
                forall|p: int, q: int|
                    0 <= p < n && 0 <= q < n ==> same_shape(
                        (#[trigger] old(agents)@[p]).network,
                        (#[trigger] old(agents)@[q]).network,
                    ),
                forall|k: int|
                    0 <= k < i ==> ((exists|p: int, q: int|
                        0 <= p < n && 0 <= q < n && net_crossed(
                            (#[trigger] agents@[k]).network,
                            old(agents)@[p].network,
                            old(agents)@[q].network,
                        )) && (#[trigger] agents@[k]).inputs == old(agents)@[k].inputs),
            decreases n - i,
        {
            let r1 = rand_u64(rng, total);
            let p = Self::pick_weighted(fitness, r1);
            let r2 = rand_u64(rng, total);
            let q = Self::pick_weighted(fitness, r2);
            let child = pool[p].crossover_uniform(rng, &pool[q]);
            let inputs = bufs.remove(0);
            agents.push(Agent { inputs, network: child });
            proof {
                assert(net_crossed(
                    agents@[i as int].network,
                    old(agents)@[p as int].network,
                    old(agents)@[q as int].network,
                ));
            }
            i = i + 1;
        }
    }

    /// The sum of all selection weights.
    pub fn total(fitness: &Vec<u32>) -> (r: u64)
        requires
            fitness@.len() <= u32::MAX,
        ensures
            r == total_weight(fitness@),
    {
        proof {
            lemma_total_weight_bounds(fitness@);
        }
        let n = fitness.len();
        let mut acc: u64 = 0;
        let mut k: usize = 0;
        while k < n
            invariant
                k <= n,
                n == fitness@.len() <= u32::MAX,
                acc == total_weight(fitness@.take(k as int)),
                acc <= (k as int) * (u32::MAX as int),
            decreases n - k,
        {
            proof {
                assert(fitness@.take(k as int + 1).drop_last() =~= fitness@.take(k as int));
                assert(fitness@.take(k as int + 1).last() == fitness@[k as int]);
                assert((k as int) * (u32::MAX as int) + u32::MAX == (k as int + 1) * (
                u32::MAX as int)) by (nonlinear_arith);
                assert((k as int + 1) * (u32::MAX as int) <= (u32::MAX as int) * (u32::MAX as int))
                    by (nonlinear_arith)
                    requires
                        k as int + 1 <= u32::MAX as int,
                ;
            }
            acc = acc + (fitness[k] as u64);
            k = k + 1;
        }
        proof {
            assert(fitness@.take(n as int) =~= fitness@);
        }
        acc
    }

    /// The index selected by the draw `r` on the cumulative weight ladder:
    /// the unique `k` with `total_weight(take(k)) <= r < total_weight(take(k + 1))`.
    pub fn pick_weighted(fitness: &Vec<u32>, r: u64) -> (k: usize)
        requires
            r < total_weight(fitness@),
        ensures
            k < fitness@.len(),
            fitness@[k as int] > 0,
            total_weight(fitness@.take(k as int)) <= r < total_weight(
                fitness@.take(k as int + 1),
            ),
    {
        let n = fitness.len();
        let mut acc: u128 = 0;
        let mut k: usize = 0;
        while k < n
            invariant
                k <= n,
                n == fitness@.len(),
                r < total_weight(fitness@),
                acc == total_weight(fitness@.take(k as int)),
                acc <= r,
            decreases n - k,
        {
            proof {
                assert(fitness@.take(k as int + 1).drop_last() =~= fitness@.take(k as int));
                assert(fitness@.take(k as int + 1).last() == fitness@[k as int]);
            }
            let f = fitness[k];
            if (r as u128) < acc + (f as u128) {
                return k;
            }
            acc = acc + (f as u128);
            k = k + 1;
        }
        proof {
            assert(fitness@.take(n as int) =~= fitness@);
            assert(false);
        }
        0
    }
}

} // verus!
