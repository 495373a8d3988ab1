//! Aggregates score statistics on generation boundaries, computed over the
//! scores as the ranking step sees them, before any reset. Formatting and
//! output are left to the host application.

use vstd::prelude::*;
use crate::components::Score;
use crate::resources::{is_boundary, ResetInterval, Ticks};

verus! {

/// Aggregate score statistics of one generation. On an empty population the
/// minimum is `u32::MAX` and the maximum `0`.
#[derive(Clone, Copy, Debug)]
pub struct Stats {
    pub generation: u64,
    pub total: u128,
    pub min: u32,
    pub max: u32,
    pub count: usize,
}

/// The sum of the scores.
pub open spec fn sum_scores(s: Seq<Score>) -> int
    decreases s.len(),
{
    if s.len() == 0 {
        0
    } else {
        sum_scores(s.drop_last()) + s.last().score
    }
}

/// The least score, `u32::MAX` on an empty sequence.
pub open spec fn min_score(s: Seq<Score>) -> int
    decreases s.len(),
{
    if s.len() == 0 {
        u32::MAX as int
    } else if s.last().score < min_score(s.drop_last()) {
        s.last().score as int
    } else {
        min_score(s.drop_last())
    }
}

/// The greatest score, `0` on an empty sequence.
pub open spec fn max_score(s: Seq<Score>) -> int
    decreases s.len(),
{
    if s.len() == 0 {
        0
    } else if s.last().score > max_score(s.drop_last()) {
        s.last().score as int
    } else {
        max_score(s.drop_last())
    }
}

pub struct PrintStats;

impl PrintStats {
    /// On a boundary tick, the generation number and the total, least and
    /// greatest score of the population; `None` on every other tick.
    pub fn run(scores: &Vec<Score>, ticks: &Ticks, interval: &ResetInterval) -> (r: Option<Stats>)
        requires
            interval.0 >= 1,
        ensures
            r is Some <==> is_boundary(ticks.0, interval.0),
            r matches Some(st) ==> {
                &&& st.generation == ticks.0 / interval.0
                &&& st.total == sum_scores(scores@)
                &&& st.min == min_score(scores@)
                &&& st.max == max_score(scores@)
                &&& st.count == scores@.len()
            },
    {
        if ticks.get() % interval.0 != 0 {
            return None;
        }
        let n = scores.len();
        let mut total: u128 = 0;
        let mut min: u32 = u32::MAX;
        let mut max: u32 = 0;
        let mut i: usize = 0;
        while i < n
            invariant
                i <= n,
                n == scores@.len(),
                total == sum_scores(scores@.take(i as int)),
                min == min_score(scores@.take(i as int)),
                max == max_score(scores@.take(i as int)),
                total <= (i as int) * (u32::MAX as int),
            decreases n - i,
        {
            let s = scores[i].score();
            proof {
                assert(scores@.take(i as int + 1).drop_last() =~= scores@.take(i as int));
                assert(scores@.take(i as int + 1).last() == scores@[i as int]);
                assert((i as int) * (u32::MAX as int) + u32::MAX == (i as int + 1) * (
                u32::MAX as int)) by (nonlinear_arith);
            }
            total = total + (s as u128);
            if s < min {
                min = s;
            }
            if s > max {
                max = s;
            }
            i = i + 1;
        }
        proof {
            assert(scores@.take(n as int) =~= scores@);
        }
        Some(Stats { generation: ticks.get() / interval.0, total, min, max, count: n })
    }
}

} // verus!
