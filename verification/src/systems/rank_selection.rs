//! Rank-derived fitness on generation boundaries: every agent's fitness is
//! the 1-based position of its score in the ascending ladder of distinct
//! score values, so tied scores share a rank and the lowest distinct score
//! ranks 1.

use vstd::prelude::*;
use crate::components::Score;
use crate::resources::{is_boundary, ResetInterval, Ticks};
use vstd::set_lib::lemma_len_subset;

verus! {

/// The set of score values occurring in `s` that lie strictly below `x`.
pub open spec fn below_set(s: Seq<u32>, x: u32) -> Set<u32>
    decreases s.len(),
{
    if s.len() == 0 {
        Set::empty()
    } else {
        let rest = below_set(s.drop_last(), x);
        if s.last() < x {
            rest.insert(s.last())
        } else {
            rest
        }
    }
}

/// A score's rank: one more than the number of distinct score values below
/// it, so the lowest distinct value ranks 1 and ties share a rank.
pub open spec fn rank_of(s: Seq<u32>, x: u32) -> int {
    below_set(s, x).len() as int + 1
}

/// The score values of a sequence of `Score`s.
pub open spec fn score_values(s: Seq<Score>) -> Seq<u32> {
    s.map_values(|sc: Score| sc.score)
}

/// `below_set` holds a value exactly when it occurs in `s` and lies below
/// `x`.
pub proof fn lemma_below_set_member(s: Seq<u32>, x: u32, v: u32)
    ensures
        below_set(s, x).finite(),
        below_set(s, x).contains(v) <==> (s.contains(v) && v < x),
    decreases s.len(),
{
    if s.len() == 0 {
        assert(!s.contains(v));
    } else {
        lemma_below_set_member(s.drop_last(), x, v);
        if below_set(s, x).contains(v) {
            if below_set(s.drop_last(), x).contains(v) {
                let k = choose|k: int| 0 <= k < s.drop_last().len() && s.drop_last()[k] == v;
                assert(s.drop_last()[k] == s[k]);
                assert(s[k] == v);
            } else {
                assert(v == s.last() && s.last() < x);
                assert(s[s.len() - 1] == v);
            }
        }
        if s.contains(v) && v < x {
            let k = choose|k: int| 0 <= k < s.len() && s[k] == v;
            if k < s.len() - 1 {
                assert(s.drop_last()[k] == v);
                assert(s.drop_last().contains(v));
            } else {
                assert(v == s.last());
            }
        }
    }
}

/// `below_set` is finite and holds exactly the values of `s` below `x`.
pub proof fn lemma_below_set_members(s: Seq<u32>, x: u32)
    ensures
        below_set(s, x).finite(),
        forall|v: u32| #[trigger] below_set(s, x).contains(v) <==> (s.contains(v) && v < x),
{
    lemma_below_set_member(s, x, 0);
    assert forall|v: u32| #[trigger] below_set(s, x).contains(v) <==> (s.contains(v) && v < x) by {
        lemma_below_set_member(s, x, v);
    }
}

/// Rank respects score order: equal scores rank equal, and a strictly lower
/// score ranks strictly lower.
pub proof fn lemma_rank_monotonic(s: Seq<u32>, i: int, j: int)
    requires
        0 <= i < s.len(),
        0 <= j < s.len(),
    ensures
        s[i] == s[j] ==> rank_of(s, s[i]) == rank_of(s, s[j]),
        s[i] < s[j] ==> rank_of(s, s[i]) < rank_of(s, s[j]),
{
    if s[i] < s[j] {
        lemma_below_set_members(s, s[i]);
        lemma_below_set_members(s, s[j]);
        let lo = below_set(s, s[i]);
        let hi = below_set(s, s[j]);
        assert(s.contains(s[i]));
        assert forall|v: u32| lo.insert(s[i]).contains(v) implies hi.contains(v) by {
            if v == s[i] {
                assert(s.contains(v) && v < s[j]);
            } else {
                assert(lo.contains(v));
                assert(s.contains(v) && v < s[i]);
            }
        }
        assert(lo.insert(s[i]).subset_of(hi));
        lemma_len_subset(lo.insert(s[i]), hi);
        assert(lo.insert(s[i]).len() == lo.len() + 1) by {
            assert(!lo.contains(s[i]));
        }
    }
}

pub struct RankSelection;

impl RankSelection {
    /// On a boundary tick, write every agent's rank into `fitness`;
    /// otherwise leave `fitness` untouched.
    pub fn run(
        scores: &Vec<Score>,
        fitness: &mut Vec<u32>,
        ticks: &Ticks,
        interval: &ResetInterval,
    )
        requires
            interval.0 >= 1,
            old(fitness)@.len() == scores@.len(),
            scores@.len() < u32::MAX,
        ensures
            final(fitness)@.len() == old(fitness)@.len(),
            is_boundary(ticks.0, interval.0) ==> forall|i: int|
                0 <= i < final(fitness)@.len() ==> #[trigger] final(fitness)@[i] == rank_of(
                    score_values(scores@),
                    scores@[i].score,
                ),
            !is_boundary(ticks.0, interval.0) ==> final(fitness)@ == old(fitness)@,
    {
        if ticks.get() % interval.0 != 0 {
            return ;
        }
        let n = scores.len();
        let mut i: usize = 0;
        while i < n
            invariant
                i <= n,
                n == scores@.len() < u32::MAX,
                fitness@.len() == n,
                forall|k: int|
                    0 <= k < i ==> #[trigger] fitness@[k] == rank_of(
                        score_values(scores@),
                        scores@[k].score,
                    ),
            decreases n - i,
        {
            let r = Self::rank(scores, scores[i].score());
            fitness.set(i, r);
            i = i + 1;
        }
    }

    /// The rank of the value `x` among the given scores: one more than the
    /// number of distinct score values strictly below `x`.
    pub fn rank(scores: &Vec<Score>, x: u32) -> (r: u32)
        requires
            scores@.len() < u32::MAX,
        ensures
            r == rank_of(score_values(scores@), x),
    {
        let ghost vals = score_values(scores@);
        let n = scores.len();
        let mut count: usize = 0;
        let mut j: usize = 0;
        while j < n
            invariant
                j <= n,
                n == scores@.len(),
                vals == score_values(scores@),
                count == below_set(vals.take(j as int), x).len(),
                count <= j,
            decreases n - j,
        {
            proof {
                assert(vals.take(j as int + 1).drop_last() =~= vals.take(j as int));
                assert(vals.take(j as int + 1).last() == scores@[j as int].score);
                lemma_below_set_members(vals.take(j as int), x);
            }
            let sj = scores[j].score();
            if sj < x {
                // count the value only at its first occurrence, so duplicates
                // collapse onto one rung of the ladder
                let mut fresh = true;
                let mut k: usize = 0;
                while k < j
                    invariant
                        k <= j <= n,
                        n == scores@.len(),
                        sj == scores@[j as int].score,
                        fresh <==> forall|t: int| 0 <= t < k ==> (#[trigger] scores@[t]).score != sj,
                    decreases j - k,
                {
                    if scores[k].score() == sj {
                        fresh = false;
                    }
                    k = k + 1;
                }
                if fresh {
                    proof {
                        assert(forall|t: int|
                            0 <= t < j ==> #[trigger] vals.take(j as int)[t] == scores@[t].score);
                        assert(!vals.take(j as int).contains(sj));
                        assert(!below_set(vals.take(j as int), x).contains(sj));
                    }
                    count = count + 1;
                } else {
                    proof {
                        let t = choose|t: int| 0 <= t < j && (#[trigger] scores@[t]).score == sj;
                        assert(vals.take(j as int)[t] == sj);
                        assert(vals.take(j as int).contains(sj));
                        assert(below_set(vals.take(j as int), x).contains(sj));
                        assert(below_set(vals.take(j as int), x).insert(sj) =~= below_set(
                            vals.take(j as int),
                            x,
                        ));
                    }
                }
            }
            j = j + 1;
        }
        proof {
            assert(vals.take(n as int) =~= vals);
        }
        count as u32 + 1
    }
}

} // verus!
