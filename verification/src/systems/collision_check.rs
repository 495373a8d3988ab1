//! Detects agent-target contact: a cheap bounding-box reject followed by a
//! circular containment test. Each contact scores the agent once; the hit
//! target is flagged for respawn, deduplicated however many agents hit it
//! in the same tick. Several agents may score against one target in one
//! tick; that is accepted, not prevented.

use vstd::prelude::*;
use crate::components::{Position, Score, Target};
use crate::fx::FX_LIM;
use crate::resources::HitTargets;

verus! {

/// Contact: both coordinate gaps under the capture radius, and the squared
/// distance under the squared radius.
pub open spec fn hits(a: Position, t: Position, r: i64) -> bool {
    let dx = a.x - t.x;
    let dy = a.y - t.y;
    let adx = if dx >= 0 { dx } else { -dx };
    let ady = if dy >= 0 { dy } else { -dy };
    adx < r && ady < r && dx * dx + dy * dy < r * r
}

/// How many of the targets the agent at `a` touches.
pub open spec fn count_hits(a: Position, ts: Seq<Target>, r: i64) -> int
    decreases ts.len(),
{
    if ts.len() == 0 {
        0
    } else {
        count_hits(a, ts.drop_last(), r) + if hits(a, ts.last().position, r) {
            1int
        } else {
            0int
        }
    }
}

/// Some agent among the first `n` touches the target at `t`.
pub open spec fn any_hit(ps: Seq<Position>, n: int, t: Position, r: i64) -> bool {
    exists|a: int| 0 <= a < n && hits(ps[a], t, r)
}

/// A position within the fixed-point range on both axes.
pub open spec fn pos_fits(p: Position) -> bool {
    -FX_LIM <= p.x <= FX_LIM && -FX_LIM <= p.y <= FX_LIM
}

pub proof fn lemma_count_hits_bound(a: Position, ts: Seq<Target>, r: i64)
    ensures
        0 <= count_hits(a, ts, r) <= ts.len(),
    decreases ts.len(),
{
    if ts.len() > 0 {
        lemma_count_hits_bound(a, ts.drop_last(), r);
    }
}

/// An agent within the capture radius of exactly one target scores exactly
/// once in a tick: its score delta, `count_hits`, is one.
pub proof fn lemma_single_capture(a: Position, ts: Seq<Target>, r: i64, t0: int)
    requires
        0 <= t0 < ts.len(),
        hits(a, ts[t0].position, r),
        forall|t: int| 0 <= t < ts.len() && t != t0 ==> !hits(a, (#[trigger] ts[t]).position, r),
    ensures
        count_hits(a, ts, r) == 1,
    decreases ts.len(),
{
    if t0 == ts.len() - 1 {
        lemma_no_capture(a, ts.drop_last(), r);
    } else {
        assert(ts.drop_last()[t0] == ts[t0]);
        lemma_single_capture(a, ts.drop_last(), r, t0);
    }
}

/// An agent outside the capture radius of every target never scores: its
/// score delta is zero.
pub proof fn lemma_no_capture(a: Position, ts: Seq<Target>, r: i64)
    requires
        forall|t: int| 0 <= t < ts.len() ==> !hits(a, (#[trigger] ts[t]).position, r),
    ensures
        count_hits(a, ts, r) == 0,
    decreases ts.len(),
{
    if ts.len() > 0 {
        lemma_no_capture(a, ts.drop_last(), r);
    }
}

pub struct CollisionCheck;

impl CollisionCheck {
    /// Score every touching (agent, target) pair and return the set of
    /// targets pending respawn, one flag per target.
    pub fn run(
        positions: &Vec<Position>,
        scores: &mut Vec<Score>,
        targets: &Vec<Target>,
        radius: i64,
    ) -> (hit: HitTargets)
        requires
            old(scores)@.len() == positions@.len(),
            0 < radius <= FX_LIM,
            forall|i: int| 0 <= i < positions@.len() ==> pos_fits(#[trigger] positions@[i]),
            forall|t: int|
                0 <= t < targets@.len() ==> pos_fits((#[trigger] targets@[t]).position),
            forall|i: int|
                0 <= i < old(scores)@.len() ==> (#[trigger] old(scores)@[i]).score + targets@.len()
                    <= u32::MAX,
        ensures
            final(scores)@.len() == old(scores)@.len(),
            forall|i: int|
                0 <= i < final(scores)@.len() ==> (#[trigger] final(scores)@[i]).score == old(
                    scores,
                )@[i].score + count_hits(positions@[i], targets@, radius),
            hit.0@.len() == targets@.len(),
            forall|t: int|
                0 <= t < targets@.len() ==> (#[trigger] hit.0@[t] <==> any_hit(
                    positions@,
                    positions@.len() as int,
                    targets@[t].position,
                    radius,
                )),
    {
        let n = positions.len();
        let m = targets.len();
        let mut flags: Vec<bool> = Vec::new();
        let mut t: usize = 0;
        while t < m
            invariant
                t <= m,
                flags@.len() == t,
                forall|k: int| 0 <= k < t ==> !(#[trigger] flags@[k]),
            decreases m - t,
        {
            flags.push(false);
            t = t + 1;
        }
        let mut i: usize = 0;
        while i < n
            invariant
                i <= n,
                n == positions@.len() == scores@.len() == old(scores)@.len(),
                m == targets@.len(),
                0 < radius <= FX_LIM,
                forall|k: int| 0 <= k < n ==> pos_fits(#[trigger] positions@[k]),
                forall|k: int| 0 <= k < m ==> pos_fits((#[trigger] targets@[k]).position),
                forall|k: int|
                    0 <= k < n ==> (#[trigger] old(scores)@[k]).score + m <= u32::MAX,
                forall|k: int|
                    i <= k < n ==> #[trigger] scores@[k] == old(scores)@[k],
                forall|k: int|
                    0 <= k < i ==> (#[trigger] scores@[k]).score == old(scores)@[k].score
                        + count_hits(positions@[k], targets@, radius),
                flags@.len() == m,
                forall|k: int|
                    0 <= k < m ==> (#[trigger] flags@[k] <==> any_hit(
                        positions@,
                        i as int,
                        targets@[k].position,
                        radius,
                    )),
            decreases n - i,
        {
            let p = positions[i];
            proof {
                assert(old(scores)@[i as int].score + m <= u32::MAX);
            }
            let mut c: u32 = 0;
            let mut j: usize = 0;
            while j < m
                invariant
                    j <= m,
                    i < n,
                    n == positions@.len(),
                    m == targets@.len(),
                    0 < radius <= FX_LIM,
                    p == positions@[i as int],
                    forall|k: int| 0 <= k < n ==> pos_fits(#[trigger] positions@[k]),
                    forall|k: int| 0 <= k < m ==> pos_fits((#[trigger] targets@[k]).position),
                    c == count_hits(p, targets@.take(j as int), radius),
                    0 <= c <= j,
                    m <= u32::MAX,
                    old(scores)@[i as int].score + m <= u32::MAX,
                    flags@.len() == m,
                    forall|k: int|
                        j <= k < m ==> (#[trigger] flags@[k] <==> any_hit(
                            positions@,
                            i as int,
                            targets@[k].position,
                            radius,
                        )),
                    forall|k: int|
                        0 <= k < j ==> (#[trigger] flags@[k] <==> any_hit(
                            positions@,
                            i as int + 1,
                            targets@[k].position,
                            radius,
                        )),
                decreases m - j,
            {
                proof {
                    assert(targets@.take(j as int + 1).drop_last() =~= targets@.take(j as int));
                    assert(targets@.take(j as int + 1).last() == targets@[j as int]);
                }
                let hit_now = Self::check(&p, &targets[j].position, radius);
                if hit_now {
                    flags.set(j, true);
                    c = c + 1;
                    proof {
                        assert(hits(positions@[i as int], targets@[j as int].position, radius));
                        assert(any_hit(
                            positions@,
                            i as int + 1,
                            targets@[j as int].position,
                            radius,
                        ));
                    }
                } else {
                    proof {
                        assert forall|a: int|
                            0 <= a < i as int + 1 && hits(
                                positions@[a],
                                targets@[j as int].position,
                                radius,
                            ) implies a < i as int by {}
                    }
                }
                j = j + 1;
            }
            proof {
                assert(targets@.take(m as int) =~= targets@);
                lemma_count_hits_bound(p, targets@, radius);
            }
            let s = scores[i].score();
            scores.set(i, Score { score: s + c });
            i = i + 1;
        }
        HitTargets(flags)
    }

    /// The contact test for one pair, exactly the `hits` predicate.
    pub fn check(a: &Position, t: &Position, radius: i64) -> (r: bool)
        requires
            pos_fits(*a),
            pos_fits(*t),
            0 < radius <= FX_LIM,
        ensures
            r == hits(*a, *t, radius),
    {
        let dx: i64 = a.x - t.x;
        let dy: i64 = a.y - t.y;
        let adx: i64 = if dx >= 0 {
            dx
        } else {
            -dx
        };
        let ady: i64 = if dy >= 0 {
            dy
        } else {
            -dy
        };
        if adx < radius && ady < radius {
            proof {
                assert(dx * dx == adx * adx && dy * dy == ady * ady && adx * adx
                    <= 1_000_000_000_000_000_000_000_000_000_000 && ady * ady
                    <= 1_000_000_000_000_000_000_000_000_000_000 && radius * radius
                    <= 1_000_000_000_000_000_000_000_000_000_000) by (nonlinear_arith)
                    requires
                        adx == if dx >= 0 {
                            dx as int
                        } else {
                            -(dx as int)
                        },
                        ady == if dy >= 0 {
                            dy as int
                        } else {
                            -(dy as int)
                        },
                        0 <= adx <= FX_LIM,
                        0 <= ady <= FX_LIM,
                        0 < radius <= FX_LIM,
                ;
            }
            let sq: u128 = (adx as u128) * (adx as u128) + (ady as u128) * (ady as u128);
            let r2: u128 = (radius as u128) * (radius as u128);
            sq < r2
        } else {
            false
        }
    }
}

} // verus!
