//! The perception model. Once per tick, every agent receives a fixed-length
//! sensor vector: its forward field of view is split into one equal angular
//! receptor per controller input, every target is mirrored across the arena
//! boundaries (up to nine images each) to model toroidal visibility, and
//! each receptor sums a distance-based intensity over its nearest images,
//! at most four, taken in order of distance.
//!
//! The intensity of an image at distance `d` within viewing distance `V` is
//! `1 - (d / V)^2`: one at contact, continuously and strictly falling to
//! zero at `V`, and zero beyond.

use vstd::prelude::*;
use crate::components::{max_pos_wf, pos_in_bounds, velocity_wf, Agent, Position, Target, Velocity};
use crate::fx::{lemma_div_bounds, wrap_fx, FX_LIM, FX_ONE, FX_PI, FX_TAU};
use crate::neural::{net_input_size, net_wf};
use crate::resources::MaxPos;
use crate::trig::{atan2_fx, atan2_spec};

verus! {

/// One target image as an agent sees it: squared distance and the signed
/// angular offset from the agent's heading, normalized into `(-pi, pi]`.
#[derive(Clone, Copy, Debug)]
pub struct Sighting {
    pub dist_sq: u128,
    pub offset: i64,
}

/// Normalize an angle into `(-pi, pi]`.
pub open spec fn norm_signed_spec(a: int) -> int {
    let w = a % (FX_TAU as int);
    if w > FX_PI {
        w - FX_TAU
    } else {
        w
    }
}

/// The nine images of a target under boundary mirroring: the target itself,
/// its reflections across each axis, and its translations past each far
/// edge, combined.
pub open spec fn candidates_of(p: Position, max: Position) -> Seq<Position> {
    seq![
        p,
        (Position { x: (0 - p.x) as i64, y: p.y }),
        (Position { x: p.x, y: (0 - p.y) as i64 }),
        (Position { x: (p.x + max.x) as i64, y: p.y }),
        (Position { x: p.x, y: (p.y + max.y) as i64 }),
        (Position { x: (0 - p.x) as i64, y: (0 - p.y) as i64 }),
        (Position { x: (0 - p.x) as i64, y: (p.y + max.y) as i64 }),
        (Position { x: (p.x + max.x) as i64, y: (0 - p.y) as i64 }),
        (Position { x: (p.x + max.x) as i64, y: (p.y + max.y) as i64 }),
    ]
}

/// What an agent at `a` with the given heading sees of one candidate image.
pub open spec fn sighting_of(c: Position, a: Position, heading: i64) -> Sighting {
    let dx = c.x - a.x;
    let dy = c.y - a.y;
    let angle = atan2_spec(dy, dx);
    let angle0 = if angle < 0 {
        angle + FX_TAU
    } else {
        angle
    };
    (Sighting {
        dist_sq: (dx * dx + dy * dy) as u128,
        offset: norm_signed_spec(heading - angle0) as i64,
    })
}

/// An offset within the field of view, half on either side of the heading.
pub open spec fn in_fov(s: Sighting, fov: i64) -> bool {
    -(fov as int / 2) <= s.offset < fov as int / 2
}

/// The visible sightings of a run of candidate images, in order.
pub open spec fn visible_of(cs: Seq<Position>, a: Position, heading: i64, fov: i64) -> Seq<
    Sighting,
>
    decreases cs.len(),
{
    if cs.len() == 0 {
        Seq::empty()
    } else {
        let rest = visible_of(cs.drop_last(), a, heading, fov);
        let s = sighting_of(cs.last(), a, heading);
        if in_fov(s, fov) {
            rest.push(s)
        } else {
            rest
        }
    }
}

/// All visible sightings of all targets' images, in target order.
pub open spec fn visible_all(
    ts: Seq<Target>,
    a: Position,
    heading: i64,
    max: Position,
    fov: i64,
) -> Seq<Sighting>
    decreases ts.len(),
{
    if ts.len() == 0 {
        Seq::empty()
    } else {
        visible_all(ts.drop_last(), a, heading, max, fov) + visible_of(
            candidates_of(ts.last().position, max),
            a,
            heading,
            fov,
        )
    }
}

/// Where a stable insertion by distance places `e`: after every kept
/// element not strictly farther, so equal distances keep their order.
pub open spec fn insert_pos(e: Sighting, s: Seq<Sighting>) -> int
    decreases s.len(),
{
    if s.len() == 0 {
        0
    } else if s.last().dist_sq > e.dist_sq {
        insert_pos(e, s.drop_last())
    } else {
        s.len() as int
    }
}

/// The stable sort of the sightings by ascending distance.
pub open spec fn sort_by_dist(s: Seq<Sighting>) -> Seq<Sighting>
    decreases s.len(),
{
    if s.len() == 0 {
        Seq::empty()
    } else {
        let sorted = sort_by_dist(s.drop_last());
        sorted.insert(insert_pos(s.last(), sorted), s.last())
    }
}

/// The sightings are in ascending order of distance.
pub open spec fn sorted_by_dist_ordered(s: Seq<Sighting>) -> bool {
    forall|i: int, j: int| 0 <= i <= j < s.len() ==> s[i].dist_sq <= s[j].dist_sq
}

proof fn lemma_insert_pos_after(e: Sighting, s: Seq<Sighting>)
    ensures
        forall|k: int| insert_pos(e, s) <= k < s.len() ==> (#[trigger] s[k]).dist_sq > e.dist_sq,
        insert_pos(e, s) > 0 ==> s[insert_pos(e, s) - 1].dist_sq <= e.dist_sq,
    decreases s.len(),
{
    if s.len() > 0 && s.last().dist_sq > e.dist_sq {
        lemma_insert_pos_after(e, s.drop_last());
        lemma_insert_pos_range(e, s.drop_last());
        let p = insert_pos(e, s);
        assert forall|k: int| p <= k < s.len() implies (#[trigger] s[k]).dist_sq > e.dist_sq by {
            if k < s.len() - 1 {
                assert(s.drop_last()[k] == s[k]);
            }
        }
        if p > 0 {
            assert(s.drop_last()[p - 1] == s[p - 1]);
        }
    }
}

/// The distance sort earns its name: its result is ordered by ascending
/// distance and holds exactly the input's sightings, so a prefix of it is
/// the set of nearest sightings.
pub proof fn lemma_sort_by_dist_props(s: Seq<Sighting>)
    ensures
        sorted_by_dist_ordered(sort_by_dist(s)),
        sort_by_dist(s).to_multiset() == s.to_multiset(),
        sort_by_dist(s).len() == s.len(),
    decreases s.len(),
{
    broadcast use vstd::seq_lib::group_to_multiset_ensures;

    if s.len() > 0 {
        lemma_sort_by_dist_props(s.drop_last());
        let sorted = sort_by_dist(s.drop_last());
        let e = s.last();
        let p = insert_pos(e, sorted);
        let x = sorted.insert(p, e);
        lemma_insert_pos_range(e, sorted);
        lemma_insert_pos_after(e, sorted);
        sorted.insert_ensures(p, e);
        assert forall|i: int, j: int| 0 <= i <= j < x.len() implies x[i].dist_sq
            <= x[j].dist_sq by {
            if i < p {
                assert(x[i] == sorted[i]);
                if p > 0 {
                    assert(sorted[i].dist_sq <= sorted[p - 1].dist_sq);
                }
            }
            if j > p {
                assert(x[j] == sorted[j - 1]);
                assert(sorted[j - 1].dist_sq > e.dist_sq);
            }
        }
        assert(x.remove(p) =~= sorted);
        assert(x[p] == e);
        assert(x.remove(p).to_multiset() =~= x.to_multiset().remove(e));
        assert(x.contains(e));
        assert(x.to_multiset().count(e) > 0);
        assert(x.to_multiset() =~= sorted.to_multiset().insert(e));
        assert(s =~= s.drop_last().push(e));
        assert(s.to_multiset() =~= s.drop_last().to_multiset().insert(e));
    }
}

proof fn lemma_insert_pos_range(e: Sighting, s: Seq<Sighting>)
    ensures
        0 <= insert_pos(e, s) <= s.len(),
    decreases s.len(),
{
    if s.len() > 0 {
        lemma_insert_pos_range(e, s.drop_last());
    }
}

proof fn lemma_sort_len(s: Seq<Sighting>)
    ensures
        sort_by_dist(s).len() == s.len(),
    decreases s.len(),
{
    if s.len() > 0 {
        lemma_sort_len(s.drop_last());
        lemma_insert_pos_range(s.last(), sort_by_dist(s.drop_last()));
        sort_by_dist(s.drop_last()).insert_ensures(
            insert_pos(s.last(), sort_by_dist(s.drop_last())),
            s.last(),
        );
    }
}

/// The sensor intensity of an image at squared distance `dist_sq` under
/// viewing distance `vd`: zero at or beyond `vd`, one at contact, falling
/// quadratically in between.
pub open spec fn intensity(dist_sq: u128, vd: i64) -> int {
    let v2 = (vd as int) * (vd as int);
    if dist_sq >= v2 {
        0
    } else {
        ((v2 - dist_sq) * FX_ONE) / v2
    }
}

/// The summed intensity of a run of sightings.
pub open spec fn sum_intensity(s: Seq<Sighting>, vd: i64) -> int
    decreases s.len(),
{
    if s.len() == 0 {
        0
    } else {
        intensity(s.first().dist_sq, vd) + sum_intensity(s.drop_first(), vd)
    }
}

/// The at most `cap` sightings from index `j` on whose offset falls in
/// `[lo, hi)`, nearest first when the input is sorted.
pub open spec fn seen_from(s: Seq<Sighting>, j: int, lo: int, hi: int, cap: int) -> Seq<Sighting>
    decreases s.len() - j,
{
    if j < 0 || j >= s.len() || cap <= 0 {
        Seq::empty()
    } else if lo <= s[j].offset < hi {
        seq![s[j]] + seen_from(s, j + 1, lo, hi, cap - 1)
    } else {
        seen_from(s, j + 1, lo, hi, cap)
    }
}

/// One receptor's value: the summed intensity of the at most four nearest
/// visible images within the receptor's angular slice.
pub open spec fn receptor_value(sorted: Seq<Sighting>, i: int, fov: i64, n: nat, vd: i64) -> int {
    let slice = (fov as int) / (n as int);
    let lo = -(fov as int / 2) + slice * i;
    sum_intensity(seen_from(sorted, 0, lo, lo + slice, 4), vd)
}

/// The whole sensor vector of an agent at `a` with the given heading: one
/// receptor value per controller input, in receptor order.
pub open spec fn sensor_vector(
    ts: Seq<Target>,
    a: Position,
    heading: i64,
    max: Position,
    fov: i64,
    vd: i64,
    n: nat,
) -> Seq<i64> {
    let sorted = sort_by_dist(visible_all(ts, a, heading, max, fov));
    Seq::new(n, |i: int| receptor_value(sorted, i, fov, n, vd) as i64)
}

pub struct Vision;

impl Vision {
    /// Store a fresh sensor vector in every agent, leaving controllers
    /// untouched.
    pub fn run(
        agents: &mut Vec<Agent>,
        positions: &Vec<Position>,
        velocities: &Vec<Velocity>,
        targets: &Vec<Target>,
        max: &MaxPos,
        fov: i64,
        viewing_distance: i64,
    )
        requires
            old(agents)@.len() == positions@.len(),
            old(agents)@.len() == velocities@.len(),
            max_pos_wf(max.0),
            forall|i: int|
                0 <= i < positions@.len() ==> pos_in_bounds(#[trigger] positions@[i], max.0),
            forall|t: int|
                0 <= t < targets@.len() ==> pos_in_bounds(
                    (#[trigger] targets@[t]).position,
                    max.0,
                ),
            forall|i: int|
                0 <= i < velocities@.len() ==> velocity_wf(#[trigger] velocities@[i], FX_LIM),
            forall|i: int| 0 <= i < old(agents)@.len() ==> net_wf((#[trigger] old(agents)@[i]).network),
            0 <= fov <= FX_TAU,
            1 <= viewing_distance <= FX_LIM,
        ensures
            final(agents)@.len() == old(agents)@.len(),
            forall|i: int|
                0 <= i < final(agents)@.len() ==> (#[trigger] final(agents)@[i]).network == old(
                    agents,
                )@[i].network,
            forall|i: int|
                0 <= i < final(agents)@.len() ==> ((#[trigger] final(agents)@[i]).inputs matches Some(
                    buf,
                ) && buf@ == sensor_vector(
                    targets@,
                    positions@[i],
                    velocities@[i].heading,
                    max.0,
                    fov,
                    viewing_distance,
                    net_input_size(old(agents)@[i].network),
                )),
    {
        let n = agents.len();
        let mut out: Vec<Agent> = Vec::new();
        let mut i: usize = 0;
        while i < n
            invariant
                i <= n,
                n == old(agents)@.len() == positions@.len() == velocities@.len(),
                agents@ == old(agents)@.skip(i as int),
                max_pos_wf(max.0),
                forall|k: int|
                    0 <= k < positions@.len() ==> pos_in_bounds(#[trigger] positions@[k], max.0),
                forall|t: int|
                    0 <= t < targets@.len() ==> pos_in_bounds(
                        (#[trigger] targets@[t]).position,
                        max.0,
                    ),
                forall|k: int|
                    0 <= k < velocities@.len() ==> velocity_wf(#[trigger] velocities@[k], FX_LIM),
                forall|k: int|
                    0 <= k < n ==> net_wf((#[trigger] old(agents)@[k]).network),
                0 <= fov <= FX_TAU,
                1 <= viewing_distance <= FX_LIM,
                out@.len() == i,
                forall|k: int|
                    0 <= k < i ==> (#[trigger] out@[k]).network == old(agents)@[k].network,
                forall|k: int|
                    0 <= k < i ==> ((#[trigger] out@[k]).inputs matches Some(buf) && buf@
                        == sensor_vector(
                        targets@,
                        positions@[k],
                        velocities@[k].heading,
                        max.0,
                        fov,
                        viewing_distance,
                        net_input_size(old(agents)@[k].network),
                    )),
            decreases n - i,
        {
            let mut a = agents.remove(0);
            proof {
                assert(old(agents)@.skip(i as int).drop_first() =~= old(agents)@.skip(
                    i as int + 1,
                ));
            }
            let width = a.network.input_size();
            let buf = Self::sense(
                targets,
                positions[i],
                velocities[i].heading,
                max,
                fov,
                viewing_distance,
                width,
            );
            a.inputs = Some(buf);
            out.push(a);
            i = i + 1;
        }
        *agents = out;
    }

    /// One agent's sensor vector, exactly `sensor_vector`.
    pub fn sense(
        targets: &Vec<Target>,
        a: Position,
        heading: i64,
        max: &MaxPos,
        fov: i64,
        viewing_distance: i64,
        n: usize,
    ) -> (r: Vec<i64>)
        requires
            max_pos_wf(max.0),
            pos_in_bounds(a, max.0),
            forall|t: int|
                0 <= t < targets@.len() ==> pos_in_bounds(
                    (#[trigger] targets@[t]).position,
                    max.0,
                ),
            0 <= heading < FX_TAU,
            0 <= fov <= FX_TAU,
            1 <= viewing_distance <= FX_LIM,
            n >= 1,
        ensures
            r@ == sensor_vector(targets@, a, heading, max.0, fov, viewing_distance, n as nat),
            r@.len() == n,
    {
        let m = targets.len();
        let mut vis: Vec<Sighting> = Vec::new();
        let mut t: usize = 0;
        while t < m
            invariant
                t <= m,
                m == targets@.len(),
                max_pos_wf(max.0),
                pos_in_bounds(a, max.0),
                forall|k: int|
                    0 <= k < m ==> pos_in_bounds((#[trigger] targets@[k]).position, max.0),
                0 <= heading < FX_TAU,
                0 <= fov <= FX_TAU,
                vis@ == visible_all(targets@.take(t as int), a, heading, max.0, fov),
            decreases m - t,
        {
            let p = targets[t].position;
            let mut cands: Vec<Position> = Vec::new();
            cands.push(p);
            cands.push(Position { x: 0 - p.x, y: p.y });
            cands.push(Position { x: p.x, y: 0 - p.y });
            cands.push(Position { x: p.x + max.0.x, y: p.y });
            cands.push(Position { x: p.x, y: p.y + max.0.y });
            cands.push(Position { x: 0 - p.x, y: 0 - p.y });
            cands.push(Position { x: 0 - p.x, y: p.y + max.0.y });
            cands.push(Position { x: p.x + max.0.x, y: 0 - p.y });
            cands.push(Position { x: p.x + max.0.x, y: p.y + max.0.y });
            proof {
                assert(cands@ =~= candidates_of(p, max.0));
            }
            let mut j: usize = 0;
            while j < 9
                invariant
                    j <= 9,
                    cands@ == candidates_of(p, max.0),
                    cands@.len() == 9,
                    forall|c: int|
                        0 <= c < 9 ==> -FX_LIM <= (#[trigger] cands@[c]).x <= 2 * FX_LIM
                            && -FX_LIM <= cands@[c].y <= 2 * FX_LIM,
                    pos_in_bounds(a, max.0),
                    max_pos_wf(max.0),
                    0 <= heading < FX_TAU,
                    0 <= fov <= FX_TAU,
                    vis@ == visible_all(targets@.take(t as int), a, heading, max.0, fov)
                        + visible_of(cands@.subrange(0, j as int), a, heading, fov),
                decreases 9 - j,
            {
                let c = cands[j];
                let s = Self::sight(c, a, heading);
                proof {
                    assert(cands@.subrange(0, j as int + 1).drop_last() =~= cands@.subrange(
                        0,
                        j as int,
                    ));
                    assert(cands@.subrange(0, j as int + 1).last() == cands@[j as int]);
                }
                let half = ((fov as u64) / 2) as i64;
                proof {
                    assert(half == fov as int / 2);
                    assert(s == sighting_of(cands@[j as int], a, heading));
                }
                if -half <= s.offset && s.offset < half {
                    vis.push(s);
                }
                j = j + 1;
            }
            proof {
                assert(cands@.subrange(0, 9) =~= cands@);
                assert(targets@.take(t as int + 1).drop_last() =~= targets@.take(t as int));
                assert(targets@.take(t as int + 1).last() == targets@[t as int]);
            }
            t = t + 1;
        }
        proof {
            assert(targets@.take(m as int) =~= targets@);
        }
        let sorted = Self::sort_sightings(&vis);
        let slice = ((fov as u64) / (n as u64)) as i64;
        let half = ((fov as u64) / 2) as i64;
        let ghost svis = sort_by_dist(visible_all(targets@, a, heading, max.0, fov));
        let mut out: Vec<i64> = Vec::new();
        let mut lo: i64 = 0 - half;
        let mut i: usize = 0;
        while i < n
            invariant
                i <= n,
                n >= 1,
                0 <= fov <= FX_TAU,
                1 <= viewing_distance <= FX_LIM,
                slice == (fov as int) / (n as int),
                half == fov as int / 2,
                sorted@ == svis,
                lo == -(fov as int / 2) + slice * (i as int),
                -(fov as int) <= lo <= fov,
                out@.len() == i,
                forall|k: int|
                    0 <= k < i ==> #[trigger] out@[k] == receptor_value(
                        svis,
                        k,
                        fov,
                        n as nat,
                        viewing_distance,
                    ),
            decreases n - i,
        {
            proof {
                lemma_slice_bound(fov as int, n as int, i as int + 1);
                assert(slice * (i as int + 1) == slice * (i as int) + slice) by (nonlinear_arith);
            }
            let hi = lo + slice;
            let v = Self::receptor_sum(&sorted, 0, 4, lo, hi, viewing_distance);
            out.push(v);
            lo = hi;
            i = i + 1;
        }
        proof {
            assert(out@ =~= sensor_vector(
                targets@,
                a,
                heading,
                max.0,
                fov,
                viewing_distance,
                n as nat,
            ));
        }
        out
    }

    /// What the agent sees of one candidate image, exactly `sighting_of`.
    pub fn sight(c: Position, a: Position, heading: i64) -> (s: Sighting)
        requires
            -FX_LIM <= c.x <= 2 * FX_LIM,
            -FX_LIM <= c.y <= 2 * FX_LIM,
            -FX_LIM <= a.x <= FX_LIM,
            -FX_LIM <= a.y <= FX_LIM,
            0 <= heading < FX_TAU,
        ensures
            s == sighting_of(c, a, heading),
            -FX_PI < s.offset <= FX_PI,
    {
        let dx: i64 = c.x - a.x;
        let dy: i64 = c.y - a.y;
        let angle = atan2_fx(dy, dx);
        let angle0 = if angle < 0 {
            angle + FX_TAU
        } else {
            angle
        };
        let w = wrap_fx(heading - angle0, FX_TAU);
        let off = if w > FX_PI {
            w - FX_TAU
        } else {
            w
        };
        let ax: u128 = if dx >= 0 {
            dx as u128
        } else {
            (-(dx as i128)) as u128
        };
        let ay: u128 = if dy >= 0 {
            dy as u128
        } else {
            (-(dy as i128)) as u128
        };
        proof {
            assert(ax * ax == dx * dx && ax * ax <= 9_000_000_000_000_000_000_000_000_000_000)
                by (nonlinear_arith)
                requires
                    0 <= ax <= 3_000_000_000_000_000,
                    ax == if dx >= 0 {
                        dx as int
                    } else {
                        -(dx as int)
                    },
            ;
            assert(ay * ay == dy * dy && ay * ay <= 9_000_000_000_000_000_000_000_000_000_000)
                by (nonlinear_arith)
                requires
                    0 <= ay <= 3_000_000_000_000_000,
                    ay == if dy >= 0 {
                        dy as int
                    } else {
                        -(dy as int)
                    },
            ;
        }
        let dist_sq: u128 = ax * ax + ay * ay;
        Sighting { dist_sq, offset: off }
    }

    /// The stable sort of the sightings by ascending distance, exactly
    /// `sort_by_dist`.
    pub fn sort_sightings(v: &Vec<Sighting>) -> (r: Vec<Sighting>)
        ensures
            r@ == sort_by_dist(v@),
    {
        let n = v.len();
        let mut out: Vec<Sighting> = Vec::new();
        let mut i: usize = 0;
        while i < n
            invariant
                i <= n,
                n == v@.len(),
                out@ == sort_by_dist(v@.take(i as int)),
                out@.len() == i,
            decreases n - i,
        {
            let e = v[i];
            let mut j: usize = out.len();
            proof {
                assert(out@.take(out@.len() as int) =~= out@);
            }
            while j > 0 && out[j - 1].dist_sq > e.dist_sq
                invariant
                    j <= out@.len(),
                    insert_pos(e, out@) == insert_pos(e, out@.take(j as int)),
                decreases j,
            {
                proof {
                    assert(out@.take(j as int).drop_last() =~= out@.take(j as int - 1));
                    assert(out@.take(j as int).last() == out@[j as int - 1]);
                }
                j = j - 1;
            }
            proof {
                if j == 0 {
                    assert(out@.take(0) =~= Seq::<Sighting>::empty());
                } else {
                    assert(out@.take(j as int).last() == out@[j as int - 1]);
                }
                assert(insert_pos(e, out@) == j);
                lemma_insert_pos_range(e, out@);
                assert(v@.take(i as int + 1).drop_last() =~= v@.take(i as int));
                assert(v@.take(i as int + 1).last() == v@[i as int]);
                lemma_sort_len(v@.take(i as int + 1));
            }
            out.insert(j, e);
            i = i + 1;
        }
        proof {
            assert(v@.take(n as int) =~= v@);
        }
        out
    }

    /// The summed intensity of the at most `cap` sightings from `j` on that
    /// fall in `[lo, hi)`, exactly `sum_intensity` over `seen_from`.
    pub fn receptor_sum(s: &Vec<Sighting>, j: usize, cap: usize, lo: i64, hi: i64, vd: i64) -> (r:
        i64)
        requires
            j <= s@.len(),
            cap <= 4,
            1 <= vd <= FX_LIM,
        ensures
            r == sum_intensity(seen_from(s@, j as int, lo as int, hi as int, cap as int), vd),
            0 <= r <= cap * FX_ONE,
        decreases s@.len() - j,
    {
        if j >= s.len() || cap == 0 {
            return 0;
        }
        let e = s[j];
        if lo <= e.offset && e.offset < hi {
            let v = Self::intensity_at(e.dist_sq, vd);
            let rest = Self::receptor_sum(s, j + 1, cap - 1, lo, hi, vd);
            proof {
                let whole = seen_from(s@, j as int, lo as int, hi as int, cap as int);
                assert(whole.first() == s@[j as int]);
                assert(whole.drop_first() =~= seen_from(
                    s@,
                    j as int + 1,
                    lo as int,
                    hi as int,
                    cap as int - 1,
                ));
            }
            v + rest
        } else {
            Self::receptor_sum(s, j + 1, cap, lo, hi, vd)
        }
    }

    /// The intensity of one image, exactly `intensity`.
    pub fn intensity_at(dist_sq: u128, vd: i64) -> (r: i64)
        requires
            1 <= vd <= FX_LIM,
        ensures
            r == intensity(dist_sq, vd),
            0 <= r <= FX_ONE,
    {
        proof {
            assert(1 <= (vd as int) * (vd as int) <= 1_000_000_000_000_000_000_000_000_000_000)
                by (nonlinear_arith)
                requires
                    1 <= vd <= FX_LIM,
            ;
        }
        let v2: u128 = (vd as u128) * (vd as u128);
        if dist_sq >= v2 {
            0
        } else {
            let num: u128 = (v2 - dist_sq) * (FX_ONE as u128);
            let q: u128 = num / v2;
            proof {
                assert((v2 - dist_sq) * (FX_ONE as int) <= (FX_ONE as int) * v2)
                    by (nonlinear_arith)
                    requires
                        0 < v2 <= 1_000_000_000_000_000_000_000_000_000_000u128,
                        dist_sq < v2,
                ;
                lemma_div_bounds((v2 - dist_sq) * (FX_ONE as int), v2 as int, FX_ONE as int);
            }
            q as i64
        }
    }
}

/// A receptor slice boundary never leaves the field of view:
/// `0 <= (fov / n) * i <= fov` for `i <= n`.
proof fn lemma_slice_bound(fov: int, n: int, i: int)
    requires
        0 <= fov,
        1 <= n,
        0 <= i <= n,
    ensures
        0 <= (fov / n) * i <= fov,
{
    vstd::arithmetic::div_mod::lemma_div_pos_is_pos(fov, n);
    vstd::arithmetic::div_mod::lemma_fundamental_div_mod(fov, n);
    assert(0 <= (fov / n) * i <= (fov / n) * n) by (nonlinear_arith)
        requires
            0 <= fov / n,
            0 <= i <= n,
    ;
    assert((fov / n) * n <= fov) by (nonlinear_arith)
        requires
            fov == n * (fov / n) + fov % n,
            0 <= fov % n,
    ;
}

} // verus!
