//! The per-entity state: an agent's controller and sensor buffer, its score,
//! pose and steering command, and the consumable targets.

use vstd::prelude::*;
use crate::fx::{fx_isqrt, FX_LIM};
use crate::neural::Network;

verus! {

/// A simulated organism: its most recent sensor vector (`None` until the
/// first perception pass) and its neural controller.
///
/// The controller should have an odd sensor width so that one receptor is
/// centered on the agent's heading.
#[derive(Debug)]
pub struct Agent {
    pub inputs: Option<Vec<i64>>,
    pub network: Network,
}

/// Targets captured this generation.
#[derive(Debug)]
pub struct Score {
    pub score: u32,
}

impl Default for Score {
    fn default() -> (r: Score)
        ensures
            r.score == 0,
    {
        Score { score: 0 }
    }
}

impl Score {
    pub fn new() -> (r: Score)
        ensures
            r.score == 0,
    {
        Score { score: 0 }
    }

    pub fn inc(&mut self)
        requires
            old(self).score < u32::MAX,
        ensures
            final(self).score == old(self).score + 1,
    {
        self.score = self.score + 1;
    }

    pub fn score(&self) -> (r: u32)
        ensures
            r == self.score,
    {
        self.score
    }
}

/// The last commanded steering: an angular rate and a forward thrust, both
/// in fixed point.
#[derive(Clone, Copy, Debug)]
pub struct Force {
    pub rotation: i64,
    pub translation: i64,
}

impl Default for Force {
    fn default() -> (r: Force)
        ensures
            r.rotation == 0 && r.translation == 0,
    {
        Force { rotation: 0, translation: 0 }
    }
}

/// A consumable goal marker: only a position, relocated when captured.
#[derive(Clone, Copy, Debug)]
pub struct Target {
    pub position: Position,
}

/// A world coordinate pair in fixed point.
#[derive(Clone, Copy, Debug)]
pub struct Position {
    pub x: i64,
    pub y: i64,
}

/// A position lies inside the arena `[0, max.x) x [0, max.y)`.
pub open spec fn pos_in_bounds(p: Position, max: Position) -> bool {
    0 <= p.x < max.x && 0 <= p.y < max.y
}

/// Arena bounds are positive and within the fixed-point range.
pub open spec fn max_pos_wf(max: Position) -> bool {
    1 <= max.x <= FX_LIM && 1 <= max.y <= FX_LIM
}

impl Position {
    /// The Euclidean distance to `b`, rounded down to fixed-point units.
    pub fn distance(&self, b: &Position) -> (r: i64)
        requires
            -FX_LIM <= self.x <= FX_LIM,
            -FX_LIM <= self.y <= FX_LIM,
            -FX_LIM <= b.x <= FX_LIM,
            -FX_LIM <= b.y <= FX_LIM,
        ensures
            0 <= r,
            r * r <= (b.x - self.x) * (b.x - self.x) + (b.y - self.y) * (b.y - self.y) < (r + 1) * (
            r + 1),
    {
        let dx: i128 = (b.x as i128) - (self.x as i128);
        let dy: i128 = (b.y as i128) - (self.y as i128);
        let ax: u128 = if dx >= 0 {
            dx as u128
        } else {
            (-dx) as u128
        };
        let ay: u128 = if dy >= 0 {
            dy as u128
        } else {
            (-dy) as u128
        };
        proof {
            assert(ax * ax == (b.x - self.x) * (b.x - self.x) && ax * ax <= 4_000_000_000_000_000_000_000_000_000_000)
                by (nonlinear_arith)
                requires
                    0 <= ax <= 2_000_000_000_000_000,
                    ax == if b.x - self.x >= 0 {
                        b.x - self.x
                    } else {
                        -(b.x - self.x)
                    },
            ;
            assert(ay * ay == (b.y - self.y) * (b.y - self.y) && ay * ay <= 4_000_000_000_000_000_000_000_000_000_000)
                by (nonlinear_arith)
                requires
                    0 <= ay <= 2_000_000_000_000_000,
                    ay == if b.y - self.y >= 0 {
                        b.y - self.y
                    } else {
                        -(b.y - self.y)
                    },
            ;
        }
        let sq: u128 = ax * ax + ay * ay;
        let r = fx_isqrt(sq);
        proof {
            assert(r <= 3_000_000_000_000_000) by (nonlinear_arith)
                requires
                    (r as int) * (r as int) <= sq,
                    sq <= 8_000_000_000_000_000_000_000_000_000_000,
                    0 <= r,
            ;
        }
        r as i64
    }
}

/// A velocity in polar form: heading in radians (fixed point, normalized
/// into `[0, tau)`) and a nonnegative magnitude.
#[derive(Clone, Copy, Debug)]
pub struct Velocity {
    pub heading: i64,
    pub magnitude: i64,
}

/// A velocity is normalized: heading in `[0, tau)`, magnitude in
/// `[0, max_magnitude]`.
pub open spec fn velocity_wf(v: Velocity, max_magnitude: i64) -> bool {
    &&& 0 <= v.heading < crate::fx::FX_TAU
    &&& 0 <= v.magnitude <= max_magnitude
}

} // verus!
