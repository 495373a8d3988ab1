//! The tick scheduler: one `Simulation` value holds the whole world, and
//! `tick` advances it one step, invoking the stages in their fixed
//! dependency order — perception, control, force, motion, collision, then
//! the boundary-gated generational stages (statistics, respawn, velocity
//! reset, ranking, position reset, score reset, crossover, mutation).

use vstd::prelude::*;
use crate::components::{
    max_pos_wf, pos_in_bounds, velocity_wf, Agent, Force, Position, Score, Target, Velocity,
};
use crate::fx::{FX_LIM, FX_ONE, FX_TAU};
use crate::neural::{
    lemma_crossed_shape, lemma_mutated_shape, lemma_same_shape_sym, lemma_same_shape_trans,
    lemma_same_shape_wf, net_input_size, net_wf, same_shape, Network,
};
use crate::resources::{is_boundary, DeltaTime, MaxPos, ResetInterval, Ticks};
use crate::systems::apply_force::ApplyForce;
use crate::systems::apply_velocity::ApplyVelocity;
use crate::systems::collision_check::CollisionCheck;
use crate::systems::control::Control;
use crate::systems::crossover::Crossover;
use crate::systems::mutate::Mutate;
use crate::systems::print_stats::{PrintStats, Stats};
use crate::systems::rank_selection::RankSelection;
use crate::systems::reset_positions::ResetPositions;
use crate::systems::reset_scores::ResetScores;
use crate::systems::reset_velocities::ResetVelocities;
use crate::systems::spawn_new_targets::SpawnNewTargets;
use crate::systems::tick_counter::TickCounter;
use crate::systems::vision::Vision;
use crate::rng::rand_i64;

verus! {

/// The fixed configuration supplied once at setup.
#[derive(Clone, Copy, Debug)]
pub struct SimConfig {
    /// Tick duration, fixed-point seconds.
    pub delta: DeltaTime,
    /// Arena bounds.
    pub max: MaxPos,
    /// Generation length in ticks.
    pub interval: ResetInterval,
    /// Field of view, fixed-point radians.
    pub fov: i64,
    /// How far an agent can see a target.
    pub viewing_distance: i64,
    /// Capture radius for agent-target contact.
    pub capture_radius: i64,
    /// Speed limit for the force integrator.
    pub max_magnitude: i64,
    /// Speed range assigned on generation reset.
    pub magnitude_lo: i64,
    pub magnitude_hi: i64,
    /// Per-gene mutation probability, fixed point in `[0, 1]`.
    pub mutation_probability: i64,
}

pub open spec fn config_wf(c: SimConfig) -> bool {
    &&& max_pos_wf(c.max.0)
    &&& c.interval.0 >= 1
    &&& 0 <= c.fov <= FX_TAU
    &&& 1 <= c.viewing_distance <= FX_LIM
    &&& 0 < c.capture_radius <= FX_LIM
    &&& 0 <= c.max_magnitude <= FX_LIM
    &&& 0 <= c.magnitude_lo < c.magnitude_hi <= c.max_magnitude
    &&& 0 <= c.mutation_probability <= FX_ONE
}

/// The whole simulated world: the population's per-agent columns, the
/// targets, and the tick counter.
#[derive(Debug)]
pub struct Simulation {
    pub config: SimConfig,
    pub ticks: Ticks,
    pub agents: Vec<Agent>,
    pub scores: Vec<Score>,
    pub fitness: Vec<u32>,
    pub positions: Vec<Position>,
    pub velocities: Vec<Velocity>,
    pub forces: Vec<Force>,
    pub targets: Vec<Target>,
}

/// The standing invariant of a simulation: every column the same length,
/// every position in the arena, every velocity normalized, every controller
/// well-formed and of one common shape, and every sensor buffer as wide as
/// its controller's input.
pub open spec fn sim_wf(s: Simulation) -> bool {
    &&& config_wf(s.config)
    &&& 1 <= s.agents@.len() < u32::MAX
    &&& s.scores@.len() == s.agents@.len()
    &&& s.fitness@.len() == s.agents@.len()
    &&& s.positions@.len() == s.agents@.len()
    &&& s.velocities@.len() == s.agents@.len()
    &&& s.forces@.len() == s.agents@.len()
    &&& forall|i: int|
        0 <= i < s.positions@.len() ==> pos_in_bounds(#[trigger] s.positions@[i], s.config.max.0)
    &&& forall|t: int|
        0 <= t < s.targets@.len() ==> pos_in_bounds(
            (#[trigger] s.targets@[t]).position,
            s.config.max.0,
        )
    &&& forall|i: int|
        0 <= i < s.velocities@.len() ==> velocity_wf(#[trigger] s.velocities@[i], s.config.max_magnitude)
    &&& forall|i: int| 0 <= i < s.agents@.len() ==> net_wf((#[trigger] s.agents@[i]).network)
    &&& forall|i: int, j: int|
        0 <= i < s.agents@.len() && 0 <= j < s.agents@.len() ==> same_shape(
            (#[trigger] s.agents@[i]).network,
            (#[trigger] s.agents@[j]).network,
        )
    &&& forall|i: int|
        0 <= i < s.agents@.len() ==> ((#[trigger] s.agents@[i]).inputs matches Some(buf)
            ==> buf@.len() == net_input_size(s.agents@[i].network))
}

/// The sensor vector an agent perceives this tick, a function of the
/// tick-start state alone.
pub open spec fn tick_sensor(s: Simulation, i: int) -> Seq<i64> {
    crate::systems::vision::sensor_vector(
        s.targets@,
        s.positions@[i],
        s.velocities@[i].heading,
        s.config.max.0,
        s.config.fov,
        s.config.viewing_distance,
        net_input_size(s.agents@[i].network),
    )
}

/// The force an agent commands this tick: its controller run on the sensor
/// vector perceived at the tick's start.
pub open spec fn tick_force(s: Simulation, i: int) -> Force {
    crate::systems::control::control_force(
        crate::neural::net_eval(s.agents@[i].network.layers@, tick_sensor(s, i)),
        s.forces@[i],
    )
}

/// An agent's velocity after this tick's force integration.
pub open spec fn tick_velocity(s: Simulation, i: int) -> Velocity {
    crate::systems::apply_force::force_applied(
        s.velocities@[i],
        tick_force(s, i),
        s.config.delta.0,
        s.config.max_magnitude,
    )
}

/// An agent's position after this tick's motion.
pub open spec fn tick_position(s: Simulation, i: int) -> Position {
    crate::systems::apply_velocity::velocity_applied(
        s.positions@[i],
        tick_velocity(s, i),
        s.config.delta.0,
        s.config.max.0,
    )
}

/// An agent's score after this tick's collision pass: the previous score
/// plus one per target it touches.
pub open spec fn tick_score(s: Simulation, i: int) -> int {
    s.scores@[i].score + crate::systems::collision_check::count_hits(
        tick_position(s, i),
        s.targets@,
        s.config.capture_radius,
    )
}

/// All agent positions after this tick's motion.
pub open spec fn tick_positions(s: Simulation) -> Seq<Position> {
    Seq::new(s.agents@.len(), |i: int| tick_position(s, i))
}

/// All agent scores after this tick's collision pass.
pub open spec fn tick_scores(s: Simulation) -> Seq<Score> {
    Seq::new(s.agents@.len(), |i: int| (Score { score: tick_score(s, i) as u32 }))
}

/// A controller produced by one generation step from the given parent
/// pool: a uniform crossover of two pool members' controllers followed by a
/// uniform mutation. Opaque: reveal it to reason about the parents.
#[verifier::opaque]
pub open spec fn descends_from(c: Network, pool: Seq<Agent>) -> bool {
    exists|p: int, q: int, m: Network|
        0 <= p < pool.len() && 0 <= q < pool.len() && crate::neural::net_crossed(
            m,
            pool[p].network,
            pool[q].network,
        ) && crate::neural::net_mutated(c, m)
}

impl Simulation {
    /// Build a starting world: `num_targets` targets and `num_agents`
    /// agents scattered uniformly, each agent with a fresh random
    /// controller of the given shape, a random heading and speed, zero
    /// score and no sensor reading yet.
    pub fn new(
        config: SimConfig,
        shape: &Vec<usize>,
        num_agents: usize,
        num_targets: usize,
        rng: &mut rand::rngs::StdRng,
    ) -> (r: Simulation)
        requires
            config_wf(config),
            shape@.len() >= 2,
            forall|i: int| 0 <= i < shape@.len() ==> 1 <= #[trigger] shape@[i],
            1 <= num_agents < u32::MAX,
        ensures
            sim_wf(r),
            r.config == config,
            r.ticks.0 == 0,
            r.agents@.len() == num_agents,
            r.targets@.len() == num_targets,
            forall|i: int| 0 <= i < num_agents ==> (#[trigger] r.scores@[i]).score == 0,
            forall|i: int|
                0 <= i < num_agents ==> net_input_size((#[trigger] r.agents@[i]).network)
                    == shape@[0],
    {
        let mut targets: Vec<Target> = Vec::new();
        let mut t: usize = 0;
        while t < num_targets
            invariant
                t <= num_targets,
                config_wf(config),
                targets@.len() == t,
                forall|k: int|
                    0 <= k < t ==> pos_in_bounds((#[trigger] targets@[k]).position, config.max.0),
            decreases num_targets - t,
        {
            let x = rand_i64(rng, 0, config.max.0.x);
            let y = rand_i64(rng, 0, config.max.0.y);
            targets.push(Target { position: Position { x, y } });
            t = t + 1;
        }
        let mut agents: Vec<Agent> = Vec::new();
        let mut scores: Vec<Score> = Vec::new();
        let mut fitness: Vec<u32> = Vec::new();
        let mut positions: Vec<Position> = Vec::new();
        let mut velocities: Vec<Velocity> = Vec::new();
        let mut forces: Vec<Force> = Vec::new();
        let mut i: usize = 0;
        while i < num_agents
            invariant
                i <= num_agents,
                config_wf(config),
                shape@.len() >= 2,
                forall|k: int| 0 <= k < shape@.len() ==> 1 <= #[trigger] shape@[k],
                agents@.len() == i,
                scores@.len() == i,
                fitness@.len() == i,
                positions@.len() == i,
                velocities@.len() == i,
                forces@.len() == i,
                forall|k: int|
                    0 <= k < i ==> pos_in_bounds(#[trigger] positions@[k], config.max.0),
                forall|k: int|
                    0 <= k < i ==> velocity_wf(#[trigger] velocities@[k], config.max_magnitude),
                forall|k: int| 0 <= k < i ==> net_wf((#[trigger] agents@[k]).network),
                forall|k: int|
                    0 <= k < i ==> net_input_size((#[trigger] agents@[k]).network) == shape@[0],
                forall|k: int|
                    0 <= k < i ==> (#[trigger] agents@[k]).network.layers@.len() == shape@.len()
                        - 1,
                forall|k: int, l: int|
                    0 <= k < i && 0 <= l < agents@[k].network.layers@.len() ==> (
                    #[trigger] agents@[k].network.layers@[l]).neurons@.len() == shape@[l + 1],
                forall|k: int, l: int|
                    0 <= k < i && 0 <= l < agents@[k].network.layers@.len()
                        ==> crate::neural::layer_width(#[trigger] agents@[k].network.layers@[l])
                        == shape@[l],
                forall|k: int, j: int|
                    0 <= k < i && 0 <= j < i ==> same_shape(
                        (#[trigger] agents@[k]).network,
                        (#[trigger] agents@[j]).network,
                    ),
                forall|k: int| 0 <= k < i ==> (#[trigger] agents@[k]).inputs is None,
                forall|k: int| 0 <= k < i ==> (#[trigger] scores@[k]).score == 0,
            decreases num_agents - i,
        {
            let network = Network::random(rng, shape);
            proof {
                assert forall|k: int| 0 <= k < i implies same_shape(
                    (#[trigger] agents@[k]).network,
                    network,
                ) && same_shape(network, agents@[k].network) by {
                    lemma_random_shape_match(agents@[k].network, network, shape@);
                }
            }
            agents.push(Agent { inputs: None, network });
            scores.push(Score::new());
            fitness.push(1);
            positions.push(
                Position {
                    x: rand_i64(rng, 0, config.max.0.x),
                    y: rand_i64(rng, 0, config.max.0.y),
                },
            );
            velocities.push(
                Velocity {
                    heading: rand_i64(rng, 0, FX_TAU),
                    magnitude: rand_i64(rng, config.magnitude_lo, config.magnitude_hi),
                },
            );
            forces.push(Force { rotation: 0, translation: 0 });
            i = i + 1;
        }
        Simulation {
            config,
            ticks: Ticks(0),
            agents,
            scores,
            fitness,
            positions,
            velocities,
            forces,
            targets,
        }
    }

    /// Advance the world one tick. Returns the generation statistics on a
    /// boundary tick, computed over the scores as the ranking step saw
    /// them, before the reset; `None` otherwise. Immediately after a
    /// boundary tick every score is zero, every position lies in the arena
    /// and every velocity in the configured ranges, whatever the values
    /// before.
    #[verifier::rlimit(30)]
    pub fn tick(&mut self, rng: &mut rand::rngs::StdRng) -> (r: Option<Stats>)
        requires
            sim_wf(*old(self)),
            old(self).ticks.0 < u64::MAX,
            forall|i: int|
                0 <= i < old(self).scores@.len() ==> (#[trigger] old(self).scores@[i]).score
                    + old(self).targets@.len() <= u32::MAX,
        ensures
            sim_wf(*final(self)),
            final(self).config == old(self).config,
            final(self).ticks.0 == old(self).ticks.0 + 1,
            final(self).agents@.len() == old(self).agents@.len(),
            final(self).targets@.len() == old(self).targets@.len(),
            r is Some <==> is_boundary(final(self).ticks.0, old(self).config.interval.0),
            is_boundary(final(self).ticks.0, old(self).config.interval.0) ==> {
                &&& forall|i: int|
                    0 <= i < final(self).scores@.len() ==> (#[trigger] final(self).scores@[i]).score
                        == 0
                &&& forall|i: int|
                    0 <= i < final(self).positions@.len() ==> pos_in_bounds(
                        #[trigger] final(self).positions@[i],
                        old(self).config.max.0,
                    )
                &&& forall|i: int|
                    0 <= i < final(self).velocities@.len() ==> {
                        let v = #[trigger] final(self).velocities@[i];
                        0 <= v.heading < FX_TAU && old(self).config.magnitude_lo <= v.magnitude
                            < old(self).config.magnitude_hi
                    }
                &&& forall|i: int|
                    0 <= i < final(self).fitness@.len() ==> #[trigger] final(self).fitness@[i]
                        == crate::systems::rank_selection::rank_of(
                        crate::systems::rank_selection::score_values(tick_scores(*old(self))),
                        tick_scores(*old(self))[i].score,
                    )
                &&& forall|i: int|
                    0 <= i < final(self).agents@.len() ==> descends_from(
                        (#[trigger] final(self).agents@[i]).network,
                        old(self).agents@,
                    )
            },
            !is_boundary(final(self).ticks.0, old(self).config.interval.0) ==> {
                &&& forall|i: int|
                    0 <= i < final(self).agents@.len() ==> (#[trigger] final(self).agents@[i]).network
                        == old(self).agents@[i].network
                &&& final(self).fitness@ == old(self).fitness@
                &&& forall|i: int|
                    0 <= i < final(self).agents@.len() ==> #[trigger] final(self).velocities@[i]
                        == tick_velocity(*old(self), i)
                &&& forall|i: int|
                    0 <= i < final(self).agents@.len() ==> #[trigger] final(self).positions@[i]
                        == tick_position(*old(self), i)
                &&& forall|i: int|
                    0 <= i < final(self).agents@.len() ==> (#[trigger] final(self).scores@[i]).score
                        == tick_score(*old(self), i)
            },
            forall|i: int|
                0 <= i < final(self).agents@.len() ==> ((#[trigger] final(self).agents@[i]).inputs matches Some(
                    buf,
                ) && buf@ == tick_sensor(*old(self), i)),
            forall|i: int|
                0 <= i < final(self).agents@.len() ==> #[trigger] final(self).forces@[i]
                    == tick_force(*old(self), i),
            forall|t: int|
                0 <= t < final(self).targets@.len() && !crate::systems::collision_check::any_hit(
                    tick_positions(*old(self)),
                    old(self).agents@.len() as int,
                    old(self).targets@[t].position,
                    old(self).config.capture_radius,
                ) ==> #[trigger] final(self).targets@[t] == old(self).targets@[t],
            forall|i: int|
                0 <= i < final(self).agents@.len() ==> net_input_size(
                    (#[trigger] final(self).agents@[i]).network,
                ) == net_input_size(old(self).agents@[i].network),
            r matches Some(st) ==> {
                &&& st.generation == final(self).ticks.0 / old(self).config.interval.0
                &&& st.count == old(self).agents@.len()
                &&& st.total == crate::systems::print_stats::sum_scores(tick_scores(*old(self)))
                &&& st.min == crate::systems::print_stats::min_score(tick_scores(*old(self)))
                &&& st.max == crate::systems::print_stats::max_score(tick_scores(*old(self)))
            },
    {
        let ghost s0 = *old(self);
        TickCounter::run(&mut self.ticks);
        Vision::run(
            &mut self.agents,
            &self.positions,
            &self.velocities,
            &self.targets,
            &self.config.max,
            self.config.fov,
            self.config.viewing_distance,
        );
        proof {
            assert forall|i: int| 0 <= i < self.agents@.len() implies ((
            #[trigger] self.agents@[i]).inputs matches Some(buf) && buf@ == tick_sensor(s0, i)) by {}
        }
        Control::run(&self.agents, &mut self.forces);
        proof {
            assert forall|i: int| 0 <= i < self.forces@.len() implies #[trigger] self.forces@[i]
                == tick_force(s0, i) by {
                assert(crate::systems::control::agent_force(self.agents@[i], s0.forces@[i])
                    == tick_force(s0, i));
            }
        }
        ApplyForce::run(&mut self.velocities, &self.forces, &self.config.delta, self.config.max_magnitude);
        proof {
            assert forall|i: int|
                0 <= i < self.velocities@.len() implies #[trigger] self.velocities@[i]
                == tick_velocity(s0, i) by {}
        }
        ApplyVelocity::run(&mut self.positions, &self.velocities, &self.config.delta, &self.config.max);
        proof {
            assert forall|i: int|
                0 <= i < self.positions@.len() implies #[trigger] self.positions@[i]
                == tick_position(s0, i) by {}
            assert(self.positions@ =~= tick_positions(s0));
        }
        proof {
            assert forall|i: int| 0 <= i < self.positions@.len() implies crate::systems::collision_check::pos_fits(
                #[trigger] self.positions@[i],
            ) by {}
            assert forall|t: int| 0 <= t < self.targets@.len() implies crate::systems::collision_check::pos_fits(
                (#[trigger] self.targets@[t]).position,
            ) by {}
        }
        let hit = CollisionCheck::run(
            &self.positions,
            &mut self.scores,
            &self.targets,
            self.config.capture_radius,
        );
        proof {
            assert forall|i: int| 0 <= i < self.scores@.len() implies #[trigger] self.scores@[i]
                == tick_scores(s0)[i] by {
                crate::systems::collision_check::lemma_count_hits_bound(
                    tick_position(s0, i),
                    s0.targets@,
                    s0.config.capture_radius,
                );
                assert((self.scores@[i]).score == tick_score(s0, i));
            }
            assert(self.scores@ =~= tick_scores(s0));
        }
        let stats = PrintStats::run(&self.scores, &self.ticks, &self.config.interval);
        SpawnNewTargets::run(&mut self.targets, &hit, &self.config.max, rng);
        ResetVelocities::run(
            &mut self.velocities,
            &self.ticks,
            &self.config.interval,
            self.config.magnitude_lo,
            self.config.magnitude_hi,
            rng,
        );
        RankSelection::run(&self.scores, &mut self.fitness, &self.ticks, &self.config.interval);
        proof {
            if is_boundary(self.ticks.0, self.config.interval.0) {
                assert forall|i: int|
                    0 <= i < self.fitness@.len() implies #[trigger] self.fitness@[i]
                    == crate::systems::rank_selection::rank_of(
                    crate::systems::rank_selection::score_values(tick_scores(s0)),
                    tick_scores(s0)[i].score,
                ) by {}
            }
        }
        ResetPositions::run(&mut self.positions, &self.ticks, &self.config.interval, &self.config.max, rng);
        ResetScores::run(&mut self.scores, &self.ticks, &self.config.interval);
        let ghost pre_cross = self.agents@;
        Crossover::run(&mut self.agents, &self.fitness, &self.ticks, &self.config.interval, rng);
        proof {
            if is_boundary(self.ticks.0, self.config.interval.0) {
                assert forall|i: int| 0 <= i < self.agents@.len() implies net_wf(
                    (#[trigger] self.agents@[i]).network,
                ) && same_shape(self.agents@[i].network, pre_cross[0].network) by {
                    let (p, q) = choose|p: int, q: int|
                        0 <= p < pre_cross.len() && 0 <= q < pre_cross.len()
                            && crate::neural::net_crossed(
                            self.agents@[i].network,
                            pre_cross[p].network,
                            pre_cross[q].network,
                        );
                    lemma_crossed_shape(self.agents@[i].network, pre_cross[p].network, pre_cross[q].network);
                    lemma_same_shape_wf(self.agents@[i].network, pre_cross[p].network);
                    lemma_same_shape_trans(
                        self.agents@[i].network,
                        pre_cross[p].network,
                        pre_cross[0].network,
                    );
                }
                assert forall|i: int, j: int|
                    0 <= i < self.agents@.len() && 0 <= j < self.agents@.len() implies same_shape(
                    (#[trigger] self.agents@[i]).network,
                    (#[trigger] self.agents@[j]).network,
                ) by {
                    lemma_same_shape_sym(self.agents@[j].network, pre_cross[0].network);
                    lemma_same_shape_trans(
                        self.agents@[i].network,
                        pre_cross[0].network,
                        self.agents@[j].network,
                    );
                }
                assert forall|i: int|
                    0 <= i < self.agents@.len() implies ((#[trigger] self.agents@[i]).inputs matches Some(
                    buf,
                ) ==> buf@.len() == net_input_size(self.agents@[i].network)) by {
                    lemma_same_shape_wf(self.agents@[i].network, pre_cross[i].network);
                }
            }
        }
        let ghost pre_mut = self.agents@;
        Mutate::run(&mut self.agents, &self.ticks, &self.config.interval, self.config.mutation_probability, rng);
        proof {
            if is_boundary(self.ticks.0, self.config.interval.0) {
                assert forall|i: int| 0 <= i < self.agents@.len() implies net_wf(
                    (#[trigger] self.agents@[i]).network,
                ) && same_shape(self.agents@[i].network, pre_mut[i].network) by {
                    lemma_mutated_shape(self.agents@[i].network, pre_mut[i].network);
                    lemma_same_shape_wf(self.agents@[i].network, pre_mut[i].network);
                }
                assert forall|i: int, j: int|
                    0 <= i < self.agents@.len() && 0 <= j < self.agents@.len() implies same_shape(
                    (#[trigger] self.agents@[i]).network,
                    (#[trigger] self.agents@[j]).network,
                ) by {
                    lemma_same_shape_sym(pre_mut[j].network, self.agents@[j].network);
                    lemma_same_shape_trans(
                        self.agents@[i].network,
                        pre_mut[i].network,
                        pre_mut[j].network,
                    );
                    lemma_same_shape_trans(
                        self.agents@[i].network,
                        pre_mut[j].network,
                        self.agents@[j].network,
                    );
                }
                assert forall|i: int|
                    0 <= i < self.agents@.len() implies ((#[trigger] self.agents@[i]).inputs matches Some(
                    buf,
                ) ==> buf@.len() == net_input_size(self.agents@[i].network)) by {
                    lemma_same_shape_wf(self.agents@[i].network, pre_mut[i].network);
                }
                assert forall|i: int|
                    0 <= i < self.agents@.len() implies descends_from(
                    (#[trigger] self.agents@[i]).network,
                    s0.agents@,
                ) by {
                    reveal(descends_from);
                    let (p, q) = choose|p: int, q: int|
                        0 <= p < pre_cross.len() && 0 <= q < pre_cross.len()
                            && crate::neural::net_crossed(
                            pre_mut[i].network,
                            pre_cross[p].network,
                            pre_cross[q].network,
                        );
                    assert(pre_cross[p].network == s0.agents@[p].network);
                    assert(pre_cross[q].network == s0.agents@[q].network);
                    assert(crate::neural::net_mutated(self.agents@[i].network, pre_mut[i].network));
                    assert(crate::neural::net_crossed(
                        pre_mut[i].network,
                        s0.agents@[p].network,
                        s0.agents@[q].network,
                    ));
                }
            }
        }
        stats
    }
}

/// Two networks drawn from `Network::random` with one shape share a shape.
proof fn lemma_random_shape_match(a: Network, b: Network, shape: Seq<usize>)
    requires
        net_wf(a),
        net_wf(b),
        a.layers@.len() == shape.len() - 1,
        b.layers@.len() == shape.len() - 1,
        forall|l: int|
            0 <= l < a.layers@.len() ==> (#[trigger] a.layers@[l]).neurons@.len() == shape[l + 1],
        forall|l: int|
            0 <= l < b.layers@.len() ==> (#[trigger] b.layers@[l]).neurons@.len() == shape[l + 1],
        forall|l: int|
            0 <= l < a.layers@.len() ==> crate::neural::layer_width(#[trigger] a.layers@[l])
                == shape[l],
        forall|l: int|
            0 <= l < b.layers@.len() ==> crate::neural::layer_width(#[trigger] b.layers@[l])
                == shape[l],
    ensures
        same_shape(a, b),
        same_shape(b, a),
{
    assert forall|l: int, i: int|
        0 <= l < a.layers@.len() && 0 <= i < a.layers@[l].neurons@.len() implies (
    #[trigger] a.layers@[l].neurons@[i]).input_weights@.len()
        == b.layers@[l].neurons@[i].input_weights@.len() by {
        assert(crate::neural::layer_wf(a.layers@[l]));
        assert(crate::neural::layer_wf(b.layers@[l]));
    }
    assert forall|l: int, i: int|
        0 <= l < b.layers@.len() && 0 <= i < b.layers@[l].neurons@.len() implies (
    #[trigger] b.layers@[l].neurons@[i]).input_weights@.len()
        == a.layers@[l].neurons@[i].input_weights@.len() by {
        assert(crate::neural::layer_wf(a.layers@[l]));
        assert(crate::neural::layer_wf(b.layers@[l]));
    }
}

} // verus!
