use genetic::components::{Agent, Force, Position, Score, Target, Velocity};
use genetic::fx::{FX_PI, FX_TAU};
use genetic::neural::{Layer, Network, Neuron};
use genetic::resources::{DeltaTime, MaxPos, ResetInterval, Ticks};
use genetic::sim::{SimConfig, Simulation};
use rand::SeedableRng;

const S: i64 = 1_000_000;

fn config(interval: u64) -> SimConfig {
    SimConfig {
        delta: DeltaTime(S / 120),
        max: MaxPos(Position { x: 1200 * S, y: 1200 * S }),
        interval: ResetInterval(interval),
        fov: FX_PI,
        viewing_distance: 800 * S,
        capture_radius: 4 * S,
        max_magnitude: 150 * S,
        magnitude_lo: 5 * S,
        magnitude_hi: 100 * S,
        mutation_probability: 12_500,
    }
}

#[test]
fn tick_counter_advances() {
    let mut ticks = Ticks(0);
    assert_eq!(ticks.get(), 0);
    genetic::systems::tick_counter::TickCounter::run(&mut ticks);
    genetic::systems::tick_counter::TickCounter::run(&mut ticks);
    assert_eq!(ticks.get(), 2);
    ticks.inc();
    assert_eq!(ticks.get(), 3);
}

#[test]
fn setup_populates_world() {
    let mut rng = rand::rngs::StdRng::seed_from_u64(1);
    let sim = Simulation::new(config(7200), &vec![9, 15, 2], 30, 50, &mut rng);
    assert_eq!(sim.agents.len(), 30);
    assert_eq!(sim.targets.len(), 50);
    assert_eq!(sim.ticks.get(), 0);
    for i in 0..30 {
        assert_eq!(sim.scores[i].score(), 0);
        assert!(sim.agents[i].inputs.is_none());
        assert_eq!(sim.agents[i].network.input_size(), 9);
        assert!(sim.positions[i].x >= 0 && sim.positions[i].x < 1200 * S);
        assert!(sim.positions[i].y >= 0 && sim.positions[i].y < 1200 * S);
        assert!(sim.velocities[i].heading >= 0 && sim.velocities[i].heading < FX_TAU);
        assert!(sim.velocities[i].magnitude >= 5 * S && sim.velocities[i].magnitude < 100 * S);
    }
}

#[test]
fn off_boundary_tick_keeps_generation() {
    let mut rng = rand::rngs::StdRng::seed_from_u64(4);
    let mut sim = Simulation::new(config(7200), &vec![5, 6, 2], 4, 6, &mut rng);
    let stats = sim.tick(&mut rng);
    assert!(stats.is_none());
    assert_eq!(sim.ticks.get(), 1);
    // perception ran: every agent has a sensor buffer of its input width
    for a in &sim.agents {
        assert_eq!(a.inputs.as_ref().unwrap().len(), 5);
    }
}

#[test]
fn generation_reset_idempotence() {
    // immediately after a boundary tick every score is zero and every
    // position and velocity lies within the configured ranges, whatever
    // the values before
    let mut rng = rand::rngs::StdRng::seed_from_u64(9);
    let mut sim = Simulation::new(config(3), &vec![5, 6, 2], 6, 8, &mut rng);
    // seed scores with junk so the reset is visible
    for i in 0..6 {
        for _ in 0..5 {
            sim.scores[i].inc();
        }
    }
    let mut boundary_stats = None;
    for t in 1..=3 {
        let stats = sim.tick(&mut rng);
        assert_eq!(stats.is_some(), t % 3 == 0);
        if stats.is_some() {
            boundary_stats = stats;
        }
    }
    let stats = boundary_stats.unwrap();
    assert_eq!(stats.count, 6);
    // statistics saw the pre-reset scores: at least the seeded 5 each
    assert!(stats.total >= 30);
    for i in 0..6 {
        assert_eq!(sim.scores[i].score(), 0);
        assert!(sim.positions[i].x >= 0 && sim.positions[i].x < 1200 * S);
        assert!(sim.positions[i].y >= 0 && sim.positions[i].y < 1200 * S);
        assert!(sim.velocities[i].heading >= 0 && sim.velocities[i].heading < FX_TAU);
        assert!(sim.velocities[i].magnitude >= 5 * S && sim.velocities[i].magnitude < 100 * S);
    }
}

#[test]
fn still_agent_scores_on_adjacent_target() {
    // a motionless agent with a zero controller sits within capture range
    // of one target: each off-boundary tick scores exactly one point and
    // moves nothing
    let mut rng = rand::rngs::StdRng::seed_from_u64(21);
    let network = Network::from_layers(vec![Layer::new(vec![
        Neuron::new(0, vec![0]),
        Neuron::new(0, vec![0]),
    ])]);
    let mut sim = Simulation {
        config: config(1000),
        ticks: Ticks(0),
        agents: vec![Agent { inputs: None, network }],
        scores: vec![Score::new()],
        fitness: vec![1],
        positions: vec![Position { x: 100 * S, y: 100 * S }],
        velocities: vec![Velocity { heading: 0, magnitude: 0 }],
        forces: vec![Force { rotation: 0, translation: 0 }],
        targets: vec![Target { position: Position { x: 101 * S, y: 100 * S } }],
    };
    assert!(sim.tick(&mut rng).is_none());
    assert_eq!(sim.scores[0].score(), 1);
    assert_eq!(sim.positions[0].x, 100 * S);
    assert_eq!(sim.positions[0].y, 100 * S);
    assert_eq!(sim.velocities[0].magnitude, 0);
    assert_eq!(sim.velocities[0].heading, 0);
    // the captured target was relocated inside the arena
    assert!(sim.targets[0].position.x >= 0 && sim.targets[0].position.x < 1200 * S);
    assert!(sim.targets[0].position.y >= 0 && sim.targets[0].position.y < 1200 * S);
}

#[test]
fn boundary_replaces_controllers_within_population_genes() {
    // after a boundary, every gene of every controller is some parent's
    // gene or a fresh mutation within [-1, 1]; with distinct starting
    // genes per agent this is visible
    let mut rng = rand::rngs::StdRng::seed_from_u64(12);
    let mut sim = Simulation::new(config(1), &vec![3, 4, 2], 5, 2, &mut rng);
    let stats = sim.tick(&mut rng);
    assert!(stats.is_some());
    for a in &sim.agents {
        for layer in &a.network.layers {
            for n in &layer.neurons {
                assert!(-S <= n.bias && n.bias <= S);
                for &w in &n.input_weights {
                    assert!(-S <= w && w <= S);
                }
            }
        }
    }
}
