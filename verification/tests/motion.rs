use genetic::components::{Force, Position, Velocity};
use genetic::fx::{FX_PI, FX_TAU};
use genetic::resources::{DeltaTime, MaxPos};
use genetic::systems::apply_force::ApplyForce;
use genetic::systems::apply_velocity::ApplyVelocity;
use genetic::systems::control::Control;

const S: i64 = 1_000_000;

#[test]
fn force_integrates_velocity() {
    let mut velocities = vec![Velocity { heading: 0, magnitude: 10 * S }];
    let forces = vec![Force { rotation: 500_000, translation: 2 * S }];
    ApplyForce::run(&mut velocities, &forces, &DeltaTime(S), 150 * S);
    assert_eq!(velocities[0].heading, 500_000);
    assert_eq!(velocities[0].magnitude, 12 * S);
}

#[test]
fn force_clamps_magnitude_at_both_ends() {
    let mut velocities = vec![
        Velocity { heading: 0, magnitude: 10 * S },
        Velocity { heading: 0, magnitude: 140 * S },
    ];
    let forces = vec![
        Force { rotation: 0, translation: -20 * S },
        Force { rotation: 0, translation: 100 * S },
    ];
    ApplyForce::run(&mut velocities, &forces, &DeltaTime(S), 150 * S);
    assert_eq!(velocities[0].magnitude, 0);
    assert_eq!(velocities[1].magnitude, 150 * S);
}

#[test]
fn force_normalizes_heading() {
    let mut velocities = vec![Velocity { heading: FX_TAU - 100_000, magnitude: 0 }];
    let forces = vec![Force { rotation: 300_000, translation: 0 }];
    ApplyForce::run(&mut velocities, &forces, &DeltaTime(S), 150 * S);
    assert_eq!(velocities[0].heading, 200_000);
}

#[test]
fn wraparound_motion_forward() {
    // an agent just short of the far edge, moving with positive x-velocity,
    // wraps to a small positive x
    let max = MaxPos(Position { x: 1200 * S, y: 1200 * S });
    let mut positions = vec![Position { x: 1200 * S - 100_000, y: 600 * S }];
    let velocities = vec![Velocity { heading: 0, magnitude: 200_000 }];
    ApplyVelocity::run(&mut positions, &velocities, &DeltaTime(S), &max);
    assert_eq!(positions[0].x, 100_000);
    assert_eq!(positions[0].y, 600 * S);
    assert!(positions[0].x >= 0 && positions[0].x < 1200 * S);
}

#[test]
fn wraparound_motion_backward() {
    // moving left across the origin re-enters at the far edge
    let max = MaxPos(Position { x: 1200 * S, y: 1200 * S });
    let mut positions = vec![Position { x: 100_000, y: 600 * S }];
    let velocities = vec![Velocity { heading: FX_PI, magnitude: 200_000 }];
    ApplyVelocity::run(&mut positions, &velocities, &DeltaTime(S), &max);
    assert_eq!(positions[0].x, 1200 * S - 100_000);
    assert!(positions[0].x >= 0 && positions[0].x < 1200 * S);
}

#[test]
fn steering_rescales_outputs() {
    // outputs in (0, 1] map to (-10, 10]; non-positive outputs command nothing
    assert_eq!(Control::steer_output(0), 0);
    assert_eq!(Control::steer_output(-300_000), 0);
    assert_eq!(Control::steer_output(500_000), 0);
    assert_eq!(Control::steer_output(600_000), 2 * S);
    assert_eq!(Control::steer_output(S), 10 * S);
    assert_eq!(Control::steer_output(2 * S), 10 * S);
    assert_eq!(Control::steer_output(100_000), -8 * S);
}
