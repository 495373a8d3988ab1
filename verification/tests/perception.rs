use genetic::components::{Position, Target};
use genetic::fx::FX_PI;
use genetic::resources::MaxPos;
use genetic::systems::vision::Vision;

const S: i64 = 1_000_000;

fn arena() -> MaxPos {
    MaxPos(Position { x: 1200 * S, y: 1200 * S })
}

#[test]
fn empty_world_senses_nothing() {
    let targets: Vec<Target> = vec![];
    let v = Vision::sense(&targets, Position { x: 600 * S, y: 600 * S }, 0, &arena(), FX_PI,
        800 * S, 9);
    assert_eq!(v, vec![0; 9]);
}

#[test]
fn target_ahead_lights_center_receptor() {
    // one target 100 units straight ahead, viewing distance 800: intensity
    // 1 - (100/800)^2 = 0.984375 in the centered receptor, nothing else
    let targets = vec![Target { position: Position { x: 700 * S, y: 600 * S } }];
    let v = Vision::sense(&targets, Position { x: 600 * S, y: 600 * S }, 0, &arena(), FX_PI,
        800 * S, 9);
    assert_eq!(v.len(), 9);
    for (i, &r) in v.iter().enumerate() {
        if i == 4 {
            assert_eq!(r, 984_375);
        } else {
            assert_eq!(r, 0);
        }
    }
}

#[test]
fn target_behind_is_invisible() {
    let targets = vec![Target { position: Position { x: 500 * S, y: 600 * S } }];
    let v = Vision::sense(&targets, Position { x: 600 * S, y: 600 * S }, 0, &arena(), FX_PI,
        800 * S, 9);
    assert_eq!(v, vec![0; 9]);
}

#[test]
fn target_beyond_viewing_distance_contributes_nothing() {
    let targets = vec![Target { position: Position { x: 700 * S, y: 600 * S } }];
    let v = Vision::sense(&targets, Position { x: 600 * S, y: 600 * S }, 0, &arena(), FX_PI,
        90 * S, 9);
    assert_eq!(v, vec![0; 9]);
}

#[test]
fn closer_targets_contribute_more() {
    let near = vec![Target { position: Position { x: 650 * S, y: 600 * S } }];
    let far = vec![Target { position: Position { x: 750 * S, y: 600 * S } }];
    let here = Position { x: 600 * S, y: 600 * S };
    let vn = Vision::sense(&near, here, 0, &arena(), FX_PI, 800 * S, 9);
    let vf = Vision::sense(&far, here, 0, &arena(), FX_PI, 800 * S, 9);
    assert!(vn[4] > vf[4]);
    assert!(vf[4] > 0);
}

#[test]
fn wraparound_mirror_is_seen() {
    // the nearest image of a target across the right edge lies ahead of an
    // agent looking towards that edge
    let targets = vec![Target { position: Position { x: 50 * S, y: 600 * S } }];
    let v = Vision::sense(&targets, Position { x: 1100 * S, y: 600 * S }, 0, &arena(), FX_PI,
        800 * S, 9);
    // the image at x = 50 + 1200 is 150 ahead: 1 - (150/800)^2 = 0.96484375
    assert_eq!(v[4], 964_843);
    for (i, &r) in v.iter().enumerate() {
        if i != 4 {
            assert_eq!(r, 0, "receptor {i}");
        }
    }
}

#[test]
fn at_most_four_images_count_per_receptor() {
    // five identical targets dead ahead; only four may contribute
    let t = Target { position: Position { x: 700 * S, y: 600 * S } };
    let targets = vec![t, t, t, t, t];
    let v = Vision::sense(&targets, Position { x: 600 * S, y: 600 * S }, 0, &arena(), FX_PI,
        800 * S, 9);
    assert_eq!(v[4], 4 * 984_375);
}
