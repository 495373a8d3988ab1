use genetic::components::{Position, Score, Target};
use genetic::resources::{HitTargets, MaxPos, ResetInterval, Ticks};
use genetic::systems::collision_check::CollisionCheck;
use genetic::systems::crossover::Crossover;
use genetic::systems::print_stats::PrintStats;
use genetic::systems::rank_selection::RankSelection;
use genetic::systems::reset_scores::ResetScores;
use genetic::systems::roulette_selection::RouletteSelection;
use genetic::systems::spawn_new_targets::SpawnNewTargets;
use rand::SeedableRng;

const S: i64 = 1_000_000;

fn scores_of(values: &[u32]) -> Vec<Score> {
    values.iter().map(|&v| Score { score: v }).collect()
}

#[test]
fn rank_ladder() {
    // scores [2, 4, 4, 8, 13] rank [1, 2, 2, 3, 4]: ties share a rank and
    // the lowest distinct score ranks 1
    let scores = scores_of(&[2, 4, 4, 8, 13]);
    let mut fitness = vec![0u32; 5];
    RankSelection::run(&scores, &mut fitness, &Ticks(7200), &ResetInterval(7200));
    assert_eq!(fitness, vec![1, 2, 2, 3, 4]);
}

#[test]
fn rank_all_equal_collapses() {
    let scores = scores_of(&[7, 7, 7]);
    let mut fitness = vec![0u32; 3];
    RankSelection::run(&scores, &mut fitness, &Ticks(10), &ResetInterval(5));
    assert_eq!(fitness, vec![1, 1, 1]);
}

#[test]
fn rank_skips_off_boundary() {
    let scores = scores_of(&[2, 4]);
    let mut fitness = vec![9, 9];
    RankSelection::run(&scores, &mut fitness, &Ticks(7199), &ResetInterval(7200));
    assert_eq!(fitness, vec![9, 9]);
}

#[test]
fn roulette_uses_raw_scores() {
    let scores = scores_of(&[0, 3, 5]);
    let mut fitness = vec![1, 1, 1];
    RouletteSelection::run(&scores, &mut fitness, &Ticks(5), &ResetInterval(5));
    assert_eq!(fitness, vec![0, 3, 5]);
}

#[test]
fn score_reset_zeroes_on_boundary() {
    let mut scores = scores_of(&[2, 4, 4, 8, 13]);
    ResetScores::run(&mut scores, &Ticks(7200), &ResetInterval(7200));
    for s in &scores {
        assert_eq!(s.score(), 0);
    }
    let mut scores = scores_of(&[2, 4]);
    ResetScores::run(&mut scores, &Ticks(7201), &ResetInterval(7200));
    assert_eq!(scores[0].score(), 2);
    assert_eq!(scores[1].score(), 4);
}

#[test]
fn stats_cover_pre_reset_scores() {
    let scores = scores_of(&[2, 4, 4, 8, 13]);
    let stats = PrintStats::run(&scores, &Ticks(14400), &ResetInterval(7200)).unwrap();
    assert_eq!(stats.generation, 2);
    assert_eq!(stats.total, 31);
    assert_eq!(stats.min, 2);
    assert_eq!(stats.max, 13);
    assert_eq!(stats.count, 5);
    assert!(PrintStats::run(&scores, &Ticks(14401), &ResetInterval(7200)).is_none());
}

#[test]
fn weighted_pick_walks_cumulative_ladder() {
    let fitness = vec![1u32, 2, 3];
    assert_eq!(Crossover::total(&fitness), 6);
    assert_eq!(Crossover::pick_weighted(&fitness, 0), 0);
    assert_eq!(Crossover::pick_weighted(&fitness, 1), 1);
    assert_eq!(Crossover::pick_weighted(&fitness, 2), 1);
    assert_eq!(Crossover::pick_weighted(&fitness, 3), 2);
    assert_eq!(Crossover::pick_weighted(&fitness, 5), 2);
}

#[test]
fn zero_weight_is_never_picked() {
    let fitness = vec![0u32, 4, 0, 1];
    for r in 0..5 {
        let k = Crossover::pick_weighted(&fitness, r);
        assert!(fitness[k] > 0);
    }
}

#[test]
fn capture_scores_once() {
    // within the radius of exactly one target: exactly one point, even with
    // both checks marginal
    let positions = vec![Position { x: 10 * S, y: 10 * S }];
    let mut scores = scores_of(&[0]);
    let targets = vec![Target { position: Position { x: 10 * S + 4 * S - 1, y: 10 * S } }];
    let hit = CollisionCheck::run(&positions, &mut scores, &targets, 4 * S);
    assert_eq!(scores[0].score(), 1);
    assert_eq!(hit.0, vec![true]);
}

#[test]
fn no_capture_outside_radius() {
    let positions = vec![Position { x: 10 * S, y: 10 * S }];
    let mut scores = scores_of(&[0]);
    // outside on the axis, and inside the box but outside the circle
    let targets = vec![
        Target { position: Position { x: 14 * S, y: 10 * S } },
        Target { position: Position { x: 13 * S, y: 13 * S } },
    ];
    let hit = CollisionCheck::run(&positions, &mut scores, &targets, 4 * S);
    assert_eq!(scores[0].score(), 0);
    assert_eq!(hit.0, vec![false, false]);
}

#[test]
fn shared_capture_is_deduplicated() {
    // two agents on one target: both score, the target respawns once
    let positions = vec![Position { x: 10 * S, y: 10 * S }, Position { x: 11 * S, y: 10 * S }];
    let mut scores = scores_of(&[0, 0]);
    let targets = vec![Target { position: Position { x: 10 * S + 500_000, y: 10 * S } }];
    let hit = CollisionCheck::run(&positions, &mut scores, &targets, 4 * S);
    assert_eq!(scores[0].score(), 1);
    assert_eq!(scores[1].score(), 1);
    assert_eq!(hit.0, vec![true]);
}

#[test]
fn respawn_relocates_only_hit_targets() {
    let mut rng = rand::rngs::StdRng::seed_from_u64(2);
    let max = MaxPos(Position { x: 1200 * S, y: 1200 * S });
    let kept = Position { x: 700 * S, y: 800 * S };
    let mut targets = vec![
        Target { position: Position { x: 10 * S, y: 10 * S } },
        Target { position: kept },
    ];
    let hit = HitTargets(vec![true, false]);
    SpawnNewTargets::run(&mut targets, &hit, &max, &mut rng);
    assert!(targets[0].position.x >= 0 && targets[0].position.x < 1200 * S);
    assert!(targets[0].position.y >= 0 && targets[0].position.y < 1200 * S);
    assert_eq!(targets[1].position.x, kept.x);
    assert_eq!(targets[1].position.y, kept.y);
}
