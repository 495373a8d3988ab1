//! The per-tick stages, one module per stage. Each stage is a plain
//! function over exactly the data it reads and writes; the scheduler in
//! `sim` invokes them in a fixed dependency order every tick.

pub mod apply_force;
pub mod apply_velocity;
pub mod collision_check;
pub mod control;
pub mod crossover;
pub mod mutate;
pub mod print_stats;
pub mod rank_selection;
pub mod reset_positions;
pub mod reset_scores;
pub mod reset_velocities;
pub mod roulette_selection;
pub mod spawn_new_targets;
pub mod tick_counter;
pub mod vision;
