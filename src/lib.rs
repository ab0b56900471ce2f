//! A simulation of robots foraging for resources over a procedurally generated
//! terrain, in fixed-point integer arithmetic.
//!
//! Units used throughout the library:
//! - lengths and positions are in thousandths of a world unit;
//! - noise values are in millionths;
//! - angles are in units of which `HALF_TURN` make up half a turn (π radians);
//! - durations are in microseconds.
//!
//! A tick runs, in this order: `World::locomotion`, `World::avoid_obstacles`,
//! `World::sense`, `World::steer`, `World::collect` and `World::update_score`.

pub mod angle;
pub mod collection;
pub mod common;
pub mod geometry;
mod random;
pub mod resources;
pub mod robot;
pub mod spawn;
pub mod terrain;
pub mod world;

pub use angle::{shortest_turn, wrap_angle, FULL_TURN, HALF_TURN};
pub use collection::{collect_resource, lemma_collected_not_sensed, lemma_collection_partitions};
pub use common::{
    update_score, Collider, DiscoveredResources, GameResource, ResourceCollectedEvent, ResourceType,
    Score,
};
pub use geometry::{circle_intersects_box, Aabb, Point, MAX_COORD};
pub use resources::{
    disc_is_clear, lemma_placement_avoids_obstacles, place_resources, spawn_resources, Candidate,
    PlacedResource, Placement, PLACEMENT_ATTEMPTS,
};
pub use robot::{
    lemma_locomotion_step_in_bounds, lemma_locomotion_ticks_in_bounds, nearest_in_range, Agent, Bounds, Direction, Robot, Role, Sensor, SensorState, MAX_DT,
    MAX_SPEED, MAX_TURN_RATE, MICROS_PER_SECOND, ROTATION_SPEED, UNIT,
};
pub use spawn::{spawn_default_robots, spawn_robots, RoleConfig, SetupError};
pub use terrain::{
    lemma_generation_deterministic, lemma_obstacles_in_band, tile_band, Terrain, TerrainError,
    OBSTACLE_BAND_HIGH, OBSTACLE_BAND_LOW, POS_SCALE,
};
pub use world::World;
