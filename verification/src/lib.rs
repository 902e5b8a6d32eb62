//! Simulation core of a first-person target-engagement game.
//!
//! The library owns the per-frame gameplay logic: countdown timers, the
//! scene stack and its transition protocol, an entity store coupled to a
//! physics side-table, hit-scan resolution, per-kind entity state machines,
//! and the bounded frustum-culled render queue. Geometry and time are held
//! in fixed-point integers: positions and radii in millimetres, durations in
//! milliseconds, so that every rule is stated and checked exactly.
//!
//! The floating-point collaborators (GPU renderer, windowing, audio, the
//! rigid-body integrator) live outside the library and exchange plain values
//! with it once per frame.

pub mod classic_game_scene;
pub mod error;
pub mod frustum;
pub mod game;
pub mod geom;
pub mod gunman;
pub mod hit_and_dodge_scene;
pub mod hit_and_dodge_score_scene;
pub mod message;
pub mod physics;
pub mod render_objects;
pub mod rng;
pub mod scene;
pub mod swordman;
pub mod systems;
pub mod target;
pub mod timer;
pub mod world;
