//! Physics core of a 2D artillery-launch game: a deterministic fixed-point
//! world-coordinate space, procedural terrain generation, collision geometry,
//! a three-stage trebuchet launch state machine, and a leapfrog projectile
//! integrator.
//!
//! Every persistent quantity is an integer in an explicit unit:
//! positions in 1/256 m ("coords"), sub-coordinate remainders and velocities
//! in 1/65536 m ("fine" units), trebuchet geometry in 1/1000 m and 1/1000 kg
//! ("milli" units). Floating-point meters are a transient convenience of the
//! unverified shell around this crate and never enter it.

pub mod math;
pub mod perlin;
pub mod physics;
pub mod player;
pub mod resources;
pub mod stats;
pub mod terrain;
pub mod trebuchet;
pub mod utils;
pub mod world;

pub use physics::Physics;
pub use player::Player;
pub use resources::Resources;
pub use stats::Stats;
pub use trebuchet::Trebuchet;
pub use utils::{FineVec2, WorldPoint};
pub use world::World;
