//! Game rules of a small arcade flight game, verified with Verus: enemy
//! texture tinting, window placement, mini-map layout, input handling,
//! reticle targeting and spawning plans.

pub mod pixel_tint;
pub mod text;
pub mod window_position;
pub mod mini_map;
pub mod input;
pub mod reticles;
pub mod camera;
pub mod spawning;
pub mod propeller;
pub mod toast;
pub mod hierarchy;
pub mod collisions;
pub mod particles;
pub mod player;
