//! Enemy perception, navigation and projectile combat for a top-down tile
//! shooter, modelled on integer world coordinates.

pub mod geometry;
pub mod countdown;
pub mod clock;
pub mod nav_mesh;
pub mod random;
pub mod events;
pub mod unit;
pub mod bullet;
pub mod enemy;
pub mod effect;
pub mod stats;
pub mod settings;
pub mod player;
