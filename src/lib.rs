//! A heightmap terrain renderer in the "voxel space" style: one ray per
//! screen column is marched over a top-down height field, and each sample
//! that lies below every nearer one paints its colour into the column.
//!
//! Positions and velocities are fixed-point integers (`SUBTEXELS` units per
//! texel), so rays are traced with exact rational steps. A ray that leaves
//! the map samples nothing. The frame keeps the full colour of each texel.

pub mod camera;
pub mod decode;
pub mod render;
pub mod terrain;

pub use camera::{Camera, Controls, Vec3, DAMPING_DENOM, DAMPING_NUMER, SUBTEXELS};
pub use render::{composite, Screen};
pub use terrain::{MapError, Raster, Rgb, TerrainMap};
