//! Spatial core of a real-time tank battle: a uniform grid of cells that records
//! where units stand and who watches which cell, the map that keeps both in step
//! with the units, and the flight and hits of bullets.

pub mod bullet;
pub mod grid;
pub mod map;
pub mod map_laws;
pub mod scene;
pub mod unit;
pub mod util;
pub mod viewport;
