//! A verified ant-colony foraging simulation: a discrete grid world with
//! decaying pheromone fields, ants that sense trails along rays and carry
//! food home, and a tick pipeline that applies their actions to the grid.
//!
//! All continuous quantities (world coordinates, angles in radians, scent
//! intensities, elapsed seconds) are fixed-point integers scaled by
//! `fixed::SCALE`.

pub mod ant;
pub mod fixed;
pub mod grid;
pub mod pheromone;
pub mod rng;
pub mod sim;
pub mod util;
