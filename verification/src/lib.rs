//! Tiling and animation engine of a pulsing hexagon / heart screen saver.
//!
//! Every quantity is an integer. Dimensionless values (opacity, colour
//! channels, thresholds, sines and cosines) and angles are counted in
//! millionths, see [`units::ONE`]; lengths and coordinates are integers in
//! whatever sub-pixel unit the caller picks. The host program evaluates
//! sines and cosines, draws triangles and talks to the disk; everything it
//! has to decide is decided here.

pub mod color;
pub mod config;
pub mod geometry;
pub mod grid;
pub mod launch;
pub mod pulse;
pub mod random;
pub mod screensaver;
pub mod settings;
pub mod shape;
pub mod text;
pub mod units;
