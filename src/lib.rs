//! A field of particles steered by Perlin noise, with a lattice of flow
//! sticks that follow the two nearest particles.
//!
//! Lengths are integers in hundredths of a device pixel, angles are
//! integers in thousandths of a degree, and noise coordinates and
//! directions are integers in millionths.
pub mod arith;
pub mod layout;
pub mod particles;
pub mod flow;
pub mod color;
pub mod canvas;
pub mod config;
pub mod debounce;
