//! A verified model of a Physarum-style ("slime mold") agent simulation.
//!
//! Thousands of point agents move across a toroidal two-dimensional field,
//! deposit trail intensity into a diffusing environment grid, and steer by
//! the trail strength they sense ahead of them.  Agent population and
//! environment field are each double-buffered: every tick one kernel reads
//! the buffer role selected by the tick's parity and writes the other role,
//! so that no storage region is ever read and written in the same tick.
//!
//! The crate proves the structural guarantees of that pipeline: buffer-role
//! disjointness, the parity rule for role selection, preservation of the
//! agent population, decay monotonicity of the trail field, and the resize
//! rules of the frame driver.  Trail intensity is carried in fixed-point
//! integer units (see [`params`]); the numeric shape of the kernels is a
//! swappable policy, their buffering discipline is not.

pub mod agents;
pub mod buffers;
pub mod compositor;
pub mod driver;
pub mod environment;
pub mod grid;
pub mod params;
mod rng;
pub mod scheduler;
