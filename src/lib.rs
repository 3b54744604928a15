//! Structure of the circular-law demonstration: which matrix entries the
//! interpolation between a decoupled and a full random matrix scales, how
//! a square matrix is resized, how the highlighted eigenvalue is followed
//! from frame to frame, and the interpolation parameter of each frame.
//! Matrices are held in column-major order; the floating-point values
//! themselves are handled by the caller.
use vstd::prelude::*;

pub mod frames;
pub mod interpolate;
pub mod layout;
pub mod tracker;

verus! {

} // verus!
