//! False-colour ("thermal") rendering of brightness values: a fixed
//! piecewise-linear colour ramp sampled with 16-bit fixed-point
//! interpolation, plus the packing of colours into 32-bit words and bytes.
use vstd::prelude::*;

pub mod buffer;
pub mod color;
pub mod gradient;
pub mod ramp;

verus! {

} // verus!
