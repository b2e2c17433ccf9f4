//! Fixed-width numeric vectors of four lanes.

use vstd::prelude::*;

verus! {

/// A vector of four lanes. Lanes of single-precision floats are held as
/// their IEEE 754 bit patterns.
#[derive(Copy, Clone, Debug, PartialEq)]
pub enum SimdValue {
    F32x4([u32; 4]),
    I32x4([i32; 4]),
    U32x4([u32; 4]),
    /// Lane masks of a float comparison.
    Bool32fx4([bool; 4]),
    /// Lane masks of an integer comparison.
    Bool32ix4([bool; 4]),
}

} // verus!
