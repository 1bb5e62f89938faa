//! Conversion between loosely typed wire values and fixed-width numeric scalars.
use vstd::prelude::*;

pub mod numeral;
pub mod render;
pub mod value;
pub mod decimal;
pub mod integer;
pub mod laws;

verus! {

} // verus!
