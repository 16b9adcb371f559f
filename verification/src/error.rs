use vstd::prelude::*;

verus! {

/// The error returned when a binary operation is asked to combine two values
/// whose dimensions do not agree. A failed operation reports this before it
/// has mutated either operand.
#[derive(Clone, Copy, Debug, PartialEq, Eq, Structural)]
pub struct DimMismatch;

} // verus!
