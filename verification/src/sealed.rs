//! Keeps the family of residue kinds closed.
use vstd::prelude::*;

verus! {

/// Implemented for the residue kinds of this crate and for nothing else.
pub trait Sealed {

}

} // verus!
