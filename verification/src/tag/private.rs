use vstd::prelude::*;

verus! {

/// Closes the set of field types: only this crate can implement it.
pub trait Sealed {

}

} // verus!
