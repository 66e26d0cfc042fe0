//! What only this crate may implement.

use vstd::prelude::*;

verus! {

/// Implemented by the types that a sealed trait is closed over.
pub trait Sealed {

}

} // verus!
