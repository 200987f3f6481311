//! The seal on the keyboard backends.

use vstd::prelude::*;

verus! {

/// Marks the types that may be keyboard backends. Only this crate names
/// them.
pub trait Sealed {

}

impl Sealed for crate::win32::Innerput {

}

} // verus!
