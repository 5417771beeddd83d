//! Crate-private supertrait of [`crate::module::Module`].
use vstd::prelude::*;

verus! {

/// Marker implemented only inside this crate: other crates cannot add
/// prompt modules.
pub trait Sealed {}

} // verus!
