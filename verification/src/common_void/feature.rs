//! Feature bits: the lowest sixteen bits of a plugin description.

use vstd::prelude::*;

verus! {

//                                      TBD------------- Filters--------- Hooks----------- Features--------
/// No feature.
pub const NONE: u64 = 0b0000000000000000_0000000000000000_0000000000000000_0000000000000000;

/// The feature bit that every bundled plugin reports.
pub const TEST: u64 = 0b0000000000000000_0000000000000000_0000000000000000_0000000000000001;

} // verus!
