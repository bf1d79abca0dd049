//! Filter bits: bits 32 to 47 of a plugin description.

use vstd::prelude::*;

verus! {

//                                      TBD------------- Filters--------- Hooks----------- Features--------
/// No filter.
pub const NONE: u64 = 0b0000000000000000_0000000000000000_0000000000000000_0000000000000000;

/// This filter gets called after the command is parsed from the message and
/// just before the plugin gets looked up and ran/loaded.
///
/// The filter is handed one argument, the command without its leading `!`,
/// and returns the command to look up in its place.
pub const BEFORE_PLUGIN_LOOKUP: u64 = 0b0000000000000000_0000000000000001_0000000000000000_0000000000000000;

} // verus!
