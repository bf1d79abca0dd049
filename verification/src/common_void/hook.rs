//! Hook bits: bits 16 to 31 of a plugin description.

use vstd::prelude::*;

verus! {

//                                      TBD------------- Filters--------- Hooks----------- Features--------
/// No hook.
pub const NONE: u64 = 0b0000000000000000_0000000000000000_0000000000000000_0000000000000000;

/// Called on every voice state update the bot receives.
pub const VOICE_STATE_UPDATE: u64 = 0b0000000000000000_0000000000000000_0000000000000001_0000000000000000;

/// Meant to be called for each plugin once all plugins have been loaded,
/// with a reference to that plugin.
pub const PLUGIN_LOAD: u64 = 0b0000000000000000_0000000000000000_0000000000000010_0000000000000000;

} // verus!
