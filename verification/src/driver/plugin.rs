//! A loaded plugin as the driver keeps it.

use crate::common_void::filter;
use crate::common_void::hook;
use libloading::Library;
use vstd::prelude::*;

verus! {

/// A plugin library and the bit mask of features, hooks and filters that its
/// `describe` function reported.
pub struct Plugin {
    pub link: Library,
    pub description: u64,
}

impl Plugin {
    /// Records a loaded library. `described` is what the library's
    /// `describe` function returned, or `None` where the library exports no
    /// such function; the description is then empty.
    pub fn new(lib: Library, described: Option<u64>) -> (plugin: Plugin)
        ensures
            plugin.link == lib,
            plugin.description == (match described {
                Some(d) => d,
                None => 0,
            }),
    {
        let plugin_desc: u64 = match described {
            Some(d) => d,
            None => 0,
        };
        Plugin { link: lib, description: plugin_desc }
    }

    /// Whether the driver hands each command to this plugin's
    /// `filter_before_plugin_lookup` before looking the command up.
    pub fn filters_before_plugin_lookup(&self) -> (b: bool)
        ensures
            b == (self.description & filter::BEFORE_PLUGIN_LOOKUP != 0),
    {
        self.description & filter::BEFORE_PLUGIN_LOOKUP != 0
    }

    /// Whether the driver calls this plugin's `hook_voice_state_update` on
    /// each voice state update.
    pub fn hooks_voice_state_update(&self) -> (b: bool)
        ensures
            b == (self.description & hook::VOICE_STATE_UPDATE != 0),
    {
        self.description & hook::VOICE_STATE_UPDATE != 0
    }
}

} // verus!
