//! A loaded plugin together with its name and its description bit mask.

use libloading::Library;
use vstd::prelude::*;

verus! {

/// A dynamic library opened by `libloading`. The handle is carried through
/// unchanged; nothing inside it is read by verified code.
#[verifier::external_type_specification]
#[verifier::external_body]
pub struct ExLibrary(Library);

/// A plugin as the plugins themselves see it: its library, its description
/// bit mask and its file name without extension.
pub struct Plugin {
    pub link: Library,
    pub description: u64,
    pub name: String,
}

impl Plugin {
    /// Records a loaded library under `name`. `described` is what the
    /// library's `describe` function returned, or `None` where the library
    /// exports no such function; the description is then empty.
    pub fn new(name: String, lib: Library, described: Option<u64>) -> (plugin: Plugin)
        ensures
            plugin.link == lib,
            plugin.name == name,
            plugin.description == (match described {
                Some(d) => d,
                None => 0,
            }),
    {
        let plugin_desc: u64 = match described {
            Some(d) => d,
            None => 0,
        };
        Plugin { link: lib, description: plugin_desc, name: name }
    }
}

} // verus!
