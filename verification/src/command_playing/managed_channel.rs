//! A voice channel that the bot created and deletes again once it is empty.

use std::collections::HashSet;
use vstd::prelude::*;

verus! {

/// A managed voice channel: its id, its name and the users known to be in it.
pub struct ManagedChannel {
    pub users: HashSet<u64>,
    pub id: u64,
    pub name: String,
}

impl ManagedChannel {
    /// A managed channel with no users yet.
    pub fn new(id: u64, name: String) -> (channel: ManagedChannel)
        ensures
            channel.users@ == Set::<u64>::empty(),
            channel.id == id,
            channel.name == name,
    {
        ManagedChannel { users: HashSet::new(), id: id, name: name }
    }
}

} // verus!
