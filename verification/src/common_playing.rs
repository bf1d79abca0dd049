//! The state shared by the `playing` and `allplaying` commands: the voice
//! channels that the bot manages and the voice channel each user was last
//! seen in, kept up to date by the voice state update hook.

use crate::command_playing::managed_channel::ManagedChannel;
use crate::common_void::feature;
use crate::common_void::hook;
use std::collections::HashMap;
use vstd::prelude::*;
use vstd::std_specs::iter::IteratorSpec;

verus! {

broadcast use vstd::std_specs::hash::group_hash_axioms;

/// Plugin feature usage description: the shared playing plugin uses the
/// voice state update hook.
pub fn describe() -> (d: u64)
    ensures
        d == feature::TEST | hook::VOICE_STATE_UPDATE,
{
    feature::TEST | hook::VOICE_STATE_UPDATE
}

/// The voice channel each tracked user was last seen in; 0 stands for no
/// channel.
pub struct VoiceStates {
    map: HashMap<u64, u64>,
}

impl View for VoiceStates {
    type V = Map<u64, u64>;

    closed spec fn view(&self) -> Map<u64, u64> {
        self.map@
    }
}

impl VoiceStates {
    /// No user tracked.
    pub fn new() -> (states: VoiceStates)
        ensures
            states@ == Map::<u64, u64>::empty(),
    {
        VoiceStates { map: HashMap::new() }
    }
}

/// The channel a user was last seen in, or 300 (user state unknown) for a
/// user that is not tracked.
pub open spec fn user_channel(states: Map<u64, u64>, user_id: u64) -> Result<u64, u16> {
    if states.contains_key(user_id) {
        Ok(states[user_id])
    } else {
        Err(300)
    }
}

/// The users last seen in a channel.
pub open spec fn users_in(states: Map<u64, u64>, channel_id: u64) -> Set<u64> {
    states.dom().filter(|u: u64| states[u] == channel_id)
}

/// The channel that a user was last seen in.
pub fn get_user_channel_id(states: &VoiceStates, user_id: u64) -> (channel: Result<u64, u16>)
    ensures
        channel == user_channel(states@, user_id),
{
    match states.map.get(&user_id) {
        Some(channel_id) => Ok(*channel_id),
        None => Err(300),
    }
}

/// The users last seen in a channel, each once, in no particular order.
pub fn get_users_in_channel(states: &VoiceStates, channel_id: u64) -> (users: Vec<u64>)
    ensures
        users@.no_duplicates(),
        users@.to_set() == users_in(states@, channel_id),
{
    let mut users: Vec<u64> = Vec::new();
    let ghost m = states@;
    let ghost all = vstd::std_specs::hash::spec_keys_iter(&states.map).remaining().unref();
    let ghost mut count: int = 0;
    for k in it: states.map.keys()
        invariant
            m == states@,
            all == it.seq().unref(),
            count == it.index(),
            it.seq().unref().no_duplicates(),
            it.seq().unref().to_set() == m.dom(),
            users@.no_duplicates(),
            forall|u: u64|
                users@.contains(u) <==> (exists|j: int|
                    0 <= j < it.index() && it.seq().unref()[j] == u && m.contains_key(u)
                        && m[u] == channel_id),
    {
        let ghost keys = it.seq().unref();
        let ghost at = it.index();
        assert(keys[at] == *k);
        assert(keys.contains(*k));
        assert(m.dom().contains(*k));
        let v = states.map.get(k).unwrap();
        let ghost before = users@;
        if *v == channel_id {
            assert(!before.contains(*k)) by {
                if before.contains(*k) {
                    let j0 = choose|j: int|
                        0 <= j < at && keys[j] == *k && m.contains_key(*k) && m[*k]
                            == channel_id;
                    assert(keys[j0] == keys[at]);
                }
            }
            users.push(*k);
        }
        proof {
            count = count + 1;
        }
        assert forall|u: u64|
            users@.contains(u) <==> (exists|j: int|
                0 <= j < at + 1 && keys[j] == u && m.contains_key(u) && m[u]
                    == channel_id) by {
            if users@.contains(u) {
                let i0 = choose|i: int| 0 <= i < users@.len() && users@[i] == u;
                if i0 < before.len() {
                    assert(before[i0] == u);
                    assert(before.contains(u));
                    let j0 = choose|j: int|
                        0 <= j < at && keys[j] == u && m.contains_key(u) && m[u] == channel_id;
                    assert(0 <= j0 < at + 1 && keys[j0] == u);
                } else {
                    assert(u == *k && *v == channel_id);
                    assert(keys[at] == u);
                }
            }
            if (exists|j: int|
                0 <= j < at + 1 && keys[j] == u && m.contains_key(u) && m[u] == channel_id) {
                let j0 = choose|j: int|
                    0 <= j < at + 1 && keys[j] == u && m.contains_key(u) && m[u] == channel_id;
                if j0 < at {
                    assert(before.contains(u));
                    let i0 = choose|i: int| 0 <= i < before.len() && before[i] == u;
                    assert(users@[i0] == u);
                } else {
                    assert(u == *k);
                    assert(users@[users@.len() - 1] == u);
                }
            }
        }
    }
    assert(count == all.len());
    let ghost keys = all;
    assert forall|u: u64| users@.to_set().contains(u) <==> users_in(m, channel_id).contains(u) by {
        if m.dom().contains(u) && m[u] == channel_id {
            assert(keys.to_set().contains(u));
            assert(keys.contains(u));
            let j0 = choose|j: int| 0 <= j < keys.len() && keys[j] == u;
            assert(users@.contains(u));
        }
    }
    assert(users@.to_set() =~= users_in(m, channel_id));
    users
}

/// What the chat service answered when asked for the channel a user is in.
pub enum ChannelInfo {
    /// A public (server) channel of the given server.
    Public { server_id: u64 },
    /// A channel that belongs to no server.
    NotPublic,
    /// The channel could not be fetched.
    Unavailable,
}

/// The server of a channel, from what the chat service answered: 402 (user
/// channel not accessible) for a channel of no server, 401 (could not get
/// channel info) when it could not be fetched.
pub open spec fn server_from_info(info: ChannelInfo) -> Result<u64, u16> {
    match info {
        ChannelInfo::Public { server_id } => Ok(server_id),
        ChannelInfo::NotPublic => Err(402),
        ChannelInfo::Unavailable => Err(401),
    }
}

/// The server that a user is in: 300 (user state unknown) for a user that
/// is not tracked, otherwise the server of the user's channel as `info`
/// (what the chat service answered for that channel) gives it.
pub fn get_user_server_id(states: &VoiceStates, user_id: u64, info: ChannelInfo) -> (server: Result<
    u64,
    u16,
>)
    ensures
        server == (match user_channel(states@, user_id) {
            Ok(_) => server_from_info(info),
            Err(code) => Err(code),
        }),
{
    match states.map.get(&user_id) {
        Some(_channel_id) => match info {
            ChannelInfo::Public { server_id } => Ok(server_id),
            ChannelInfo::NotPublic => Err(402),
            ChannelInfo::Unavailable => Err(401),
        },
        None => Err(300),
    }
}

/// The managed channels, by channel id.
pub struct ManagedChannels {
    map: HashMap<u64, ManagedChannel>,
}

/// What is known of a managed channel: its name and the users in it.
pub open spec fn channel_model(c: ManagedChannel) -> (Seq<char>, Set<u64>) {
    (c.name@, c.users@)
}

impl View for ManagedChannels {
    type V = Map<u64, (Seq<char>, Set<u64>)>;

    closed spec fn view(&self) -> Map<u64, (Seq<char>, Set<u64>)> {
        self.map@.map_values(|c: ManagedChannel| channel_model(c))
    }
}

/// No two managed channels share a name.
pub open spec fn names_unique(channels: Map<u64, (Seq<char>, Set<u64>)>) -> bool {
    forall|a: u64, b: u64|
        channels.contains_key(a) && channels.contains_key(b) && #[trigger] channels[a].0
            == #[trigger] channels[b].0 ==> a == b
}

/// The managed channel named `name`, if there is one.
pub open spec fn channel_named(channels: Map<u64, (Seq<char>, Set<u64>)>, name: Seq<char>) -> Option<
    u64,
> {
    if exists|k: u64| channels.contains_key(k) && #[trigger] channels[k].0 == name {
        Some(choose|k: u64| channels.contains_key(k) && #[trigger] channels[k].0 == name)
    } else {
        None
    }
}

impl ManagedChannels {
    /// The table is consistent: each channel is filed under its own id, and
    /// no two channels share a name.
    pub closed spec fn wf(&self) -> bool {
        &&& forall|k: u64| #[trigger] self.map@.contains_key(k) ==> self.map@[k].id == k
        &&& names_unique(self@)
    }

    /// No managed channels.
    pub fn new() -> (channels: ManagedChannels)
        ensures
            channels.wf(),
            channels@ == Map::<u64, (Seq<char>, Set<u64>)>::empty(),
    {
        let channels = ManagedChannels { map: HashMap::new() };
        assert(channels@ =~= Map::<u64, (Seq<char>, Set<u64>)>::empty());
        channels
    }

    /// In a consistent table no two channels share a name.
    pub proof fn lemma_names_unique(&self)
        requires
            self.wf(),
        ensures
            names_unique(self@),
    {
    }

    /// The id of the managed channel named `name`, if there is one.
    pub fn find_by_name(&self, name: &String) -> (found: Option<u64>)
        requires
            self.wf(),
        ensures
            found == channel_named(self@, name@),
    {
        let ghost m = self@;
        let ghost all = vstd::std_specs::hash::spec_keys_iter(&self.map).remaining().unref();
        for k in it: self.map.keys()
            invariant
                m == self@,
                self.wf(),
                all == it.seq().unref(),
                all.to_set() == self.map@.dom(),
                forall|j: int| 0 <= j < it.index() ==> m[#[trigger] all[j]].0 != name@,
        {
            let ghost at = it.index();
            assert(all[at] == *k);
            assert(all.contains(*k));
            let channel = self.map.get(k).unwrap();
            if channel.name == *name {
                assert(m.contains_key(*k) && m[*k].0 == name@);
                return Some(channel.id);
            }
        }
        assert forall|k: u64| m.contains_key(k) implies #[trigger] m[k].0 != name@ by {
            assert(all.to_set().contains(k));
            assert(all.contains(k));
            let j0 = choose|j: int| 0 <= j < all.len() && all[j] == k;
            assert(m[all[j0]].0 != name@);
        }
        None
    }
}

/// What creating a channel came to, where no managed channel of the wanted
/// name existed: the user's server could not be found, or the chat service
/// created a voice channel, created one of the wrong type, or failed.
pub enum ChannelCreation {
    ServerUnknown,
    Created(u64),
    NotPublic,
    Failed,
}

/// The result of asking for a managed channel named `name`: the existing
/// managed channel of that name, else the channel that was created, else the
/// error: 450 (the user's server is unknown), 403 (wrong channel type
/// created), 400 (could not create channel).
pub open spec fn create_result(
    channels: Map<u64, (Seq<char>, Set<u64>)>,
    name: Seq<char>,
    creation: ChannelCreation,
) -> Result<u64, u16> {
    match channel_named(channels, name) {
        Some(id) => Ok(id),
        None => match creation {
            ChannelCreation::ServerUnknown => Err(450),
            ChannelCreation::Created(id) => Ok(id),
            ChannelCreation::NotPublic => Err(403),
            ChannelCreation::Failed => Err(400),
        },
    }
}

/// The managed channels after asking for a channel named `name`: a created
/// channel is managed from then on, with no users yet.
pub open spec fn channels_after_create(
    channels: Map<u64, (Seq<char>, Set<u64>)>,
    name: Seq<char>,
    creation: ChannelCreation,
) -> Map<u64, (Seq<char>, Set<u64>)> {
    match channel_named(channels, name) {
        Some(_) => channels,
        None => match creation {
            ChannelCreation::Created(id) => channels.insert(id, (name, Set::empty())),
            _ => channels,
        },
    }
}

/// Returns the managed channel named `name` where one exists; otherwise
/// records the channel that was created for it (`creation` says how the
/// creation went, and is not looked at where the channel exists).
pub fn create_managed_channel(
    channels: &mut ManagedChannels,
    name: String,
    creation: ChannelCreation,
) -> (result: Result<u64, u16>)
    requires
        old(channels).wf(),
    ensures
        final(channels).wf(),
        result == create_result(old(channels)@, name@, creation),
        final(channels)@ == channels_after_create(old(channels)@, name@, creation),
        forall|k: u64|
            old(channels)@.contains_key(k) && #[trigger] old(channels)@[k].0 == name@ ==> result
                == Ok::<u64, u16>(k) && final(channels)@ == old(channels)@,
        forall|k: u64|
            old(channels)@.contains_key(k) && creation != ChannelCreation::Created(k) ==> final(channels)@.contains_key(k) && #[trigger] final(channels)@[k] == old(channels)@[k],
        result matches Ok(id) ==> final(channels)@.contains_key(id) && final(channels)@[id].0
            == name@,
{
    proof {
        assert forall|k: u64|
            old(channels)@.contains_key(k) && #[trigger] old(channels)@[k].0 == name@ implies create_result(old(channels)@, name@, creation)
                == Ok::<u64, u16>(k) && channels_after_create(old(channels)@, name@, creation) == old(channels)@ by {
            old(channels).lemma_names_unique();
            lemma_found_channel_changes_nothing(old(channels)@, name@, creation, k);
        }
        assert forall|k: u64|
            old(channels)@.contains_key(k) && creation != ChannelCreation::Created(k) implies channels_after_create(old(channels)@, name@, creation).contains_key(k) && #[trigger] channels_after_create(old(channels)@, name@, creation)[k] == old(channels)@[k] by {
            lemma_create_keeps_other_channels(old(channels)@, name@, creation, k);
        }
        lemma_create_keeps_other_channels(old(channels)@, name@, creation, 0);
    }
    match channels.find_by_name(&name) {
        Some(id) => Ok(id),
        None => match creation {
            ChannelCreation::ServerUnknown => Err(450),
            ChannelCreation::Created(id) => {
                let ghost before = channels@;
                let ghost n = name@;
                let channel = ManagedChannel::new(id, name);
                channels.map.insert(id, channel);
                assert(channels@ =~= before.insert(id, (n, Set::empty())));
                proof {
                    lemma_insert_fresh_name(before, id, n);
                }
                Ok(id)
            },
            ChannelCreation::NotPublic => Err(403),
            ChannelCreation::Failed => Err(400),
        },
    }
}

/// The channel a voice state update puts the user in: 0 when the user left
/// voice altogether.
pub open spec fn joined_channel(channel_id: Option<u64>) -> u64 {
    match channel_id {
        Some(id) => id,
        None => 0,
    }
}

/// The channel a tracked user moves out of with a voice state update, if the
/// user changes channels (other voice state changes, such as muting, move
/// nobody).
pub open spec fn left_channel(states: Map<u64, u64>, user_id: u64, joined: u64) -> Option<u64> {
    if states.contains_key(user_id) && states[user_id] != joined {
        Some(states[user_id])
    } else {
        None
    }
}

/// The managed channel to delete after a voice state update: the managed
/// channel that the user moved out of, when fewer than two users were known
/// in it.
pub open spec fn channel_to_delete(
    channels: Map<u64, (Seq<char>, Set<u64>)>,
    states: Map<u64, u64>,
    user_id: u64,
    joined: u64,
) -> Option<u64> {
    match left_channel(states, user_id, joined) {
        Some(cur) => if channels.contains_key(cur) && channels[cur].1.len() < 2 {
            Some(cur)
        } else {
            None
        },
        None => None,
    }
}

/// The managed channels after a voice state update: the user leaves the
/// users of the managed channel it moved out of (unless that channel is to
/// be deleted) and joins the users of the managed channel it moved into.
pub open spec fn channels_after_update(
    channels: Map<u64, (Seq<char>, Set<u64>)>,
    states: Map<u64, u64>,
    user_id: u64,
    joined: u64,
) -> Map<u64, (Seq<char>, Set<u64>)> {
    let left = match left_channel(states, user_id, joined) {
        Some(cur) => if channels.contains_key(cur) && channels[cur].1.len() >= 2 {
            channels.insert(cur, (channels[cur].0, channels[cur].1.remove(user_id)))
        } else {
            channels
        },
        None => channels,
    };
    if left.contains_key(joined) {
        left.insert(joined, (left[joined].0, left[joined].1.insert(user_id)))
    } else {
        left
    }
}

proof fn lemma_rename_free_update(
    before: Map<u64, (Seq<char>, Set<u64>)>,
    k: u64,
    users: Set<u64>,
)
    requires
        names_unique(before),
        before.contains_key(k),
    ensures
        names_unique(before.insert(k, (before[k].0, users))),
{
    let after = before.insert(k, (before[k].0, users));
    assert forall|a: u64, b: u64|
        after.contains_key(a) && after.contains_key(b) && #[trigger] after[a].0
            == #[trigger] after[b].0 implies a == b by {
        assert(after[a].0 == before[a].0);
        assert(after[b].0 == before[b].0);
    }
}

/// The voice state update hook: tracks the channel the user is in now, keeps
/// the users of the managed channels up to date, and returns the managed
/// channel that the user left behind with no one else in it, which is to be
/// deleted.
pub fn hook_voice_state_update(
    channels: &mut ManagedChannels,
    states: &mut VoiceStates,
    user_id: u64,
    channel_id: Option<u64>,
) -> (delete: Option<u64>)
    requires
        old(channels).wf(),
    ensures
        final(channels).wf(),
        delete == channel_to_delete(old(channels)@, old(states)@, user_id, joined_channel(channel_id)),
        final(channels)@ == channels_after_update(
            old(channels)@,
            old(states)@,
            user_id,
            joined_channel(channel_id),
        ),
        final(states)@ == old(states)@.insert(user_id, joined_channel(channel_id)),
        old(states)@.contains_key(user_id) && old(states)@[user_id] == joined_channel(channel_id)
            && (old(channels)@.contains_key(joined_channel(channel_id)) ==> old(channels)@[joined_channel(channel_id)].1.contains(user_id)) ==> delete is None && final(channels)@ == old(channels)@,
        forall|k: u64, v: u64|
            v != user_id && old(channels)@.contains_key(k) ==> final(channels)@.contains_key(k)
                && final(channels)@[k].0 == old(channels)@[k].0 && (#[trigger] final(channels)@[k].1.contains(v) == old(channels)@[k].1.contains(v)),
        old(channels)@.contains_key(joined_channel(channel_id)) ==> final(channels)@[joined_channel(channel_id)].1.contains(user_id),
{
    proof {
        let j = joined_channel(channel_id);
        if old(states)@.contains_key(user_id) && old(states)@[user_id] == j && (old(channels)@.contains_key(j) ==> old(channels)@[j].1.contains(user_id)) {
            lemma_same_channel_update_changes_nothing(old(channels)@, old(states)@, user_id, j);
        }
        assert forall|k: u64, v: u64|
            v != user_id && old(channels)@.contains_key(k) implies channels_after_update(old(channels)@, old(states)@, user_id, j).contains_key(k)
                && channels_after_update(old(channels)@, old(states)@, user_id, j)[k].0 == old(channels)@[k].0 && (#[trigger] channels_after_update(old(channels)@, old(states)@, user_id, j)[k].1.contains(v) == old(channels)@[k].1.contains(v)) by {
            lemma_update_keeps_other_users(old(channels)@, old(states)@, user_id, j, k, v);
        }
    }
    let new_channel_id: u64 = match channel_id {
        Some(id) => id,
        None => 0,
    };
    let mut delete: Option<u64> = None;
    let ghost c0 = channels@;
    match states.map.get(&user_id) {
        Some(cur) => {
            let cur: u64 = *cur;
            if new_channel_id != cur {
                if channels.map.contains_key(&cur) {
                    let mut channel = channels.map.remove(&cur).unwrap();
                    if channel.users.len() < 2 {
                        delete = Some(cur);
                    } else {
                        channel.users.remove(&user_id);
                    }
                    channels.map.insert(cur, channel);
                    assert(channels@ =~= c0.insert(cur, (c0[cur].0, channels@[cur].1)));
                    proof {
                        lemma_rename_free_update(c0, cur, channels@[cur].1);
                    }
                }
            }
        },
        None => {},
    }
    let ghost c1 = channels@;
    assert(c1 =~= match left_channel(old(states)@, user_id, new_channel_id) {
        Some(cur) => if c0.contains_key(cur) && c0[cur].1.len() >= 2 {
            c0.insert(cur, (c0[cur].0, c0[cur].1.remove(user_id)))
        } else {
            c0
        },
        None => c0,
    });
    states.map.insert(user_id, new_channel_id);
    if channels.map.contains_key(&new_channel_id) {
        let mut channel = channels.map.remove(&new_channel_id).unwrap();
        channel.users.insert(user_id);
        channels.map.insert(new_channel_id, channel);
        assert(channels@ =~= c1.insert(
            new_channel_id,
            (c1[new_channel_id].0, c1[new_channel_id].1.insert(user_id)),
        ));
        proof {
            lemma_rename_free_update(c1, new_channel_id, channels@[new_channel_id].1);
        }
    }
    delete
}

/// Forgets a managed channel once the chat service has deleted it.
pub fn remove_channel(channels: &mut ManagedChannels, channel_id: u64)
    requires
        old(channels).wf(),
    ensures
        final(channels).wf(),
        final(channels)@ == old(channels)@.remove(channel_id),
{
    let ghost before = channels@;
    channels.map.remove(&channel_id);
    assert(channels@ =~= before.remove(channel_id));
    assert forall|a: u64, b: u64|
        channels@.contains_key(a) && channels@.contains_key(b) && #[trigger] channels@[a].0
            == #[trigger] channels@[b].0 implies a == b by {
        assert(before[a].0 == before[b].0);
    }
}

/// After a voice state update the user is tracked in the channel it moved
/// to (0 when it left voice).
pub proof fn lemma_update_tracks_user(states: Map<u64, u64>, user_id: u64, channel_id: Option<u64>)
    ensures
        user_channel(states.insert(user_id, joined_channel(channel_id)), user_id) == Ok::<
            u64,
            u16,
        >(joined_channel(channel_id)),
{
}

/// After a voice state update the user is listed among the users of the
/// channel it moved to, and of no other channel; every other user stays
/// listed where it was.
pub proof fn lemma_update_lists_user(
    states: Map<u64, u64>,
    user_id: u64,
    channel_id: Option<u64>,
    other_channel: u64,
    other_user: u64,
)
    requires
        other_channel != joined_channel(channel_id),
        other_user != user_id,
    ensures
        users_in(states.insert(user_id, joined_channel(channel_id)), joined_channel(
            channel_id,
        )).contains(user_id),
        !users_in(states.insert(user_id, joined_channel(channel_id)), other_channel).contains(
            user_id,
        ),
        users_in(states.insert(user_id, joined_channel(channel_id)), other_channel).contains(
            other_user,
        ) == users_in(states, other_channel).contains(other_user),
{
}

/// A user that moves into a managed channel is among its users afterwards;
/// the channels that stay managed keep their names.
pub proof fn lemma_update_joins_managed_channel(
    channels: Map<u64, (Seq<char>, Set<u64>)>,
    states: Map<u64, u64>,
    user_id: u64,
    joined: u64,
    k: u64,
)
    requires
        channels.contains_key(k),
    ensures
        channels_after_update(channels, states, user_id, joined).contains_key(k),
        channels_after_update(channels, states, user_id, joined)[k].0 == channels[k].0,
        k == joined ==> channels_after_update(channels, states, user_id, joined)[k].1.contains(
            user_id,
        ),
{
}

/// When the last user leaves a managed channel, the channel is to be
/// deleted, and once it is deleted it is no longer managed.
pub proof fn lemma_last_user_leaving_deletes_channel(
    channels: Map<u64, (Seq<char>, Set<u64>)>,
    states: Map<u64, u64>,
    user_id: u64,
    joined: u64,
)
    requires
        states.contains_key(user_id),
        states[user_id] != joined,
        channels.contains_key(states[user_id]),
        channels[states[user_id]].1 == Set::<u64>::empty().insert(user_id),
    ensures
        channel_to_delete(channels, states, user_id, joined) == Some(states[user_id]),
        !channels_after_update(channels, states, user_id, joined).remove(
            states[user_id],
        ).contains_key(states[user_id]),
{
    let cur = states[user_id];
    assert(Set::<u64>::empty().insert(user_id).len() == 1);
}

/// A managed channel that a user leaves while another user is still in it
/// is not deleted, and the other user stays among its users.
pub proof fn lemma_occupied_channel_stays(
    channels: Map<u64, (Seq<char>, Set<u64>)>,
    states: Map<u64, u64>,
    user_id: u64,
    joined: u64,
    other_user: u64,
)
    requires
        states.contains_key(user_id),
        states[user_id] != joined,
        channels.contains_key(states[user_id]),
        channels[states[user_id]].1.finite(),
        channels[states[user_id]].1.contains(user_id),
        channels[states[user_id]].1.contains(other_user),
        other_user != user_id,
    ensures
        channel_to_delete(channels, states, user_id, joined) is None,
        channels_after_update(channels, states, user_id, joined).contains_key(states[user_id]),
        channels_after_update(channels, states, user_id, joined)[states[user_id]].1.contains(
            other_user,
        ),
        !channels_after_update(channels, states, user_id, joined)[states[user_id]].1.contains(
            user_id,
        ),
{
    let users = channels[states[user_id]].1;
    let rest = users.remove(user_id);
    assert(rest.contains(other_user));
    assert(rest.len() != 0) by {
        if rest.len() == 0 {
            assert(rest =~= Set::<u64>::empty());
        }
    }
    assert(users.len() == rest.len() + 1);
}

/// A consistent table of managed channels stays consistent when a channel
/// named `name` is added under `id`, provided no channel had that name.
proof fn lemma_insert_fresh_name(
    channels: Map<u64, (Seq<char>, Set<u64>)>,
    id: u64,
    name: Seq<char>,
)
    requires
        names_unique(channels),
        channel_named(channels, name) is None,
    ensures
        names_unique(channels.insert(id, (name, Set::empty()))),
{
    let after = channels.insert(id, (name, Set::<u64>::empty()));
    assert forall|a: u64, b: u64|
        after.contains_key(a) && after.contains_key(b) && #[trigger] after[a].0
            == #[trigger] after[b].0 implies a == b by {
        if a != id && b != id {
            assert(channels[a].0 == channels[b].0);
        } else if a != id {
            assert(channels.contains_key(a) && channels[a].0 == name);
        } else if b != id {
            assert(channels.contains_key(b) && channels[b].0 == name);
        }
    }
}

/// Asking again for a managed channel of a name that was just found or
/// created gives the same channel, and creates nothing.
pub proof fn lemma_create_is_idempotent(
    channels: Map<u64, (Seq<char>, Set<u64>)>,
    name: Seq<char>,
    first: ChannelCreation,
    second: ChannelCreation,
)
    requires
        names_unique(channels),
        create_result(channels, name, first) is Ok,
    ensures
        create_result(channels_after_create(channels, name, first), name, second) == create_result(
            channels,
            name,
            first,
        ),
        channels_after_create(channels_after_create(channels, name, first), name, second)
            == channels_after_create(channels, name, first),
{
    if channel_named(channels, name) is None {
        if let ChannelCreation::Created(id) = first {
            let after = channels.insert(id, (name, Set::<u64>::empty()));
            lemma_insert_fresh_name(channels, id, name);
            assert(after.contains_key(id) && after[id].0 == name);
            let k = choose|k: u64| after.contains_key(k) && #[trigger] after[k].0 == name;
            assert(after[k].0 == after[id].0);
        }
    }
}

/// A voice state update that leaves the user in the channel it is already
/// tracked in (a mute, a deafen, ...) deletes nothing and changes no managed
/// channel, provided the user is listed in that channel where it is managed.
pub proof fn lemma_same_channel_update_changes_nothing(
    channels: Map<u64, (Seq<char>, Set<u64>)>,
    states: Map<u64, u64>,
    user_id: u64,
    joined: u64,
)
    requires
        states.contains_key(user_id),
        states[user_id] == joined,
        channels.contains_key(joined) ==> channels[joined].1.contains(user_id),
    ensures
        channel_to_delete(channels, states, user_id, joined) is None,
        channels_after_update(channels, states, user_id, joined) == channels,
{
    if channels.contains_key(joined) {
        assert(channels[joined].1.insert(user_id) =~= channels[joined].1);
        assert(channels.insert(joined, (channels[joined].0, channels[joined].1.insert(user_id)))
            =~= channels);
    }
}

/// A managed channel is to be deleted exactly when the user moved out of it
/// into another channel while fewer than two users were known in it.
pub proof fn lemma_delete_only_when_left_behind(
    channels: Map<u64, (Seq<char>, Set<u64>)>,
    states: Map<u64, u64>,
    user_id: u64,
    joined: u64,
    k: u64,
)
    ensures
        (channel_to_delete(channels, states, user_id, joined) == Some(k)) <==> (
        states.contains_key(user_id) && states[user_id] == k && k != joined
            && channels.contains_key(k) && channels[k].1.len() < 2),
{
}

/// A voice state update of one user leaves every other user listed exactly
/// where it was, keeps the same channels managed under the same names, and
/// moves the user itself: it joins the users of the managed channel it moved
/// into, leaves those of the channel it moved out of (unless that channel is
/// to be deleted), and stays as it was everywhere else.
pub proof fn lemma_update_keeps_other_users(
    channels: Map<u64, (Seq<char>, Set<u64>)>,
    states: Map<u64, u64>,
    user_id: u64,
    joined: u64,
    k: u64,
    other_user: u64,
)
    requires
        other_user != user_id,
    ensures
        channels_after_update(channels, states, user_id, joined).contains_key(k)
            == channels.contains_key(k),
        channels.contains_key(k) ==> {
            let after = channels_after_update(channels, states, user_id, joined);
            &&& after[k].0 == channels[k].0
            &&& after[k].1.contains(other_user) == channels[k].1.contains(other_user)
            &&& k == joined ==> after[k].1.contains(user_id)
            &&& k != joined && states.contains_key(user_id) && states[user_id] == k
                && channels[k].1.len() >= 2 ==> !after[k].1.contains(user_id)
            &&& k != joined && !(states.contains_key(user_id) && states[user_id] == k)
                ==> after[k].1.contains(user_id) == channels[k].1.contains(user_id)
            &&& k != joined && states.contains_key(user_id) && states[user_id] == k
                && channels[k].1.len() < 2 ==> after[k].1 == channels[k].1
        },
{
}

/// Asking for a channel name that a managed channel already has answers with
/// that channel and changes no managed channel, whatever the creation says.
pub proof fn lemma_found_channel_changes_nothing(
    channels: Map<u64, (Seq<char>, Set<u64>)>,
    name: Seq<char>,
    creation: ChannelCreation,
    k: u64,
)
    requires
        names_unique(channels),
        channels.contains_key(k),
        channels[k].0 == name,
    ensures
        create_result(channels, name, creation) == Ok::<u64, u16>(k),
        channels_after_create(channels, name, creation) == channels,
{
    let c = choose|c: u64| channels.contains_key(c) && #[trigger] channels[c].0 == name;
    assert(channels[c].0 == channels[k].0);
}

/// Asking for a channel keeps every managed channel as it was, except the
/// one filed under the id of a newly created channel; a successful answer is
/// a managed channel of the asked name.
pub proof fn lemma_create_keeps_other_channels(
    channels: Map<u64, (Seq<char>, Set<u64>)>,
    name: Seq<char>,
    creation: ChannelCreation,
    k: u64,
)
    ensures
        channels.contains_key(k) && creation != ChannelCreation::Created(k) ==> {
            &&& channels_after_create(channels, name, creation).contains_key(k)
            &&& channels_after_create(channels, name, creation)[k] == channels[k]
        },
        create_result(channels, name, creation) matches Ok(id) ==> {
            &&& channels_after_create(channels, name, creation).contains_key(id)
            &&& channels_after_create(channels, name, creation)[id].0 == name
        },
{
    if channel_named(channels, name) is Some {
        let c = choose|c: u64| channels.contains_key(c) && #[trigger] channels[c].0 == name;
    }
}

} // verus!
