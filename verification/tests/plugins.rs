use voidgamebot::command_alias::{self, Aliases};
use voidgamebot::command_allplaying::{self, AllPlayingStep};
use voidgamebot::command_man::{self, plugin_command_name, Manuals};
use voidgamebot::command_playing::managed_channel::ManagedChannel;
use voidgamebot::command_playing::{self, PlayingStep};
use voidgamebot::common_playing::{
    self, create_managed_channel, get_user_channel_id, get_user_server_id, get_users_in_channel,
    hook_voice_state_update, remove_channel, ChannelCreation, ChannelInfo, ManagedChannels,
    VoiceStates,
};
use voidgamebot::common_void::plugin::Plugin;
use voidgamebot::common_void::{feature, filter, hook};
use voidgamebot::driver::plugin_key;

fn words(ws: &[&str]) -> Vec<String> {
    ws.iter().map(|w| w.to_string()).collect()
}

fn open_libc() -> libloading::Library {
    libloading::Library::new("libc.so.6").unwrap()
}

#[test]
fn describe_masks() {
    assert_eq!(command_alias::describe(), feature::TEST | filter::BEFORE_PLUGIN_LOOKUP);
    assert_eq!(command_man::describe(), feature::TEST | hook::PLUGIN_LOAD);
    assert_eq!(common_playing::describe(), feature::TEST | hook::VOICE_STATE_UPDATE);
    assert_eq!(command_playing::describe(), feature::TEST);
    assert_eq!(command_allplaying::describe(), feature::TEST);
}

#[test]
fn alias_needs_two_arguments() {
    let mut aliases = Aliases::new();
    assert_eq!(command_alias::main(&mut aliases, words(&["pl"])), 100);
    assert_eq!(command_alias::main(&mut aliases, words(&[])), 100);
    assert_eq!(command_alias::filter_before_plugin_lookup(&aliases, "pl".to_string()), "pl");
}

#[test]
fn alias_is_resolved_before_lookup() {
    let mut aliases = Aliases::new();
    assert_eq!(command_alias::main(&mut aliases, words(&["pl", "playing", "extra"])), 0);
    assert_eq!(command_alias::filter_before_plugin_lookup(&aliases, "pl".to_string()), "playing");
    assert_eq!(command_alias::filter_before_plugin_lookup(&aliases, "ping".to_string()), "ping");
}

#[test]
fn later_alias_replaces_earlier_and_aliases_do_not_chain() {
    let mut aliases = Aliases::new();
    assert_eq!(command_alias::main(&mut aliases, words(&["a", "b"])), 0);
    assert_eq!(command_alias::main(&mut aliases, words(&["b", "c"])), 0);
    assert_eq!(command_alias::filter_before_plugin_lookup(&aliases, "a".to_string()), "b");
    assert_eq!(command_alias::main(&mut aliases, words(&["a", "d"])), 0);
    assert_eq!(command_alias::filter_before_plugin_lookup(&aliases, "a".to_string()), "d");
    assert_eq!(command_alias::filter_before_plugin_lookup(&aliases, "b".to_string()), "c");
}

#[test]
fn plugin_names_carry_command_names() {
    assert_eq!(plugin_command_name("libcommand_ping"), Some("ping".to_string()));
    assert_eq!(plugin_command_name("libcommand_"), Some(String::new()));
    assert_eq!(plugin_command_name("libcommon_playing"), None);
    assert_eq!(plugin_command_name("xlibcommand_ping"), None);
    assert_eq!(plugin_command_name("libcommand_a\nb"), None);
    assert_eq!(plugin_command_name("libcommand_a\rb"), Some("a\rb".to_string()));
    assert_eq!(plugin_command_name(&plugin_key("playing")), Some("playing".to_string()));
}

#[test]
fn man_shows_loaded_manuals() {
    let mut manuals = Manuals::new();
    let plugin = Plugin::new("libcommand_playing".to_string(), open_libc(), Some(0));
    assert_eq!(
        command_man::hook_plugin_load(&mut manuals, &plugin, Some("Makes a channel".to_string())),
        0
    );
    assert_eq!(
        command_man::main(&manuals, &words(&["playing"])),
        Ok("```\nMakes a channel\n```".to_string())
    );
    assert_eq!(command_man::main(&manuals, &words(&["ping"])), Err(200));
    assert_eq!(command_man::main(&manuals, &words(&[])), Err(100));
}

#[test]
fn plugins_without_manual_add_nothing() {
    let mut manuals = Manuals::new();
    let plugin = Plugin::new("libcommand_ping".to_string(), open_libc(), None);
    assert_eq!(plugin.description, 0);
    assert_eq!(plugin.name, "libcommand_ping");
    assert_eq!(command_man::hook_plugin_load(&mut manuals, &plugin, None), 0);
    assert_eq!(command_man::main(&manuals, &words(&["ping"])), Err(200));
}

#[test]
fn managed_channel_starts_empty() {
    let channel = ManagedChannel::new(7, "Game".to_string());
    assert_eq!(channel.id, 7);
    assert_eq!(channel.name, "Game");
    assert!(channel.users.is_empty());
}

#[test]
fn user_lookups() {
    let mut channels = ManagedChannels::new();
    let mut states = VoiceStates::new();
    assert_eq!(get_user_channel_id(&states, 1), Err(300));
    assert_eq!(get_user_server_id(&states, 1, ChannelInfo::Public { server_id: 9 }), Err(300));
    assert_eq!(hook_voice_state_update(&mut channels, &mut states, 1, Some(10)), None);
    assert_eq!(hook_voice_state_update(&mut channels, &mut states, 2, Some(10)), None);
    assert_eq!(hook_voice_state_update(&mut channels, &mut states, 3, None), None);
    assert_eq!(get_user_channel_id(&states, 1), Ok(10));
    assert_eq!(get_user_channel_id(&states, 3), Ok(0));
    assert_eq!(get_user_server_id(&states, 1, ChannelInfo::Public { server_id: 9 }), Ok(9));
    assert_eq!(get_user_server_id(&states, 1, ChannelInfo::NotPublic), Err(402));
    assert_eq!(get_user_server_id(&states, 1, ChannelInfo::Unavailable), Err(401));
    let mut users = get_users_in_channel(&states, 10);
    users.sort();
    assert_eq!(users, vec![1, 2]);
    assert!(get_users_in_channel(&states, 11).is_empty());
}

#[test]
fn creating_a_channel_twice_gives_the_same_channel() {
    let mut channels = ManagedChannels::new();
    assert_eq!(
        create_managed_channel(&mut channels, "Game".to_string(), ChannelCreation::Created(77)),
        Ok(77)
    );
    assert_eq!(
        create_managed_channel(&mut channels, "Game".to_string(), ChannelCreation::Failed),
        Ok(77)
    );
    assert_eq!(channels.find_by_name(&"Game".to_string()), Some(77));
    assert_eq!(channels.find_by_name(&"Other".to_string()), None);
}

#[test]
fn channel_creation_errors() {
    let mut channels = ManagedChannels::new();
    let name = || "Game".to_string();
    assert_eq!(create_managed_channel(&mut channels, name(), ChannelCreation::ServerUnknown), Err(450));
    assert_eq!(create_managed_channel(&mut channels, name(), ChannelCreation::NotPublic), Err(403));
    assert_eq!(create_managed_channel(&mut channels, name(), ChannelCreation::Failed), Err(400));
    assert_eq!(channels.find_by_name(&name()), None);
}

#[test]
fn last_user_leaving_deletes_the_channel() {
    let mut channels = ManagedChannels::new();
    let mut states = VoiceStates::new();
    hook_voice_state_update(&mut channels, &mut states, 1, Some(10));
    hook_voice_state_update(&mut channels, &mut states, 2, Some(10));
    assert_eq!(
        create_managed_channel(&mut channels, "Game".to_string(), ChannelCreation::Created(77)),
        Ok(77)
    );
    // both users are moved into the new channel
    assert_eq!(hook_voice_state_update(&mut channels, &mut states, 1, Some(77)), None);
    assert_eq!(hook_voice_state_update(&mut channels, &mut states, 2, Some(77)), None);
    // a mute or other update inside the channel moves nobody
    assert_eq!(hook_voice_state_update(&mut channels, &mut states, 2, Some(77)), None);
    // one leaves while the other stays: the channel stays
    assert_eq!(hook_voice_state_update(&mut channels, &mut states, 1, Some(10)), None);
    assert_eq!(channels.find_by_name(&"Game".to_string()), Some(77));
    // the last one leaves: the channel is to be deleted
    assert_eq!(hook_voice_state_update(&mut channels, &mut states, 2, None), Some(77));
    remove_channel(&mut channels, 77);
    assert_eq!(channels.find_by_name(&"Game".to_string()), None);
    assert_eq!(get_user_channel_id(&states, 2), Ok(0));
}

#[test]
fn failed_delete_keeps_the_channel_managed() {
    let mut channels = ManagedChannels::new();
    let mut states = VoiceStates::new();
    create_managed_channel(&mut channels, "Game".to_string(), ChannelCreation::Created(5)).unwrap();
    hook_voice_state_update(&mut channels, &mut states, 1, Some(5));
    assert_eq!(hook_voice_state_update(&mut channels, &mut states, 1, Some(6)), Some(5));
    // no remove_channel: the chat service refused the delete
    assert_eq!(channels.find_by_name(&"Game".to_string()), Some(5));
}

#[test]
fn playing_steps() {
    assert!(matches!(command_playing::main(&words(&[])), PlayingStep::Exit(100)));
    match command_playing::main(&words(&["Game", "x"])) {
        PlayingStep::LookupServer { name } => assert_eq!(name, "Game"),
        _ => panic!("expected a server lookup"),
    }
    assert!(matches!(
        command_playing::after_server_lookup("Game".to_string(), Err(300)),
        PlayingStep::Exit(300)
    ));
    match command_playing::after_server_lookup("Game".to_string(), Ok(9)) {
        PlayingStep::CreateChannel { server_id, name } => {
            assert_eq!(server_id, 9);
            assert_eq!(name, "Game");
        }
        _ => panic!("expected a channel creation"),
    }
    assert!(matches!(command_playing::after_channel_creation(9, Err(403)), PlayingStep::Exit(403)));
    assert!(matches!(
        command_playing::after_channel_creation(9, Ok(77)),
        PlayingStep::MoveMember { server_id: 9, channel_id: 77 }
    ));
    assert!(matches!(command_playing::after_move(true), PlayingStep::Exit(0)));
    assert!(matches!(command_playing::after_move(false), PlayingStep::Exit(500)));
}

#[test]
fn allplaying_steps() {
    assert!(matches!(command_allplaying::main(&words(&[])), AllPlayingStep::Exit(100)));
    match command_allplaying::main(&words(&["Game"])) {
        AllPlayingStep::LookupServer { name } => assert_eq!(name, "Game"),
        _ => panic!("expected a server lookup"),
    }
    assert!(matches!(
        command_allplaying::after_server_lookup("Game".to_string(), Err(401)),
        AllPlayingStep::Exit(401)
    ));
    match command_allplaying::after_server_lookup("Game".to_string(), Ok(9)) {
        AllPlayingStep::LookupUserChannel { server_id, name } => {
            assert_eq!(server_id, 9);
            assert_eq!(name, "Game");
        }
        _ => panic!("expected a channel lookup"),
    }
    assert!(matches!(
        command_allplaying::after_user_channel_lookup(9, "Game".to_string(), Err(300)),
        AllPlayingStep::Exit(300)
    ));
    match command_allplaying::after_user_channel_lookup(9, "Game".to_string(), Ok(10)) {
        AllPlayingStep::CreateChannel { server_id, current_channel_id, name } => {
            assert_eq!((server_id, current_channel_id), (9, 10));
            assert_eq!(name, "Game");
        }
        _ => panic!("expected a channel creation"),
    }
    assert!(matches!(
        command_allplaying::after_channel_creation(9, 10, Err(400)),
        AllPlayingStep::Exit(400)
    ));
    assert!(matches!(
        command_allplaying::after_channel_creation(9, 10, Ok(77)),
        AllPlayingStep::ListUsers { server_id: 9, channel_id: 77, current_channel_id: 10 }
    ));
    assert!(matches!(
        command_allplaying::after_users_listed(9, 77, Err(201)),
        AllPlayingStep::Exit(201)
    ));
    match command_allplaying::after_users_listed(9, 77, Ok(vec![1, 2])) {
        AllPlayingStep::MoveUsers { server_id, channel_id, users } => {
            assert_eq!((server_id, channel_id), (9, 77));
            assert_eq!(users, vec![1, 2]);
        }
        _ => panic!("expected moves"),
    }
    assert!(matches!(command_allplaying::after_moves(), AllPlayingStep::Exit(0)));
}
