//! The `playing` command: `!playing GAME` creates a managed voice channel
//! named GAME (or finds the managed one of that name) and moves the user who
//! sent the command into it. The command runs in steps; between two steps
//! the caller does what the step asks of the chat service and hands the
//! answer to the next step.

pub mod managed_channel;

use crate::common_void::feature;
use vstd::prelude::*;

verus! {

/// Plugin feature usage description.
pub fn describe() -> (d: u64)
    ensures
        d == feature::TEST,
{
    feature::TEST
}

/// What the `playing` command asks for next, or its exit code.
pub enum PlayingStep {
    /// Find the server of the sender's voice channel
    /// (`common_playing::get_user_server_id`); the channel will be named
    /// `name`.
    LookupServer { name: String },
    /// Find or create the managed channel `name` for the sender
    /// (`common_playing::create_managed_channel`).
    CreateChannel { server_id: u64, name: String },
    /// Move the sender into the channel.
    MoveMember { server_id: u64, channel_id: u64 },
    /// The command is done with this exit code.
    Exit(u16),
}

/// Starts `!playing` with its arguments: 100 (invalid argument count)
/// without an argument, else the first argument names the channel.
pub fn main(args: &Vec<String>) -> (step: PlayingStep)
    ensures
        args@.len() < 1 ==> step == PlayingStep::Exit(100),
        args@.len() >= 1 ==> (step matches PlayingStep::LookupServer { name } && name@
            == args@[0]@),
{
    if args.len() < 1 {
        return PlayingStep::Exit(100);
    }
    PlayingStep::LookupServer { name: args[0].clone() }
}

/// Goes on once the sender's server is known: a failed lookup ends the
/// command with its error code.
pub fn after_server_lookup(name: String, server: Result<u64, u16>) -> (step: PlayingStep)
    ensures
        step == (match server {
            Ok(server_id) => PlayingStep::CreateChannel { server_id, name },
            Err(code) => PlayingStep::Exit(code),
        }),
{
    match server {
        Ok(server_id) => PlayingStep::CreateChannel { server_id, name },
        Err(code) => PlayingStep::Exit(code),
    }
}

/// Goes on once the channel is found or created: a failure ends the command
/// with its error code.
pub fn after_channel_creation(server_id: u64, created: Result<u64, u16>) -> (step: PlayingStep)
    ensures
        step == (match created {
            Ok(channel_id) => PlayingStep::MoveMember { server_id, channel_id },
            Err(code) => PlayingStep::Exit(code),
        }),
{
    match created {
        Ok(channel_id) => PlayingStep::MoveMember { server_id, channel_id },
        Err(code) => PlayingStep::Exit(code),
    }
}

/// Ends the command once the move was tried: 0 when the sender was moved,
/// 500 (could not move user into channel) otherwise.
pub fn after_move(moved: bool) -> (step: PlayingStep)
    ensures
        step == (if moved {
            PlayingStep::Exit(0)
        } else {
            PlayingStep::Exit(500)
        }),
{
    if moved {
        PlayingStep::Exit(0)
    } else {
        PlayingStep::Exit(500)
    }
}

} // verus!
