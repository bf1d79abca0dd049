//! The `allplaying` command: `!allplaying GAME` creates a managed voice
//! channel named GAME (or finds the managed one of that name) and moves
//! every user of the sender's voice channel into it. The command runs in
//! steps; between two steps the caller does what the step asks of the chat
//! service and hands the answer to the next step.

use crate::common_void::feature;
use vstd::prelude::*;

verus! {

/// Plugin feature usage description.
pub fn describe() -> (d: u64)
    ensures
        d == feature::TEST,
{
    feature::TEST
}

/// What the `allplaying` command asks for next, or its exit code.
pub enum AllPlayingStep {
    /// Find the server of the sender's voice channel; the new channel will
    /// be named `name`.
    LookupServer { name: String },
    /// Find the sender's current voice channel.
    LookupUserChannel { server_id: u64, name: String },
    /// Find or create the managed channel `name` for the sender.
    CreateChannel { server_id: u64, current_channel_id: u64, name: String },
    /// List the users of the sender's current channel.
    ListUsers { server_id: u64, channel_id: u64, current_channel_id: u64 },
    /// Move each of `users` into the channel; a failed move is only logged.
    MoveUsers { server_id: u64, channel_id: u64, users: Vec<u64> },
    /// The command is done with this exit code.
    Exit(u16),
}

/// Starts `!allplaying` with its arguments: 100 (invalid argument count)
/// without an argument, else the first argument names the channel.
pub fn main(args: &Vec<String>) -> (step: AllPlayingStep)
    ensures
        args@.len() < 1 ==> step == AllPlayingStep::Exit(100),
        args@.len() >= 1 ==> (step matches AllPlayingStep::LookupServer { name } && name@
            == args@[0]@),
{
    if args.len() < 1 {
        return AllPlayingStep::Exit(100);
    }
    AllPlayingStep::LookupServer { name: args[0].clone() }
}

/// Goes on once the sender's server is known: a failed lookup ends the
/// command with its error code.
pub fn after_server_lookup(name: String, server: Result<u64, u16>) -> (step: AllPlayingStep)
    ensures
        step == (match server {
            Ok(server_id) => AllPlayingStep::LookupUserChannel { server_id, name },
            Err(code) => AllPlayingStep::Exit(code),
        }),
{
    match server {
        Ok(server_id) => AllPlayingStep::LookupUserChannel { server_id, name },
        Err(code) => AllPlayingStep::Exit(code),
    }
}

/// Goes on once the sender's current channel is known: a failed lookup ends
/// the command with its error code.
pub fn after_user_channel_lookup(
    server_id: u64,
    name: String,
    current: Result<u64, u16>,
) -> (step: AllPlayingStep)
    ensures
        step == (match current {
            Ok(current_channel_id) => AllPlayingStep::CreateChannel {
                server_id,
                current_channel_id,
                name,
            },
            Err(code) => AllPlayingStep::Exit(code),
        }),
{
    match current {
        Ok(current_channel_id) => AllPlayingStep::CreateChannel {
            server_id,
            current_channel_id,
            name,
        },
        Err(code) => AllPlayingStep::Exit(code),
    }
}

/// Goes on once the channel is found or created: a failure ends the command
/// with its error code.
pub fn after_channel_creation(
    server_id: u64,
    current_channel_id: u64,
    created: Result<u64, u16>,
) -> (step: AllPlayingStep)
    ensures
        step == (match created {
            Ok(channel_id) => AllPlayingStep::ListUsers {
                server_id,
                channel_id,
                current_channel_id,
            },
            Err(code) => AllPlayingStep::Exit(code),
        }),
{
    match created {
        Ok(channel_id) => AllPlayingStep::ListUsers { server_id, channel_id, current_channel_id },
        Err(code) => AllPlayingStep::Exit(code),
    }
}

/// Goes on once the users of the sender's channel are known: a failed
/// listing ends the command with its error code.
pub fn after_users_listed(
    server_id: u64,
    channel_id: u64,
    users: Result<Vec<u64>, u16>,
) -> (step: AllPlayingStep)
    ensures
        step == (match users {
            Ok(users) => AllPlayingStep::MoveUsers { server_id, channel_id, users },
            Err(code) => AllPlayingStep::Exit(code),
        }),
{
    match users {
        Ok(users) => AllPlayingStep::MoveUsers { server_id, channel_id, users },
        Err(code) => AllPlayingStep::Exit(code),
    }
}

/// Ends the command once every move was tried: 0, whatever the moves came
/// to.
pub fn after_moves() -> (step: AllPlayingStep)
    ensures
        step == AllPlayingStep::Exit(0),
{
    AllPlayingStep::Exit(0)
}

} // verus!
