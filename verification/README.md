# voidgamebot

A chat bot whose commands (`!command arg ...`) are served by plugin
libraries. This crate holds the bot's rules, verified with Verus:

- `src/driver.rs`: which messages are commands, how the command word and the
  arguments are read, the key a command's plugin is registered under, and the
  failure report; `src/driver/plugin.rs`: a loaded plugin and its flags.
- `src/common_void/`: the description bit masks (features, hooks, filters)
  and the plugin record the plugins see.
- `src/command_alias.rs`, `src/command_man.rs`: the alias table and its
  lookup filter; the manual table filled by the plugin load hook.
- `src/common_playing.rs`, `src/command_playing*`, `src/command_allplaying.rs`:
  managed voice channels, the voice channel of each user, and the steps of the
  `playing` and `allplaying` commands.
- `src/text.rs`: white space and word splitting.

`app/` is the program around it: loading the plugin libraries, the Discord
connection, the locks around the plugins' tables, and the calls into the
plugin libraries.
