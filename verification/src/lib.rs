//! A plugin driven chat bot: the command parsing and dispatch rules of the
//! driver, and the state kept by the bundled plugins.

pub mod text;
pub mod common_void;
pub mod driver;
pub mod command_alias;
pub mod command_man;
pub mod command_playing;
pub mod common_playing;
pub mod command_allplaying;
