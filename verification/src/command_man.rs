//! The `man` command: shows the manual that a command plugin provides. The
//! manuals are gathered by the plugin load hook.

use crate::common_void::feature;
use crate::common_void::hook;
use crate::common_void::plugin::Plugin;
use crate::driver::command_library_prefix;
use crate::text::string_views;
use vstd::hash_map::StringHashMap;
use vstd::prelude::*;
use vstd::string::*;

verus! {

broadcast use vstd::string::group_string_axioms;

/// Plugin feature usage description: the manual plugin uses the plugin load
/// hook.
pub fn describe() -> (d: u64)
    ensures
        d == feature::TEST | hook::PLUGIN_LOAD,
{
    feature::TEST | hook::PLUGIN_LOAD
}

/// What `regex::Regex::captures` finds for `pattern` in `text`, taken from
/// the capture group named `group` (`None` where the pattern does not
/// compile, does not match, or the group took no part in the match).
pub uninterp spec fn regex_named_capture(
    pattern: Seq<char>,
    text: Seq<char>,
    group: Seq<char>,
) -> Option<Seq<char>>;

/// The pattern `^libcommand_(?P<name>.*)$` that picks the command name out
/// of a plugin name.
pub open spec fn plugin_name_pattern() -> Seq<char> {
    seq![
        '^', 'l', 'i', 'b', 'c', 'o', 'm', 'm', 'a', 'n', 'd', '_', '(', '?', 'P', '<', 'n', 'a',
        'm', 'e', '>', '.', '*', ')', '$',
    ]
}

/// The name of the capture group in `plugin_name_pattern`.
pub open spec fn name_group() -> Seq<char> {
    seq!['n', 'a', 'm', 'e']
}

/// The command name carried by a plugin name: what follows the prefix
/// `libcommand_`, provided the name has that prefix and no line feed
/// follows it.
pub open spec fn command_plugin_name(name: Seq<char>) -> Option<Seq<char>> {
    let p = command_library_prefix();
    if name.len() >= p.len() && name.take(p.len() as int) == p && !name.skip(
        p.len() as int,
    ).contains('\n') {
        Some(name.skip(p.len() as int))
    } else {
        None
    }
}

/// The views of an optional string.
pub open spec fn option_view(s: Option<String>) -> Option<Seq<char>> {
    match s {
        Some(s) => Some(s@),
        None => None,
    }
}

/// Compiles `pattern` with `regex::Regex::new`, searches `text` with
/// `Regex::captures` and returns the text of the group named `group`
/// (`Captures::name`). The result is named `regex_named_capture`. For the
/// pattern `^libcommand_(?P<name>.*)$` and the group `name` the regex
/// documentation fixes it: `^` and `$` match only at the start and end of
/// the text and `.` matches any character but a line feed, so the text
/// matches exactly when it is `libcommand_` followed by characters other than
/// a line feed, and the group holds those characters.
#[verifier::external_body]
fn regex_capture(pattern: &str, text: &str, group: &str) -> (captured: Option<String>)
    ensures
        option_view(captured) == regex_named_capture(pattern@, text@, group@),
        pattern@ == plugin_name_pattern() && group@ == name_group() ==> option_view(captured)
            == command_plugin_name(text@),
{
    let re = match regex::Regex::new(pattern) {
        Ok(re) => re,
        Err(_) => return None,
    };
    let caps = match re.captures(text) {
        Some(caps) => caps,
        None => return None,
    };
    match caps.name(group) {
        Some(m) => Some(m.as_str().to_string()),
        None => None,
    }
}

/// The command name that a plugin name carries, read with the pattern
/// `^libcommand_(?P<name>.*)$`.
pub fn plugin_command_name(name: &str) -> (command: Option<String>)
    ensures
        option_view(command) == command_plugin_name(name@),
{
    let pattern = "^libcommand_(?P<name>.*)$";
    let group = "name";
    proof {
        reveal_strlit("^libcommand_(?P<name>.*)$");
        reveal_strlit("name");
        assert(pattern@ =~= plugin_name_pattern());
        assert(group@ =~= name_group());
    }
    regex_capture(pattern, name, group)
}

/// The manuals gathered so far: each command name and its manual text.
pub struct Manuals {
    map: StringHashMap<String>,
}

impl View for Manuals {
    type V = Map<Seq<char>, Seq<char>>;

    closed spec fn view(&self) -> Map<Seq<char>, Seq<char>> {
        self.map@.map_values(|v: String| v@)
    }
}

impl Manuals {
    /// No manuals.
    pub fn new() -> (manuals: Manuals)
        ensures
            manuals@ == Map::<Seq<char>, Seq<char>>::empty(),
    {
        let manuals = Manuals { map: StringHashMap::new() };
        assert(manuals@ =~= Map::<Seq<char>, Seq<char>>::empty());
        manuals
    }
}

/// A manual as it is sent: set in a code block.
pub open spec fn manual_block(manual: Seq<char>) -> Seq<char> {
    seq!['`', '`', '`', '\n'] + manual + seq!['\n', '`', '`', '`']
}

/// The answer of `!man` with `args`: 100 (invalid argument count) without
/// arguments, 200 when no manual is known for the first argument, otherwise
/// that manual set in a code block.
pub open spec fn man_reply(manuals: Map<Seq<char>, Seq<char>>, args: Seq<Seq<char>>) -> Result<
    Seq<char>,
    u16,
> {
    if args.len() < 1 {
        Err(100)
    } else if manuals.contains_key(args[0]) {
        Ok(manual_block(manuals[args[0]]))
    } else {
        Err(200)
    }
}

/// The views of a result whose success is a string.
pub open spec fn result_view(r: Result<String, u16>) -> Result<Seq<char>, u16> {
    match r {
        Ok(s) => Ok(s@),
        Err(code) => Err(code),
    }
}

/// Runs `!man`: returns the text to send to the channel (the manual of the
/// command named by the first argument, in a code block) or the error code.
/// Once the text is sent the command exits with 0, whether the send
/// succeeded or not.
pub fn main(manuals: &Manuals, args: &Vec<String>) -> (reply: Result<String, u16>)
    ensures
        result_view(reply) == man_reply(manuals@, string_views(args@)),
{
    if args.len() < 1 {
        return Err(100);
    }
    match manuals.map.get(args[0].as_str()) {
        Some(content) => {
            let mut text = String::from_str("```\n");
            text.append(content.as_str());
            text.append("\n```");
            proof {
                reveal_strlit("```\n");
                reveal_strlit("\n```");
                assert(text@ =~= manual_block(content@));
            }
            Ok(text)
        },
        None => Err(200),
    }
}

/// The manuals after the plugin load hook ran for a plugin named `name`
/// that provided `manual` (`None` where it exports no `manual` function).
pub open spec fn manuals_after_load(
    manuals: Map<Seq<char>, Seq<char>>,
    name: Seq<char>,
    manual: Option<Seq<char>>,
) -> Map<Seq<char>, Seq<char>> {
    match manual {
        Some(m) => manuals.insert(command_plugin_name(name).unwrap(), m),
        None => manuals,
    }
}

/// The plugin load hook: records the manual that a plugin provides under the
/// command name carried by the plugin's name. `manual` is what the plugin's
/// `manual` function returned, or `None` where it exports no such function;
/// nothing is recorded then. A plugin with a manual must carry a command name.
pub fn hook_plugin_load(manuals: &mut Manuals, plugin: &Plugin, manual: Option<String>) -> (code:
    u16)
    requires
        manual is Some ==> command_plugin_name(plugin.name@) is Some,
    ensures
        code == 0,
        final(manuals)@ == manuals_after_load(old(manuals)@, plugin.name@, option_view(manual)),
        forall|c: Seq<char>|
            (manual is None || c != command_plugin_name(plugin.name@).unwrap()) ==> (
            #[trigger] final(manuals)@.contains_key(c) == old(manuals)@.contains_key(c) && (old(manuals)@.contains_key(c) ==> final(manuals)@[c] == old(manuals)@[c])),
        manual matches Some(m) ==> final(manuals)@.contains_key(
            command_plugin_name(plugin.name@).unwrap(),
        ) && final(manuals)@[command_plugin_name(plugin.name@).unwrap()] == m@,
{
    match manual {
        Some(content) => {
            let ghost before = manuals@;
            match plugin_command_name(plugin.name.as_str()) {
                Some(name) => {
                    manuals.map.insert(name, content);
                    assert(manuals@ =~= before.insert(
                        command_plugin_name(plugin.name@).unwrap(),
                        option_view(manual).unwrap(),
                    ));
                },
                None => {},
            }
        },
        None => {},
    }
    0
}

/// A command name carried by a plugin name is the name that the driver
/// looks the command up under: the plugin registered under the key of
/// `command` carries `command`, for any command without a line feed.
pub proof fn lemma_plugin_key_carries_command(command: Seq<char>)
    requires
        !command.contains('\n'),
    ensures
        command_plugin_name(command_library_prefix() + command) == Some(command),
{
    let name = command_library_prefix() + command;
    assert(name.take(11) =~= command_library_prefix());
    assert(name.skip(11) =~= command);
}

/// Once the load hook has recorded the manual `m` of the plugin registered
/// for `command`, `!man command` answers with `m` in a code block.
pub proof fn lemma_loaded_manual_is_shown(
    manuals: Map<Seq<char>, Seq<char>>,
    command: Seq<char>,
    m: Seq<char>,
    args: Seq<Seq<char>>,
)
    requires
        !command.contains('\n'),
        args.len() >= 1,
        args[0] == command,
    ensures
        man_reply(
            manuals_after_load(manuals, command_library_prefix() + command, Some(m)),
            args,
        ) == Ok::<Seq<char>, u16>(manual_block(m)),
{
    lemma_plugin_key_carries_command(command);
}

/// Loading a plugin's manual keeps every other manual: for each command
/// other than the one the plugin carries, the manual table and the answer
/// of `!man` are as before; a plugin without a manual changes nothing.
pub proof fn lemma_load_keeps_other_manuals(
    manuals: Map<Seq<char>, Seq<char>>,
    name: Seq<char>,
    manual: Option<Seq<char>>,
    command: Seq<char>,
    args: Seq<Seq<char>>,
)
    requires
        manual is Some ==> command_plugin_name(name) is Some,
        manual is Some ==> command != command_plugin_name(name).unwrap(),
        args.len() >= 1,
        args[0] == command,
    ensures
        manuals_after_load(manuals, name, manual).contains_key(command) == manuals.contains_key(
            command,
        ),
        manuals.contains_key(command) ==> manuals_after_load(manuals, name, manual)[command]
            == manuals[command],
        man_reply(manuals_after_load(manuals, name, manual), args) == man_reply(manuals, args),
{
}

/// Loading a plugin's manual records it under the command the plugin
/// carries, whatever was recorded there before.
pub proof fn lemma_load_records_manual(
    manuals: Map<Seq<char>, Seq<char>>,
    name: Seq<char>,
    m: Seq<char>,
)
    requires
        command_plugin_name(name) is Some,
    ensures
        manuals_after_load(manuals, name, Some(m)).contains_key(command_plugin_name(name).unwrap()),
        manuals_after_load(manuals, name, Some(m))[command_plugin_name(name).unwrap()] == m,
        manuals_after_load(manuals, name, Some(m)).dom() == manuals.dom().insert(
            command_plugin_name(name).unwrap(),
        ),
{
}

} // verus!
