//! The `alias` command: lets one command name stand for another. An alias
//! is resolved by the filter that runs just before the plugin lookup.

use crate::common_void::feature;
use crate::common_void::filter;
use crate::text::string_views;
use vstd::hash_map::StringHashMap;
use vstd::prelude::*;

verus! {

/// Plugin feature usage description: the alias plugin filters commands
/// before the plugin lookup.
pub fn describe() -> (d: u64)
    ensures
        d == feature::TEST | filter::BEFORE_PLUGIN_LOOKUP,
{
    feature::TEST | filter::BEFORE_PLUGIN_LOOKUP
}

/// The aliases defined so far: each alias name and the command it stands for.
pub struct Aliases {
    map: StringHashMap<String>,
}

impl View for Aliases {
    type V = Map<Seq<char>, Seq<char>>;

    closed spec fn view(&self) -> Map<Seq<char>, Seq<char>> {
        self.map@.map_values(|v: String| v@)
    }
}

/// The aliases after `!alias` ran with `args`: with fewer than two arguments
/// nothing changes, otherwise the first argument becomes an alias of the
/// second, replacing any earlier alias of that name.
pub open spec fn aliases_after(aliases: Map<Seq<char>, Seq<char>>, args: Seq<Seq<char>>) -> Map<
    Seq<char>,
    Seq<char>,
> {
    if args.len() < 2 {
        aliases
    } else {
        aliases.insert(args[0], args[1])
    }
}

/// The command looked up for `command`: the command that it is an alias of,
/// or `command` itself where it is no alias. Aliases are resolved once, not
/// followed in a chain.
pub open spec fn resolve_alias(aliases: Map<Seq<char>, Seq<char>>, command: Seq<char>) -> Seq<
    char,
> {
    if aliases.contains_key(command) {
        aliases[command]
    } else {
        command
    }
}

impl Aliases {
    /// No aliases.
    pub fn new() -> (aliases: Aliases)
        ensures
            aliases@ == Map::<Seq<char>, Seq<char>>::empty(),
    {
        let aliases = Aliases { map: StringHashMap::new() };
        assert(aliases@ =~= Map::<Seq<char>, Seq<char>>::empty());
        aliases
    }
}

/// Runs `!alias`: `!alias pl playing` makes `pl` work as if it were the
/// `playing` command. Returns 100 (invalid argument count) when fewer than
/// two arguments are given, 0 otherwise.
pub fn main(aliases: &mut Aliases, args: Vec<String>) -> (code: u16)
    ensures
        code == (if args@.len() < 2 {
            100u16
        } else {
            0u16
        }),
        final(aliases)@ == aliases_after(old(aliases)@, string_views(args@)),
{
    if args.len() < 2 {
        return 100;
    }
    let ghost before = aliases@;
    aliases.map.insert(args[0].clone(), args[1].clone());
    assert(aliases@ =~= before.insert(args@[0]@, args@[1]@));
    0
}

/// Resolves an alias just before the plugin lookup: returns the command that
/// `command` is an alias of, or `command` unchanged.
pub fn filter_before_plugin_lookup(aliases: &Aliases, command: String) -> (resolved: String)
    ensures
        resolved@ == resolve_alias(aliases@, command@),
{
    match aliases.map.get(command.as_str()) {
        Some(alias) => alias.clone(),
        None => command,
    }
}

/// Once `!alias a b` has run, the command `a` is looked up as `b`, and every
/// other command is looked up as it was before.
pub proof fn lemma_alias_then_resolve(
    aliases: Map<Seq<char>, Seq<char>>,
    args: Seq<Seq<char>>,
    command: Seq<char>,
)
    requires
        args.len() >= 2,
    ensures
        resolve_alias(aliases_after(aliases, args), command) == (if command == args[0] {
            args[1]
        } else {
            resolve_alias(aliases, command)
        }),
{
}

/// `!alias` with fewer than two arguments leaves every lookup as it was.
pub proof fn lemma_short_alias_changes_nothing(
    aliases: Map<Seq<char>, Seq<char>>,
    args: Seq<Seq<char>>,
    command: Seq<char>,
)
    requires
        args.len() < 2,
    ensures
        resolve_alias(aliases_after(aliases, args), command) == resolve_alias(aliases, command),
{
}

} // verus!
