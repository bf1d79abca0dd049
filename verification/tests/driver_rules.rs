use voidgamebot::common_void::filter;
use voidgamebot::common_void::hook;
use voidgamebot::driver::plugin::Plugin;
use voidgamebot::driver::{channel_notice, exit_report, library_key, parse_command, plugin_key};
use voidgamebot::text::{is_whitespace, split_whitespace};

fn open_libc() -> libloading::Library {
    libloading::Library::new("libc.so.6").unwrap()
}

#[test]
fn whitespace_agrees_with_std_for_every_char() {
    for v in 0u32..=0x10FFFF {
        if let Some(c) = char::from_u32(v) {
            assert_eq!(is_whitespace(c), c.is_whitespace(), "char {:#x}", v);
        }
    }
}

#[test]
fn split_whitespace_matches_std() {
    let samples = [
        "",
        "   ",
        "!alias pl playing",
        "  lead and\ttrail  ",
        "one\u{3000}two\u{2028}three\u{85}four",
        "naïve café\u{a0}ünïcode",
        "single",
    ];
    for s in samples.iter() {
        let ours = split_whitespace(s);
        let std_words: Vec<String> = s.split_whitespace().map(|w| w.to_string()).collect();
        assert_eq!(ours, std_words, "splitting {:?}", s);
    }
}

#[test]
fn command_and_arguments_are_read_from_a_message() {
    let cl = parse_command("!playing Overwatch now").unwrap();
    assert_eq!(cl.command, "playing");
    assert_eq!(cl.args, vec!["Overwatch".to_string(), "now".to_string()]);
}

#[test]
fn extra_white_space_between_arguments_is_skipped() {
    let cl = parse_command("!alias   pl \t playing  ").unwrap();
    assert_eq!(cl.command, "alias");
    assert_eq!(cl.args, vec!["pl".to_string(), "playing".to_string()]);
}

#[test]
fn messages_without_the_prefix_are_no_commands() {
    assert!(parse_command("hello there").is_none());
    assert!(parse_command("").is_none());
    assert!(parse_command(" !ping").is_none());
    assert!(parse_command("?ping").is_none());
}

#[test]
fn a_lone_prefix_is_the_empty_command() {
    let cl = parse_command("!").unwrap();
    assert_eq!(cl.command, "");
    assert!(cl.args.is_empty());
    let cl = parse_command("! ping").unwrap();
    assert_eq!(cl.command, "");
    assert_eq!(cl.args, vec!["ping".to_string()]);
}

#[test]
fn non_ascii_commands_keep_their_characters() {
    let cl = parse_command("!jöu ü").unwrap();
    assert_eq!(cl.command, "jöu");
    assert_eq!(cl.args, vec!["ü".to_string()]);
}

#[test]
fn plugin_key_prefixes_the_command() {
    assert_eq!(plugin_key("ping"), "libcommand_ping");
    assert_eq!(plugin_key(""), "libcommand_");
}

#[test]
fn library_key_drops_the_extension() {
    assert_eq!(library_key("libcommand_ping.so"), "libcommand_ping");
    assert_eq!(library_key("abc"), "");
    assert_eq!(library_key("libé.so"), "libé");
}

#[test]
fn exit_report_only_for_failures() {
    assert!(exit_report(0).is_none());
    assert_eq!(
        exit_report(405).unwrap(),
        "[ERR]         Command exited with non-zero code 405"
    );
    assert_eq!(
        exit_report(7).unwrap(),
        "[ERR]         Command exited with non-zero code 7"
    );
    assert_eq!(
        exit_report(65535).unwrap(),
        "[ERR]         Command exited with non-zero code 65535"
    );
    assert_eq!(
        exit_report(10).unwrap(),
        "[ERR]         Command exited with non-zero code 10"
    );
}

#[test]
fn exit_report_matches_format_for_every_code() {
    for code in 1u16..=u16::MAX {
        let expected = format!("[ERR]         Command exited with non-zero code {}", code);
        assert_eq!(exit_report(code).unwrap(), expected);
    }
}

#[test]
fn channel_notice_sets_report_in_code_style() {
    assert_eq!(channel_notice("oops"), "`oops`");
    assert_eq!(channel_notice(""), "``");
}

#[test]
fn plugin_without_describe_has_empty_description() {
    let plugin = Plugin::new(open_libc(), None);
    assert_eq!(plugin.description, 0);
    assert!(!plugin.filters_before_plugin_lookup());
    assert!(!plugin.hooks_voice_state_update());
}

#[test]
fn plugin_flags_follow_its_description() {
    let plugin = Plugin::new(open_libc(), Some(filter::BEFORE_PLUGIN_LOOKUP | 1));
    assert_eq!(plugin.description, filter::BEFORE_PLUGIN_LOOKUP | 1);
    assert!(plugin.filters_before_plugin_lookup());
    assert!(!plugin.hooks_voice_state_update());

    let plugin = Plugin::new(open_libc(), Some(hook::VOICE_STATE_UPDATE));
    assert!(!plugin.filters_before_plugin_lookup());
    assert!(plugin.hooks_voice_state_update());
}

#[test]
fn flag_bits_are_where_the_layout_puts_them() {
    assert_eq!(filter::BEFORE_PLUGIN_LOOKUP, 1u64 << 32);
    assert_eq!(hook::VOICE_STATE_UPDATE, 1u64 << 16);
    assert_eq!(hook::PLUGIN_LOAD, 1u64 << 17);
    assert_eq!(filter::NONE, 0);
    assert_eq!(hook::NONE, 0);
}
