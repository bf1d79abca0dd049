//! The driver's rules: which messages are commands, how a command and its
//! arguments are read from a message, under which key a command's plugin is
//! found, and what is reported when a command fails.

pub mod plugin;

use crate::text::{is_white_space, scan_words, split_whitespace, split_words, string_views};
use vstd::prelude::*;
use vstd::string::*;
use vstd::utf8::*;

verus! {

broadcast use vstd::string::group_string_axioms;

/// A message is a command when its first character is the command prefix `!`.
pub open spec fn is_command_message(content: Seq<char>) -> bool {
    content.len() > 0 && content[0] == '!'
}

/// A command read from a message: the first word without its leading `!`,
/// and the words after it.
pub struct CommandLine {
    pub command: String,
    pub args: Vec<String>,
}

/// The first word of a text that starts with a character other than white
/// space starts with that character.
pub proof fn lemma_first_word(s: Seq<char>)
    requires
        s.len() > 0,
        !is_white_space(s[0]),
    ensures
        split_words(s).len() > 0,
        split_words(s)[0].len() > 0,
        split_words(s)[0][0] == s[0],
{
    lemma_scan_first_word(s, s.len());
}

proof fn lemma_scan_first_word(s: Seq<char>, n: nat)
    requires
        1 <= n <= s.len(),
        !is_white_space(s[0]),
    ensures
        ({
            let p = scan_words(s, n);
            ||| p.0.len() > 0 && p.0[0].len() > 0 && p.0[0][0] == s[0]
            ||| p.0.len() == 0 && p.1.len() > 0 && p.1[0] == s[0]
        }),
    decreases n,
{
    let p = scan_words(s, n);
    if n == 1 {
        assert(scan_words(s, 0) == (Seq::<Seq<char>>::empty(), Seq::<char>::empty()));
        assert(p.1 =~= seq![s[0]]);
    } else {
        lemma_scan_first_word(s, (n - 1) as nat);
        let prev = scan_words(s, (n - 1) as nat);
        let c = s[n - 1];
        if is_white_space(c) {
            if prev.1.len() > 0 {
                assert(p.0 == prev.0.push(prev.1));
                assert(p.0[0] == (if prev.0.len() > 0 { prev.0[0] } else { prev.1 }));
            }
        } else {
            assert(p.1 == prev.1.push(c));
            assert(p.0 == prev.0);
        }
    }
}

/// Reads a command from a message. A message that does not start with `!`
/// is no command. Otherwise the command is the first word of the message
/// without its `!`, and the arguments are the words after it.
pub fn parse_command(content: &str) -> (parsed: Option<CommandLine>)
    ensures
        parsed is Some <==> is_command_message(content@),
        parsed matches Some(cl) ==> {
            &&& cl.command@ == split_words(content@)[0].drop_first()
            &&& string_views(cl.args@) == split_words(content@).drop_first()
        },
{
    if content.unicode_len() == 0 {
        return None;
    }
    if content.get_char(0) != '!' {
        return None;
    }
    let mut words = split_whitespace(content);
    proof {
        lemma_first_word(content@);
    }
    let ghost all = string_views(words@);
    let first = words.remove(0);
    assert(string_views(words@) =~= all.drop_first());
    let len = first.as_str().unicode_len();
    let command = String::from_str(first.as_str().substring_char(1, len));
    assert(command@ =~= all[0].drop_first());
    Some(CommandLine { command, args: words })
}

/// The prefix of the file names of command plugins.
pub open spec fn command_library_prefix() -> Seq<char> {
    seq!['l', 'i', 'b', 'c', 'o', 'm', 'm', 'a', 'n', 'd', '_']
}

/// The key under which the plugin that runs `command` is registered.
pub fn plugin_key(command: &str) -> (key: String)
    ensures
        key@ == command_library_prefix() + command@,
{
    let mut key = String::from_str("libcommand_");
    proof {
        reveal_strlit("libcommand_");
        assert("libcommand_"@ =~= command_library_prefix());
    }
    key.append(command);
    key
}

/// The key under which a plugin library file is registered: its file name
/// without the last three bytes (the `.so` extension).
pub fn library_key(file_name: &str) -> (key: String)
    requires
        3 <= file_name.spec_bytes().len() <= usize::MAX,
        is_char_boundary(file_name.spec_bytes(), file_name.spec_bytes().len() - 3),
    ensures
        encode_utf8(key@) == file_name.spec_bytes().subrange(
            0,
            file_name.spec_bytes().len() - 3,
        ),
{
    let len = file_name.len();
    let (stem, _extension) = file_name.split_at(len - 3);
    stem.to_owned()
}

/// The character of a decimal digit.
pub open spec fn digit_char(d: nat) -> char {
    if d == 0 {
        '0'
    } else if d == 1 {
        '1'
    } else if d == 2 {
        '2'
    } else if d == 3 {
        '3'
    } else if d == 4 {
        '4'
    } else if d == 5 {
        '5'
    } else if d == 6 {
        '6'
    } else if d == 7 {
        '7'
    } else if d == 8 {
        '8'
    } else {
        '9'
    }
}

/// The decimal notation of `n`, without leading zeros.
pub open spec fn decimal(n: nat) -> Seq<char>
    decreases n,
{
    if n < 10 {
        seq![digit_char(n)]
    } else {
        decimal(n / 10).push(digit_char(n % 10))
    }
}

fn digit_str(d: u16) -> (r: &'static str)
    requires
        d < 10,
    ensures
        r@ == seq![digit_char(d as nat)],
{
    proof {
        reveal_strlit("0");
        reveal_strlit("1");
        reveal_strlit("2");
        reveal_strlit("3");
        reveal_strlit("4");
        reveal_strlit("5");
        reveal_strlit("6");
        reveal_strlit("7");
        reveal_strlit("8");
        reveal_strlit("9");
    }
    let r = if d == 0 {
        "0"
    } else if d == 1 {
        "1"
    } else if d == 2 {
        "2"
    } else if d == 3 {
        "3"
    } else if d == 4 {
        "4"
    } else if d == 5 {
        "5"
    } else if d == 6 {
        "6"
    } else if d == 7 {
        "7"
    } else if d == 8 {
        "8"
    } else {
        "9"
    };
    assert(r@ =~= seq![digit_char(d as nat)]);
    r
}

fn append_decimal(s: &mut String, n: u16)
    ensures
        final(s)@ == old(s)@ + decimal(n as nat),
    decreases n,
{
    if n >= 10 {
        append_decimal(s, n / 10);
    }
    s.append(digit_str(n % 10));
    assert(old(s)@ + decimal(n as nat) =~= old(s)@ + (if n >= 10 {
        decimal((n / 10) as nat)
    } else {
        Seq::empty()
    }) + seq![digit_char((n % 10) as nat)]);
}

/// What the driver logs when a command's plugin returns `code`: nothing for
/// the success code 0, otherwise a line that gives the code in decimal.
pub fn exit_report(code: u16) -> (report: Option<String>)
    ensures
        report is None <==> code == 0,
        report matches Some(r) ==> r@ == "[ERR]         Command exited with non-zero code "@
            + decimal(code as nat),
{
    if code == 0 {
        return None;
    }
    let mut r = String::from_str("[ERR]         Command exited with non-zero code ");
    append_decimal(&mut r, code);
    Some(r)
}

/// The text sent to the command's channel for a failure report: the report
/// set in code style, between backticks.
pub fn channel_notice(report: &str) -> (notice: String)
    ensures
        notice@ == seq!['`'] + report@ + seq!['`'],
{
    let mut notice = String::from_str("`");
    notice.append(report);
    notice.append("`");
    proof {
        reveal_strlit("`");
    }
    notice
}

} // verus!
