//! The text commands a user types (`!join foo`, `!leave`, ...) and the
//! classification of each input line.

use vstd::prelude::*;
use vstd::string::*;
use crate::text::{split_once, split_once_at};

verus! {

/// The commands a user can type.
#[derive(Debug, PartialEq, Eq, Structural)]
pub enum CommandType {
    FetchAuth,
    SetAuth,
    Join,
    Leave,
    SetNick,
    Save,
    ShowConfig,
    Reconnect,
    Exit,
    Echo,
    Clear,
}

/// A command and its argument (empty where it takes none).
pub type CommandMessage = (CommandType, String);

/// A character with the Unicode `White_Space` property, which `char::is_whitespace`
/// tests.
pub open spec fn is_white_space(c: char) -> bool {
    ('\u{9}' <= c && c <= '\u{d}') || c == ' ' || c == '\u{85}' || c == '\u{a0}' || c
        == '\u{1680}' || ('\u{2000}' <= c && c <= '\u{200a}') || c == '\u{2028}' || c
        == '\u{2029}' || c == '\u{202f}' || c == '\u{205f}' || c == '\u{3000}'
}

/// `s` without leading and trailing white space.
pub open spec fn trim_of(s: Seq<char>) -> Seq<char>
    decreases s.len(),
{
    if s.len() > 0 && is_white_space(s[0]) {
        trim_of(s.drop_first())
    } else if s.len() > 0 && is_white_space(s.last()) {
        trim_of(s.drop_last())
    } else {
        s
    }
}

/// What `str::to_lowercase` gives for `s`.
pub uninterp spec fn lower_of(s: Seq<char>) -> Seq<char>;

/// Relies on `str::trim`: `s` without leading and trailing characters of the
/// Unicode `White_Space` property.
#[verifier::external_body]
fn trimmed(s: &str) -> (r: &str)
    ensures
        r@ == trim_of(s@),
{
    s.trim()
}

/// Relies on `str::to_lowercase`: the lowercase form of `s`.
#[verifier::external_body]
fn lowercase(s: &str) -> (r: String)
    ensures
        r@ == lower_of(s@),
{
    s.to_lowercase()
}

/// A command name and its argument: the line split at its first space; an
/// argument that is blank once trimmed makes the line unusable, unless the
/// command is `echo`.
pub open spec fn split_spec(line: Seq<char>) -> (Seq<char>, Option<Seq<char>>) {
    match split_once(line, " "@) {
        None => (line, None),
        Some((cmd, arg)) => if cmd == "echo"@ || trim_of(arg).len() > 0 {
            (cmd, Some(arg))
        } else {
            (seq![], None)
        },
    }
}

pub open spec fn is_any(c: Seq<char>, a: Seq<char>, b: Seq<char>) -> bool {
    c == a || c == b
}

/// The command a line (without its `!`) stands for.
pub open spec fn parse_spec(line: Seq<char>) -> Option<(CommandType, Seq<char>)> {
    let (cmd, arg) = split_spec(line);
    match arg {
        None => if cmd == "auth"@ {
            Some((CommandType::FetchAuth, seq![]))
        } else if is_any(cmd, "leave"@, "d"@) {
            Some((CommandType::Leave, seq![]))
        } else if is_any(cmd, "save"@, "s"@) {
            Some((CommandType::Save, seq![]))
        } else if is_any(cmd, "reconnect"@, "r"@) {
            Some((CommandType::Reconnect, seq![]))
        } else if cmd == "q"@ {
            Some((CommandType::Exit, seq![]))
        } else if is_any(cmd, "clear"@, "c"@) {
            Some((CommandType::Clear, seq![]))
        } else {
            None
        },
        Some(a) => if cmd == "auth"@ {
            Some((CommandType::SetAuth, a))
        } else if is_any(cmd, "join"@, "j"@) {
            Some((CommandType::Join, lower_of(a)))
        } else if cmd == "nick"@ {
            Some((CommandType::SetNick, lower_of(a)))
        } else if cmd == "show"@ && a == "config"@ {
            Some((CommandType::ShowConfig, seq![]))
        } else if cmd == "echo"@ {
            Some((CommandType::Echo, a))
        } else {
            None
        },
    }
}

/// The argument of a command that takes none.
pub fn empty_arg() -> (r: String)
    ensures
        r@ == Seq::<char>::empty(),
{
    String::new()
}

fn is(s: &str, lit: &str) -> (r: bool)
    ensures
        r == (s@ == lit@),
{
    String::from_str(s) == String::from_str(lit)
}

/// The command name and argument of `line`.
pub fn split_command<'a>(line: &'a str) -> (r: (&'a str, Option<&'a str>))
    ensures
        r.0@ == split_spec(line@).0,
        r.1 matches Some(a) ==> split_spec(line@).1 == Some(a@),
        r.1 is None ==> split_spec(line@).1 is None,
{
    match split_once_at(line, " ") {
        None => (line, None),
        Some((cmd, arg)) => {
            if is(cmd, "echo") || trimmed(arg).unicode_len() > 0 {
                (cmd, Some(arg))
            } else {
                assert(""@ =~= Seq::<char>::empty()) by {
                    reveal_strlit("");
                }
                ("", None)
            }
        },
    }
}

/// A unit type that carries the command parser.
pub struct Command;

impl Command {
    /// Parses a command line (without its leading `!`).
    pub fn parse(line: &str) -> (r: Option<CommandMessage>)
        ensures
            r matches Some((t, a)) ==> parse_spec(line@) == Some((t, a@)),
            r is None ==> parse_spec(line@) is None,
    {
        let (cmd, arg) = split_command(line);
        match arg {
            None => if is(cmd, "auth") {
                Some((CommandType::FetchAuth, empty_arg()))
            } else if is(cmd, "leave") || is(cmd, "d") {
                Some((CommandType::Leave, empty_arg()))
            } else if is(cmd, "save") || is(cmd, "s") {
                Some((CommandType::Save, empty_arg()))
            } else if is(cmd, "reconnect") || is(cmd, "r") {
                Some((CommandType::Reconnect, empty_arg()))
            } else if is(cmd, "q") {
                Some((CommandType::Exit, empty_arg()))
            } else if is(cmd, "clear") || is(cmd, "c") {
                Some((CommandType::Clear, empty_arg()))
            } else {
                None
            },
            Some(a) => if is(cmd, "auth") {
                Some((CommandType::SetAuth, String::from_str(a)))
            } else if is(cmd, "join") || is(cmd, "j") {
                Some((CommandType::Join, lowercase(a)))
            } else if is(cmd, "nick") {
                Some((CommandType::SetNick, lowercase(a)))
            } else if is(cmd, "show") && is(a, "config") {
                Some((CommandType::ShowConfig, empty_arg()))
            } else if is(cmd, "echo") {
                Some((CommandType::Echo, String::from_str(a)))
            } else {
                None
            },
        }
    }
}

/// What one line of user input is.
pub enum InputLine {
    /// A `!` line that names a command.
    Command(CommandMessage),
    /// A `!` line that names no command.
    Unknown,
    /// Chat text, trimmed.
    Text(String),
}

/// Classifies one input line: after trimming, a line that starts with `!` is a
/// command, any other is chat text.
pub fn process_line(line: &str) -> (r: InputLine)
    ensures
        ({
            let t = trim_of(line@);
            if t.len() > 0 && t[0] == '!' {
                match parse_spec(t.drop_first()) {
                    Some((ty, a)) => r matches InputLine::Command((rt, ra)) && rt == ty && ra@ == a,
                    None => r is Unknown,
                }
            } else {
                r matches InputLine::Text(s) && s@ == t
            }
        }),
{
    let t = trimmed(line);
    let n = t.unicode_len();
    if n > 0 && t.get_char(0) == '!' {
        let rest = t.substring_char(1, n);
        assert(rest@ =~= t@.drop_first());
        match Command::parse(rest) {
            Some(c) => InputLine::Command(c),
            None => InputLine::Unknown,
        }
    } else {
        InputLine::Text(String::from_str(t))
    }
}

} // verus!
