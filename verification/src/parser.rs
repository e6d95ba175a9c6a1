//! The command language of the terminal.
use vstd::prelude::*;
use vstd::string::*;

use crate::text::{chars_of, lowercase_of, split_whitespace, string_of, to_lowercase, trim, trim_chars, views_of, words};

verus! {

/// A command line, as the terminal understands it.
#[derive(Debug, PartialEq, Eq)]
pub enum ParsedCommand {
    Status,
    Help,
    ToggleDoor(String),
    SetPower(String, String),
    Repair(String),
    Unknown(String),
    Empty,
}

/// The meaning of a [`ParsedCommand`], with its texts as character sequences.
pub enum CommandMeaning {
    Status,
    Help,
    ToggleDoor(Seq<char>),
    SetPower(Seq<char>, Seq<char>),
    Repair(Seq<char>),
    Unknown(Seq<char>),
    Empty,
}

impl View for ParsedCommand {
    type V = CommandMeaning;

    open spec fn view(&self) -> CommandMeaning {
        match self {
            ParsedCommand::Status => CommandMeaning::Status,
            ParsedCommand::Help => CommandMeaning::Help,
            ParsedCommand::ToggleDoor(d) => CommandMeaning::ToggleDoor(d@),
            ParsedCommand::SetPower(r, s) => CommandMeaning::SetPower(r@, s@),
            ParsedCommand::Repair(r) => CommandMeaning::Repair(r@),
            ParsedCommand::Unknown(c) => CommandMeaning::Unknown(c@),
            ParsedCommand::Empty => CommandMeaning::Empty,
        }
    }
}

/// The `i`-th word of `ws`, or the empty text where there is none.
pub open spec fn word_or_empty(ws: Seq<Seq<char>>, i: int) -> Seq<char> {
    if 0 <= i < ws.len() {
        ws[i]
    } else {
        Seq::empty()
    }
}

/// The meaning of a command line that is already trimmed and in lower case:
/// its first word names the command, the following words are its arguments,
/// and a missing argument reads as the empty text.
pub open spec fn parse_lowered_spec(l: Seq<char>) -> CommandMeaning {
    let ws = words(l);
    let cmd = word_or_empty(ws, 0);
    if l.len() == 0 {
        CommandMeaning::Empty
    } else if cmd == "status"@ {
        CommandMeaning::Status
    } else if cmd == "help"@ {
        CommandMeaning::Help
    } else if cmd == "door"@ {
        CommandMeaning::ToggleDoor(word_or_empty(ws, 1))
    } else if cmd == "power"@ {
        CommandMeaning::SetPower(word_or_empty(ws, 1), word_or_empty(ws, 2))
    } else if cmd == "repair"@ {
        CommandMeaning::Repair(word_or_empty(ws, 1))
    } else {
        CommandMeaning::Unknown(cmd)
    }
}

/// The meaning of a command line as typed: it is trimmed, then put in lower
/// case, then read by [`parse_lowered_spec`].
pub open spec fn parse_command_spec(input: Seq<char>) -> CommandMeaning {
    parse_lowered_spec(lowercase_of(trim(input)))
}

/// Whether the characters of `w` are those of `lit`.
pub fn chars_equal_str(w: &Vec<char>, lit: &str) -> (r: bool)
    ensures
        r == (w@ == lit@),
{
    let n = lit.unicode_len();
    if w.len() != n {
        return false;
    }
    let mut i: usize = 0;
    while i < n
        invariant
            n == lit@.len() == w@.len(),
            i <= n,
            forall|k: int| 0 <= k < i ==> w@[k] == lit@[k],
        decreases n - i,
    {
        if w[i] != lit.get_char(i) {
            return false;
        }
        i = i + 1;
    }
    assert(w@ == lit@);
    true
}

fn word_at(ws: &Vec<Vec<char>>, i: usize) -> (r: String)
    ensures
        r@ == word_or_empty(views_of(ws@), i as int),
{
    if i < ws.len() {
        string_of(ws[i].as_slice())
    } else {
        String::new()
    }
}

/// Reads a command line that is already trimmed and in lower case.
pub fn parse_lowered(l: &str) -> (r: ParsedCommand)
    ensures
        r@ == parse_lowered_spec(l@),
{
    let chars = chars_of(l);
    if chars.len() == 0 {
        return ParsedCommand::Empty;
    }
    let ws = split_whitespace(&chars);
    let ghost wsv = views_of(ws@);
    let empty: Vec<char> = Vec::new();
    let cmd: &Vec<char> = if ws.len() > 0 {
        &ws[0]
    } else {
        &empty
    };
    assert(cmd@ == word_or_empty(wsv, 0));
    if chars_equal_str(cmd, "status") {
        ParsedCommand::Status
    } else if chars_equal_str(cmd, "help") {
        ParsedCommand::Help
    } else if chars_equal_str(cmd, "door") {
        ParsedCommand::ToggleDoor(word_at(&ws, 1))
    } else if chars_equal_str(cmd, "power") {
        let room = word_at(&ws, 1);
        let state = word_at(&ws, 2);
        ParsedCommand::SetPower(room, state)
    } else if chars_equal_str(cmd, "repair") {
        ParsedCommand::Repair(word_at(&ws, 1))
    } else {
        ParsedCommand::Unknown(string_of(cmd.as_slice()))
    }
}

/// Reads a command line as typed: trims it, puts it in lower case and reads
/// the result.
pub fn parse_command(input: &str) -> (r: ParsedCommand)
    ensures
        r@ == parse_command_spec(input@),
{
    let chars = chars_of(input);
    let trimmed = trim_chars(&chars);
    let trimmed_text = string_of(trimmed.as_slice());
    let lowered = to_lowercase(trimmed_text.as_str());
    parse_lowered(lowered.as_str())
}

} // verus!
