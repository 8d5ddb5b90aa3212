//! Reading one line at the prompt: session commands are recognized before
//! anything is handed to the tokenizer.

use vstd::prelude::*;
use crate::chars::{is_space, str_eq};
use crate::errors::InputError;

verus! {

/// A line read at the prompt: quit the session, toggle debug output, or
/// evaluate the text.
#[derive(Debug, PartialEq)]
pub enum Command {
    Exit,
    Debug,
    Evaluate(String),
}

/// The image of a command.
pub enum CommandV {
    Exit,
    Debug,
    Evaluate(Seq<char>),
}

impl View for Command {
    type V = CommandV;

    open spec fn view(&self) -> CommandV {
        match self {
            Command::Exit => CommandV::Exit,
            Command::Debug => CommandV::Debug,
            Command::Evaluate(s) => CommandV::Evaluate(s@),
        }
    }
}

/// Index of the first non-whitespace character at or after `i`, or the
/// length.
pub open spec fn first_nonspace(s: Seq<char>, i: int) -> int
    decreases s.len() - i when 0 <= i <= s.len()
{
    if i < s.len() && is_space(s[i]) {
        first_nonspace(s, i + 1)
    } else {
        i
    }
}

/// One past the last non-whitespace character strictly before `j`, or zero.
pub open spec fn last_nonspace(s: Seq<char>, j: int) -> int
    decreases j when 0 <= j <= s.len()
{
    if j > 0 && is_space(s[j - 1]) {
        last_nonspace(s, j - 1)
    } else {
        j
    }
}

/// The text with leading and trailing whitespace removed.
pub open spec fn spec_trim(s: Seq<char>) -> Seq<char> {
    let a = first_nonspace(s, 0);
    let b = last_nonspace(s, s.len() as int);
    if a <= b {
        s.subrange(a, b)
    } else {
        Seq::empty()
    }
}

/// What reading one line means: the trimmed text "exit" quits, "debug" or
/// "dbg" toggles debug output, an empty line is rejected, and anything else
/// is handed on for evaluation.
pub open spec fn spec_parse_command(s: Seq<char>) -> Result<CommandV, InputError> {
    let t = spec_trim(s);
    if t == "exit"@ {
        Ok(CommandV::Exit)
    } else if t == "debug"@ || t == "dbg"@ {
        Ok(CommandV::Debug)
    } else if t.len() == 0 {
        Err(InputError::EmptyInput)
    } else {
        Ok(CommandV::Evaluate(t))
    }
}

fn first_nonspace_exec(s: &str, i: usize) -> (r: usize)
    requires
        i <= s@.len(),
    ensures
        r as int == first_nonspace(s@, i as int),
        i <= r <= s@.len(),
    decreases s@.len() - i,
{
    let n = s.unicode_len();
    if i < n && s.get_char(i).is_whitespace() {
        first_nonspace_exec(s, i + 1)
    } else {
        i
    }
}

fn last_nonspace_exec(s: &str, j: usize) -> (r: usize)
    requires
        j <= s@.len(),
    ensures
        r as int == last_nonspace(s@, j as int),
        r <= j,
    decreases j,
{
    if j > 0 && s.get_char(j - 1).is_whitespace() {
        last_nonspace_exec(s, j - 1)
    } else {
        j
    }
}

/// Classifies one line read at the prompt.
pub fn parse_command(input: String) -> (r: Result<Command, InputError>)
    ensures
        match spec_parse_command(input@) {
            Ok(c) => r matches Ok(cmd) && cmd@ == c,
            Err(e) => r matches Err(x) && x == e,
        },
{
    let s = input.as_str();
    let n = s.unicode_len();
    let a = first_nonspace_exec(s, 0);
    let b = last_nonspace_exec(s, n);
    let t: String = if a <= b {
        s.substring_char(a, b).to_owned()
    } else {
        String::new()
    };
    if str_eq(t.as_str(), "exit") {
        Ok(Command::Exit)
    } else if str_eq(t.as_str(), "debug") || str_eq(t.as_str(), "dbg") {
        Ok(Command::Debug)
    } else if t.as_str().is_empty() {
        Err(InputError::EmptyInput)
    } else {
        Ok(Command::Evaluate(t))
    }
}

} // verus!
