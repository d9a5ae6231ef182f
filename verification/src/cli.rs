//! Command names of the tracker's command line and their parsing.
//!
//! A command is entered as a single word and matched without regard to
//! ASCII case: each command has a one-letter alias and a full name.

use vstd::prelude::*;

verus! {

/// Errors of the command layer: an unreadable input stream, or a word
/// that names no command.
#[derive(Debug, PartialEq, Eq, Structural, Clone, Copy)]
pub enum CLIError {
    IOException,
    InvalidCommand,
}

/// The commands the tracker understands.
#[derive(Debug, PartialEq, Eq, Structural, Clone, Copy)]
pub enum Command {
    Help,
    Quit,
    Create,
    Read,
    Update,
    Delete,
    List,
    Next,
}

/// The lowercase form of an ASCII uppercase letter; every other
/// character stays as it is.
pub open spec fn lower_char(c: char) -> char {
    match c {
        'A' => 'a',
        'B' => 'b',
        'C' => 'c',
        'D' => 'd',
        'E' => 'e',
        'F' => 'f',
        'G' => 'g',
        'H' => 'h',
        'I' => 'i',
        'J' => 'j',
        'K' => 'k',
        'L' => 'l',
        'M' => 'm',
        'N' => 'n',
        'O' => 'o',
        'P' => 'p',
        'Q' => 'q',
        'R' => 'r',
        'S' => 's',
        'T' => 't',
        'U' => 'u',
        'V' => 'v',
        'W' => 'w',
        'X' => 'x',
        'Y' => 'y',
        'Z' => 'z',
        _ => c,
    }
}

/// A character sequence with every ASCII uppercase letter lowered.
pub open spec fn lowered(s: Seq<char>) -> Seq<char> {
    s.map_values(|c: char| lower_char(c))
}

/// The command a word parses to: each command is named by a one-letter
/// alias or its full name, matched without regard to ASCII case; any
/// other word is rejected.
pub open spec fn parsed_command(s: Seq<char>) -> Result<Command, CLIError> {
    let l = lowered(s);
    if l == "h"@ || l == "help"@ {
        Ok(Command::Help)
    } else if l == "q"@ || l == "quit"@ {
        Ok(Command::Quit)
    } else if l == "a"@ || l == "add"@ {
        Ok(Command::Create)
    } else if l == "d"@ || l == "delete"@ {
        Ok(Command::Delete)
    } else if l == "p"@ || l == "print"@ {
        Ok(Command::List)
    } else if l == "c"@ || l == "change"@ {
        Ok(Command::Update)
    } else if l == "r"@ || l == "read"@ {
        Ok(Command::Read)
    } else if l == "n"@ || l == "next"@ {
        Ok(Command::Next)
    } else {
        Err(CLIError::InvalidCommand)
    }
}

/// Lowers one character, as `lower_char` describes.
fn to_lower(c: char) -> (r: char)
    ensures
        r == lower_char(c),
{
    match c {
        'A' => 'a',
        'B' => 'b',
        'C' => 'c',
        'D' => 'd',
        'E' => 'e',
        'F' => 'f',
        'G' => 'g',
        'H' => 'h',
        'I' => 'i',
        'J' => 'j',
        'K' => 'k',
        'L' => 'l',
        'M' => 'm',
        'N' => 'n',
        'O' => 'o',
        'P' => 'p',
        'Q' => 'q',
        'R' => 'r',
        'S' => 's',
        'T' => 't',
        'U' => 'u',
        'V' => 'v',
        'W' => 'w',
        'X' => 'x',
        'Y' => 'y',
        'Z' => 'z',
        _ => c,
    }
}

/// Whether the word, lowered, equals the (already lowercase) pattern.
fn lowered_matches(s: &str, pattern: &str) -> (r: bool)
    ensures
        r == (lowered(s@) == pattern@),
{
    let n = s.unicode_len();
    if n != pattern.unicode_len() {
        assert(lowered(s@).len() != pattern@.len());
        return false;
    }
    let mut i: usize = 0;
    while i < n
        invariant
            n == s@.len(),
            n == pattern@.len(),
            i <= n,
            forall|j: int| 0 <= j < i ==> lowered(s@)[j] == pattern@[j],
        decreases n - i,
    {
        let c = to_lower(s.get_char(i));
        if c != pattern.get_char(i) {
            assert(lowered(s@)[i as int] != pattern@[i as int]);
            return false;
        }
        i += 1;
    }
    proof {
        assert(lowered(s@) =~= pattern@);
    }
    true
}

/// Parses one entered word into a command, as `parsed_command`
/// describes.
pub fn parse_command(input: &str) -> (r: Result<Command, CLIError>)
    ensures
        r == parsed_command(input@),
{
    if lowered_matches(input, "h") || lowered_matches(input, "help") {
        Ok(Command::Help)
    } else if lowered_matches(input, "q") || lowered_matches(input, "quit") {
        Ok(Command::Quit)
    } else if lowered_matches(input, "a") || lowered_matches(input, "add") {
        Ok(Command::Create)
    } else if lowered_matches(input, "d") || lowered_matches(input, "delete") {
        Ok(Command::Delete)
    } else if lowered_matches(input, "p") || lowered_matches(input, "print") {
        Ok(Command::List)
    } else if lowered_matches(input, "c") || lowered_matches(input, "change") {
        Ok(Command::Update)
    } else if lowered_matches(input, "r") || lowered_matches(input, "read") {
        Ok(Command::Read)
    } else if lowered_matches(input, "n") || lowered_matches(input, "next") {
        Ok(Command::Next)
    } else {
        Err(CLIError::InvalidCommand)
    }
}

} // verus!
