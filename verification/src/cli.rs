//! Decisions of the `lotus` command-line entry point:
//!
//! ```text
//! lotus lex   <file.lt>     tokenize and print tokens
//! lotus parse <file.lt>     parse and print the AST
//! ```
//!
//! With fewer than two arguments it prints the usage and exits with 2. It
//! then reads the file (exit 1 when it cannot), and runs the command; an
//! unknown command prints a message and the usage and exits with 2.
use vstd::prelude::*;
use crate::decimal::{digits_of, u64_text};

verus! {

#[derive(Debug, Clone, Copy, PartialEq, Eq)]
pub enum CliCommand {
    Lex,
    Parse,
}

/// Exit status after printing the usage.
pub const EXIT_USAGE: u8 = 2;

/// Exit status when the file cannot be read, or lexing or parsing fails.
pub const EXIT_FAILURE: u8 = 1;

/// What the arguments ask for: `None` when there are too few (usage), else
/// the command word and the file path.
pub fn cli_request(args: &[String]) -> (r: Option<(&String, &String)>)
    ensures
        match r {
            None => args@.len() < 3,
            Some((cmd, path)) => args@.len() >= 3 && *cmd == args@[1] && *path == args@[2],
        },
{
    if args.len() < 3 {
        None
    } else {
        Some((&args[1], &args[2]))
    }
}

/// The command a word names.
pub fn command_of(cmd: &String) -> (r: Option<CliCommand>)
    ensures
        r == (if cmd@ == "lex"@ {
            Some(CliCommand::Lex)
        } else if cmd@ == "parse"@ {
            Some(CliCommand::Parse)
        } else {
            None
        }),
{
    let lex = String::from_str("lex");
    let parse = String::from_str("parse");
    if *cmd == lex {
        Some(CliCommand::Lex)
    } else if *cmd == parse {
        Some(CliCommand::Parse)
    } else {
        None
    }
}

/// The usage text, line by line.
pub fn usage_lines() -> (r: Vec<&'static str>)
    ensures
        r@.len() == 5,
        r@[0]@ == "lotus — lotus language CLI (Phase 1 milestone 1)"@,
        r@[1]@ == ""@,
        r@[2]@ == "Usage:"@,
        r@[3]@ == "    lotus lex   <file.lt>     tokenize and print tokens"@,
        r@[4]@ == "    lotus parse <file.lt>     parse and print the AST"@,
{
    let mut v: Vec<&'static str> = Vec::new();
    v.push("lotus — lotus language CLI (Phase 1 milestone 1)");
    v.push("");
    v.push("Usage:");
    v.push("    lotus lex   <file.lt>     tokenize and print tokens");
    v.push("    lotus parse <file.lt>     parse and print the AST");
    v
}

/// `n` spaces.
pub open spec fn spaces(n: nat) -> Seq<char> {
    Seq::new(n, |_i: int| ' ')
}

/// `s` right-aligned in a field of `width` characters.
pub open spec fn pad_left(s: Seq<char>, width: nat) -> Seq<char> {
    if s.len() < width {
        spaces((width - s.len()) as nat) + s
    } else {
        s
    }
}

/// `s` left-aligned in a field of `width` characters.
pub open spec fn pad_right(s: Seq<char>, width: nat) -> Seq<char> {
    if s.len() < width {
        s + spaces((width - s.len()) as nat)
    } else {
        s
    }
}

fn push_spaces(out: &mut String, n: usize)
    ensures
        final(out)@ == old(out)@ + spaces(n as nat),
{
    let ghost start = out@;
    let mut i: usize = 0;
    proof {
        reveal_strlit(" ");
        assert(out@ =~= start + spaces(0));
    }
    while i < n
        invariant
            i <= n,
            out@ == start + spaces(i as nat),
            " "@ == seq![' '],
        decreases n - i,
    {
        out.append(" ");
        proof {
            assert(out@ =~= start + spaces((i + 1) as nat));
        }
        i = i + 1;
    }
}

/// The line `lex` prints for a token: its line number right-aligned in 4
/// columns, `:`, its column left-aligned in 3 columns, a space, and the
/// token's kind.
pub fn token_line(line: usize, col: usize, kind: &str) -> (r: String)
    ensures
        r@ == pad_left(digits_of(line as nat), 4) + ":"@ + pad_right(digits_of(col as nat), 3) + " "@
            + kind@,
{
    let line_text = u64_text(line as u64);
    let col_text = u64_text(col as u64);
    let mut out = String::new();
    let lw = line_text.unicode_len();
    if lw < 4 {
        push_spaces(&mut out, 4 - lw);
    }
    out.append(line_text.as_str());
    out.append(":");
    out.append(col_text.as_str());
    let cw = col_text.unicode_len();
    if cw < 3 {
        push_spaces(&mut out, 3 - cw);
    }
    out.append(" ");
    out.append(kind);
    proof {
        assert(out@ =~= pad_left(digits_of(line as nat), 4) + ":"@ + pad_right(digits_of(col as nat), 3)
            + " "@ + kind@);
    }
    out
}

/// The message for a command word that is neither `lex` nor `parse`.
pub fn unknown_command_message(cmd: &str) -> (r: String)
    ensures
        r@ == "unknown command: "@ + cmd@,
{
    let mut out = String::from_str("unknown command: ");
    out.append(cmd);
    out
}

/// The message for a file that cannot be read.
pub fn read_error_message(path: &str, err: &str) -> (r: String)
    ensures
        r@ == "could not read "@ + path@ + ": "@ + err@,
{
    let mut out = String::from_str("could not read ");
    out.append(path);
    out.append(": ");
    out.append(err);
    out
}

} // verus!
