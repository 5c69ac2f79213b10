//! The error type of the library.
use vstd::prelude::*;
use crate::text::{push_str, string_of};
use crate::utils::{decimal, push_decimal};

verus! {

/// What went wrong, without the text that explains it.
#[derive(PartialEq, Eq, Structural, Clone, Copy, Debug)]
pub enum ErrorKind {
    Syntax,
    InvalidToken,
    UnexpectedEof,
    Type,
    UnclosedString,
    UnexpectedCharacter,
    File,
    Runtime,
    Validation,
}

/// The machine-checkable part of an error: its kind, its code, the place
/// it was found (0 where no place applies), whether it is the syntax error
/// that tells to close an if-block with `endif`, and the character an
/// unexpected-character error is about.
pub struct Fault {
    pub kind: ErrorKind,
    pub code: u32,
    pub line: nat,
    pub column: nat,
    pub endif_hint: bool,
    pub culprit: Option<char>,
}

pub open spec fn fault(kind: ErrorKind, code: u32, line: nat, column: nat) -> Fault {
    Fault { kind, code, line, column, endif_hint: false, culprit: None }
}

/// The hint of the syntax error for `end` inside an if-block.
pub open spec fn endif_hint_text() -> Seq<char> {
    "Use 'endif' to close if-blocks"@
}

/// Syntax error 214 at a place, telling to use `endif`.
pub open spec fn endif_fault(line: nat, column: nat) -> Fault {
    Fault { kind: ErrorKind::Syntax, code: 214, line, column, endif_hint: true, culprit: None }
}

/// Error 104 at a place, about the character `c`.
pub open spec fn character_fault(c: char, line: nat, column: nat) -> Fault {
    Fault { kind: ErrorKind::UnexpectedCharacter, code: 104, line, column, endif_hint: false, culprit: Some(c) }
}

pub open spec fn is_endif_hint(code: Option<u32>, hint: Option<String>) -> bool {
    code == Some(214u32) && (hint matches Some(h) && h@ == endif_hint_text())
}

/// The error is syntax error 214 whose hint tells to close the if-block
/// with `endif`.
pub open spec fn tells_to_use_endif(e: RuneError) -> bool {
    e matches RuneError::SyntaxError { code: Some(c), hint: Some(h), .. } && c == 214 && h@ == endif_hint_text()
}

/// Whether a code and a hint given as text make the `endif` syntax error.
pub open spec fn asks_for_endif(code: u32, hint: Option<&str>) -> bool {
    code == 214 && (hint matches Some(h) && h@ == endif_hint_text())
}

/// An error raised while lexing, parsing, resolving or converting.
#[derive(Debug, Clone, PartialEq)]
pub enum RuneError {
    SyntaxError { message: String, line: usize, column: usize, hint: Option<String>, code: Option<u32> },
    InvalidToken { token: String, line: usize, column: usize, hint: Option<String>, code: Option<u32> },
    UnexpectedEof { message: String, line: usize, column: usize, hint: Option<String>, code: Option<u32> },
    TypeError { message: String, line: usize, column: usize, hint: Option<String>, code: Option<u32> },
    /// A string or regex literal that is not closed.
    UnclosedString { quote: char, line: usize, column: usize, hint: Option<String>, code: Option<u32> },
    /// A character outside the grammar.
    UnexpectedCharacter { character: char, line: usize, column: usize, hint: Option<String>, code: Option<u32> },
    FileError { message: String, path: String, hint: Option<String>, code: Option<u32> },
    /// A runtime issue, such as a missing environment variable.
    RuntimeError { message: String, hint: Option<String>, code: Option<u32> },
    /// A resolved value that fails a caller's check.
    ValidationError { message: String, line: usize, column: usize, hint: Option<String>, code: Option<u32> },
}

pub open spec fn code_or_zero(c: Option<u32>) -> u32 {
    match c {
        Some(v) => v,
        None => 0,
    }
}

impl RuneError {
    pub open spec fn fault(&self) -> Fault {
        match self {
            RuneError::SyntaxError { line, column, code, hint, .. } => Fault {
                kind: ErrorKind::Syntax,
                code: code_or_zero(*code),
                line: *line as nat,
                column: *column as nat,
                endif_hint: is_endif_hint(*code, *hint),
                culprit: None,
            },
            RuneError::InvalidToken { line, column, code, .. } => fault(
                ErrorKind::InvalidToken,
                code_or_zero(*code),
                *line as nat,
                *column as nat,
            ),
            RuneError::UnexpectedEof { line, column, code, .. } => fault(
                ErrorKind::UnexpectedEof,
                code_or_zero(*code),
                *line as nat,
                *column as nat,
            ),
            RuneError::TypeError { line, column, code, .. } => fault(
                ErrorKind::Type,
                code_or_zero(*code),
                *line as nat,
                *column as nat,
            ),
            RuneError::UnclosedString { line, column, code, .. } => fault(
                ErrorKind::UnclosedString,
                code_or_zero(*code),
                *line as nat,
                *column as nat,
            ),
            RuneError::UnexpectedCharacter { character, line, column, code, .. } => Fault {
                kind: ErrorKind::UnexpectedCharacter,
                code: code_or_zero(*code),
                line: *line as nat,
                column: *column as nat,
                endif_hint: false,
                culprit: Some(*character),
            },
            RuneError::FileError { code, .. } => fault(ErrorKind::File, code_or_zero(*code), 0, 0),
            RuneError::RuntimeError { code, .. } => fault(
                ErrorKind::Runtime,
                code_or_zero(*code),
                0,
                0,
            ),
            RuneError::ValidationError { line, column, code, .. } => fault(
                ErrorKind::Validation,
                code_or_zero(*code),
                *line as nat,
                *column as nat,
            ),
        }
    }

    /// A syntax error with a message, a place, an optional hint and a code.
    pub fn syntax(message: &str, line: usize, column: usize, hint: Option<&str>, code: u32) -> (r: Self)
        ensures
            !asks_for_endif(code, hint) ==> r.fault() == fault(
                ErrorKind::Syntax,
                code,
                line as nat,
                column as nat,
            ),
            asks_for_endif(code, hint) ==> r.fault() == endif_fault(
                line as nat,
                column as nat,
            ),
            r matches RuneError::SyntaxError { hint: hr, .. } && (hr is Some <==> hint is Some) && (hint is Some
                ==> hr->0@ == hint->0@),
    {
        RuneError::SyntaxError {
            message: message.to_string(),
            line,
            column,
            hint: opt_string(hint),
            code: Some(code),
        }
    }

    /// An error for a token that does not fit where it stands.
    pub fn invalid_token(token: String, line: usize, column: usize, hint: &str, code: u32) -> (r: Self)
        ensures
            r.fault() == fault(ErrorKind::InvalidToken, code, line as nat, column as nat),
    {
        RuneError::InvalidToken { token, line, column, hint: Some(hint.to_string()), code: Some(code) }
    }

    /// A type error: a value of the wrong shape or out of range.
    pub fn type_error(message: String, line: usize, column: usize, hint: Option<&str>, code: u32) -> (r: Self)
        ensures
            r.fault() == fault(ErrorKind::Type, code, line as nat, column as nat),
            r matches RuneError::TypeError { message: m, .. } && m == message,
    {
        RuneError::TypeError { message, line, column, hint: opt_string(hint), code: Some(code) }
    }

    /// A runtime error, such as a missing environment variable.
    pub fn runtime(message: String, hint: &str, code: u32) -> (r: Self)
        ensures
            r.fault() == fault(ErrorKind::Runtime, code, 0, 0),
    {
        RuneError::RuntimeError { message, hint: Some(hint.to_string()), code: Some(code) }
    }

    /// An error about a file that could not be read.
    pub fn file_error(message: String, path: String) -> (r: Self)
        ensures
            r.fault() == fault(ErrorKind::File, 300, 0, 0),
            r matches RuneError::FileError { message: m, path: p, hint: Some(h), .. } && m == message && p == path
                && h@ == "Check file path and permissions"@,
    {
        RuneError::FileError {
            message,
            path,
            hint: Some("Check file path and permissions".to_string()),
            code: Some(300),
        }
    }

    /// The numeric code that identifies the error, if it has one.
    pub fn code(&self) -> (r: Option<u32>)
        ensures
            r is Some ==> r->0 == self.fault().code,
            r is None ==> self.fault().code == 0,
    {
        match self {
            RuneError::SyntaxError { code, .. } => *code,
            RuneError::InvalidToken { code, .. } => *code,
            RuneError::UnexpectedEof { code, .. } => *code,
            RuneError::TypeError { code, .. } => *code,
            RuneError::UnclosedString { code, .. } => *code,
            RuneError::UnexpectedCharacter { code, .. } => *code,
            RuneError::FileError { code, .. } => *code,
            RuneError::RuntimeError { code, .. } => *code,
            RuneError::ValidationError { code, .. } => *code,
        }
    }
}

/// ` Hint: <hint>` and ` Code: <code>`, for those the error has.
pub open spec fn suffix_text(hint: Option<String>, code: Option<u32>) -> Seq<char> {
    (match hint {
        Some(h) => " Hint: "@ + h@,
        None => Seq::empty(),
    }) + (match code {
        Some(c) => " Code: "@ + decimal(c as nat),
        None => Seq::empty(),
    })
}

pub open spec fn place_text(line: usize, column: usize) -> Seq<char> {
    decimal(line as nat) + ":"@ + decimal(column as nat)
}

impl RuneError {
    /// The printable form of the error: what went wrong, where, the hint
    /// and the code.
    pub open spec fn text_spec(&self) -> Seq<char> {
        match self {
            RuneError::SyntaxError { message, line, column, hint, code } => "[RUNE] Syntax Error at "@ + place_text(
                *line,
                *column,
            ) + ": "@ + message@ + suffix_text(*hint, *code),
            RuneError::InvalidToken { token, line, column, hint, code } => "[RUNE] Invalid Token '"@ + token@
                + "' at "@ + place_text(*line, *column) + suffix_text(*hint, *code),
            RuneError::UnexpectedEof { message, line, column, hint, code } => "[RUNE] Unexpected EOF at "@
                + place_text(*line, *column) + ": "@ + message@ + suffix_text(*hint, *code),
            RuneError::TypeError { message, line, column, hint, code } => "[RUNE] Type Error at "@ + place_text(
                *line,
                *column,
            ) + ": "@ + message@ + suffix_text(*hint, *code),
            RuneError::UnclosedString { quote, line, column, hint, code } =>
                "[RUNE] Unclosed string starting with '"@ + seq![*quote] + "' at "@ + place_text(*line, *column)
                + suffix_text(*hint, *code),
            RuneError::UnexpectedCharacter { character, line, column, hint, code } =>
                "[RUNE] Unexpected character '"@ + seq![*character] + "' at "@ + place_text(*line, *column)
                + suffix_text(*hint, *code),
            RuneError::FileError { message, path, hint, code } => "[RUNE] File Error '"@ + path@ + "': "@
                + message@ + suffix_text(*hint, *code),
            RuneError::RuntimeError { message, hint, code } => "[RUNE] Runtime Error: "@ + message@ + suffix_text(
                *hint,
                *code,
            ),
            RuneError::ValidationError { message, line, column, hint, code } => "[RUNE] Validation Error at "@
                + place_text(*line, *column) + ": "@ + message@ + suffix_text(*hint, *code),
        }
    }

    /// The printable form of the error.
    pub fn render(&self) -> (r: String)
        ensures
            r@ == self.text_spec(),
    {
        let mut out: Vec<char> = Vec::new();
        match self {
            RuneError::SyntaxError { message, line, column, hint, code } => {
                push_str(&mut out, "[RUNE] Syntax Error at ");
                push_place(&mut out, *line, *column);
                push_str(&mut out, ": ");
                push_str(&mut out, message.as_str());
                push_suffix(&mut out, hint, *code);
            },
            RuneError::InvalidToken { token, line, column, hint, code } => {
                push_str(&mut out, "[RUNE] Invalid Token '");
                push_str(&mut out, token.as_str());
                push_str(&mut out, "' at ");
                push_place(&mut out, *line, *column);
                push_suffix(&mut out, hint, *code);
            },
            RuneError::UnexpectedEof { message, line, column, hint, code } => {
                push_str(&mut out, "[RUNE] Unexpected EOF at ");
                push_place(&mut out, *line, *column);
                push_str(&mut out, ": ");
                push_str(&mut out, message.as_str());
                push_suffix(&mut out, hint, *code);
            },
            RuneError::TypeError { message, line, column, hint, code } => {
                push_str(&mut out, "[RUNE] Type Error at ");
                push_place(&mut out, *line, *column);
                push_str(&mut out, ": ");
                push_str(&mut out, message.as_str());
                push_suffix(&mut out, hint, *code);
            },
            RuneError::UnclosedString { quote, line, column, hint, code } => {
                push_str(&mut out, "[RUNE] Unclosed string starting with '");
                out.push(*quote);
                push_str(&mut out, "' at ");
                push_place(&mut out, *line, *column);
                push_suffix(&mut out, hint, *code);
            },
            RuneError::UnexpectedCharacter { character, line, column, hint, code } => {
                push_str(&mut out, "[RUNE] Unexpected character '");
                out.push(*character);
                push_str(&mut out, "' at ");
                push_place(&mut out, *line, *column);
                push_suffix(&mut out, hint, *code);
            },
            RuneError::FileError { message, path, hint, code } => {
                push_str(&mut out, "[RUNE] File Error '");
                push_str(&mut out, path.as_str());
                push_str(&mut out, "': ");
                push_str(&mut out, message.as_str());
                push_suffix(&mut out, hint, *code);
            },
            RuneError::RuntimeError { message, hint, code } => {
                push_str(&mut out, "[RUNE] Runtime Error: ");
                push_str(&mut out, message.as_str());
                push_suffix(&mut out, hint, *code);
            },
            RuneError::ValidationError { message, line, column, hint, code } => {
                push_str(&mut out, "[RUNE] Validation Error at ");
                push_place(&mut out, *line, *column);
                push_str(&mut out, ": ");
                push_str(&mut out, message.as_str());
                push_suffix(&mut out, hint, *code);
            },
        }
        assert(out@ =~= self.text_spec());
        string_of(&out)
    }
}

fn push_place(out: &mut Vec<char>, line: usize, column: usize)
    ensures
        final(out)@ == old(out)@ + place_text(line, column),
{
    push_decimal(out, line as u128);
    push_str(out, ":");
    push_decimal(out, column as u128);
    assert(final(out)@ =~= old(out)@ + place_text(line, column));
}

fn push_suffix(out: &mut Vec<char>, hint: &Option<String>, code: Option<u32>)
    ensures
        final(out)@ == old(out)@ + suffix_text(*hint, code),
{
    let ghost start = out@;
    match hint {
        Some(h) => {
            push_str(out, " Hint: ");
            push_str(out, h.as_str());
        },
        None => {},
    }
    let ghost mid = out@;
    match code {
        Some(c) => {
            push_str(out, " Code: ");
            push_decimal(out, c as u128);
        },
        None => {},
    }
    assert(out@ =~= start + suffix_text(*hint, code));
}

fn opt_string(s: Option<&str>) -> (r: Option<String>)
    ensures
        r is Some <==> s is Some,
        r is Some ==> r->0@ == s->0@,
{
    match s {
        Some(t) => Some(t.to_string()),
        None => None,
    }
}

} // verus!
