//! The lexer: turns text into tokens, one at a time.
use vstd::prelude::*;
use crate::error::{character_fault, fault, ErrorKind, Fault, RuneError};
use crate::number::{all_digits, strip_leading_zeros, strip_trailing_zeros, Number};
use crate::text::{alphabetic, alphanumeric, chars_of, is_alphabetic, is_alphanumeric, string_of};

verus! {

/// A token of the configuration language.
#[derive(Debug, Clone, PartialEq)]
pub enum Token {
    Ident(String),
    String(String),
    /// The source of a regex literal `r"..."`, backslashes kept.
    Regex(String),
    Number(Number),
    Bool(bool),
    Null,
    Colon,
    Equals,
    LBracket,
    RBracket,
    End,
    EndIf,
    Dollar,
    Dot,
    At,
    Gather,
    As,
    If,
    Else,
    ElseIf,
    Newline,
    Eof,
}

pub type Text = Seq<char>;

/// A token with its text as sequences.
pub enum TModel {
    Ident(Text),
    Str(Text),
    Regex(Text),
    Number(Seq<u8>, Seq<u8>),
    Bool(bool),
    Null,
    Colon,
    Equals,
    LBracket,
    RBracket,
    End,
    EndIf,
    Dollar,
    Dot,
    At,
    Gather,
    As,
    If,
    Else,
    ElseIf,
    Newline,
    Eof,
}

impl Token {
    pub open spec fn model(&self) -> TModel {
        match self {
            Token::Ident(s) => TModel::Ident(s@),
            Token::String(s) => TModel::Str(s@),
            Token::Regex(s) => TModel::Regex(s@),
            Token::Number(n) => TModel::Number(n.whole@, n.fraction@),
            Token::Bool(b) => TModel::Bool(*b),
            Token::Null => TModel::Null,
            Token::Colon => TModel::Colon,
            Token::Equals => TModel::Equals,
            Token::LBracket => TModel::LBracket,
            Token::RBracket => TModel::RBracket,
            Token::End => TModel::End,
            Token::EndIf => TModel::EndIf,
            Token::Dollar => TModel::Dollar,
            Token::Dot => TModel::Dot,
            Token::At => TModel::At,
            Token::Gather => TModel::Gather,
            Token::As => TModel::As,
            Token::If => TModel::If,
            Token::Else => TModel::Else,
            Token::ElseIf => TModel::ElseIf,
            Token::Newline => TModel::Newline,
            Token::Eof => TModel::Eof,
        }
    }
}

// ---------------------------------------------------------------------------
// What the lexer reads, stated over the characters of the input.

/// Line (from 1) and column (from 0) after the first `p` characters.
pub open spec fn loc(s: Text, p: nat) -> (nat, nat)
    decreases p,
{
    if p == 0 {
        (1, 0)
    } else {
        let (l, c) = loc(s, (p - 1) as nat);
        if s[p - 1 as int] == '\n' {
            (l + 1, 0)
        } else {
            (l, c + 1)
        }
    }
}

pub open spec fn is_dec_digit(c: char) -> bool {
    '0' <= c && c <= '9'
}

pub open spec fn ident_char(c: char) -> bool {
    alphanumeric(c) || c == '_' || c == '-'
}

/// The position of the first character at or after `p` that is not blank,
/// a comma, a comment or (when `skip_nl`) a newline. A comment runs from `#`
/// up to the next newline, which it leaves in place.
pub open spec fn skip_blank(s: Text, p: nat, skip_nl: bool, in_comment: bool) -> nat
    decreases s.len() - p, if in_comment { 1nat } else { 0nat },
{
    if p >= s.len() {
        p
    } else if in_comment {
        if s[p as int] == '\n' {
            skip_blank(s, p, skip_nl, false)
        } else {
            skip_blank(s, p + 1, skip_nl, true)
        }
    } else if s[p as int] == ' ' || s[p as int] == '\t' || s[p as int] == ',' || (s[p as int] == '\n'
        && skip_nl) {
        skip_blank(s, p + 1, skip_nl, false)
    } else if s[p as int] == '#' {
        skip_blank(s, p + 1, skip_nl, true)
    } else {
        p
    }
}

/// The character that `\c` stands for inside a string literal.
pub open spec fn unescape(c: char) -> char {
    if c == 'n' {
        '\n'
    } else if c == 't' {
        '\t'
    } else if c == 'r' {
        '\r'
    } else {
        c
    }
}

/// The body of a string literal from `i` on, closed by `quote`: its text and
/// the position after the closing quote, or `None` when the input ends first.
pub open spec fn string_scan(s: Text, i: nat, quote: char, acc: Text) -> Option<(Text, nat)>
    decreases s.len() - i,
{
    if i >= s.len() {
        None
    } else if s[i as int] == quote {
        Some((acc, i + 1))
    } else if s[i as int] == '\\' {
        if i + 1 < s.len() {
            string_scan(s, i + 2, quote, acc.push(unescape(s[i + 1 as int])))
        } else {
            None
        }
    } else {
        string_scan(s, i + 1, quote, acc.push(s[i as int]))
    }
}

/// The body of a regex literal from `i` on: a backslash and the character
/// after it are both kept.
pub open spec fn regex_scan(s: Text, i: nat, acc: Text) -> Option<(Text, nat)>
    decreases s.len() - i,
{
    if i >= s.len() {
        None
    } else if s[i as int] == '"' {
        Some((acc, i + 1))
    } else if s[i as int] == '\\' {
        if i + 1 < s.len() {
            regex_scan(s, i + 2, acc.push('\\').push(s[i + 1 as int]))
        } else {
            None
        }
    } else {
        regex_scan(s, i + 1, acc.push(s[i as int]))
    }
}

/// The end of a run of identifier characters starting at `i`.
pub open spec fn ident_end(s: Text, i: nat) -> nat
    decreases s.len() - i,
{
    if i < s.len() && ident_char(s[i as int]) {
        ident_end(s, i + 1)
    } else {
        i
    }
}

/// A run of digits and dots from `i`: the digits before the first dot, the
/// digits after it, the number of dots, and the end of the run.
pub open spec fn number_scan(s: Text, i: nat, whole: Seq<u8>, frac: Seq<u8>, dots: nat) -> (
    Seq<u8>,
    Seq<u8>,
    nat,
    nat,
)
    decreases s.len() - i,
{
    if i < s.len() && (is_dec_digit(s[i as int]) || s[i as int] == '.') {
        if s[i as int] == '.' {
            number_scan(s, i + 1, whole, frac, dots + 1)
        } else if dots == 0 {
            number_scan(s, i + 1, whole.push(digit_of(s[i as int])), frac, dots)
        } else {
            number_scan(s, i + 1, whole, frac.push(digit_of(s[i as int])), dots)
        }
    } else {
        (whole, frac, dots, i)
    }
}

pub open spec fn digit_of(c: char) -> u8 {
    (c as u32 - '0' as u32) as u8
}

/// The token that an identifier's text stands for: a keyword or an identifier.
pub open spec fn keyword(t: Text) -> TModel {
    if t == seq!['t', 'r', 'u', 'e'] {
        TModel::Bool(true)
    } else if t == seq!['f', 'a', 'l', 's', 'e'] {
        TModel::Bool(false)
    } else if t == seq!['e', 'n', 'd'] {
        TModel::End
    } else if t == seq!['e', 'n', 'd', 'i', 'f'] {
        TModel::EndIf
    } else if t == seq!['g', 'a', 't', 'h', 'e', 'r'] {
        TModel::Gather
    } else if t == seq!['a', 's'] {
        TModel::As
    } else if t == seq!['i', 'f'] {
        TModel::If
    } else if t == seq!['e', 'l', 's', 'e'] {
        TModel::Else
    } else if t == seq!['e', 'l', 's', 'e', 'i', 'f'] {
        TModel::ElseIf
    } else if t == seq!['n', 'u', 'l', 'l'] || t == seq!['N', 'o', 'n', 'e'] {
        TModel::Null
    } else {
        TModel::Ident(t)
    }
}

/// One step of the lexer: a token or a fault, and where the next step starts.
pub enum Lexeme {
    Tok(TModel, nat),
    Fail(Fault, nat),
}

pub open spec fn fail_at(s: Text, kind: ErrorKind, code: u32, p: nat) -> Lexeme {
    Lexeme::Fail(fault(kind, code, loc(s, p).0, loc(s, p).1), p)
}

/// The token that starts at `q`, where no blank precedes it.
pub open spec fn token_at(s: Text, q: nat) -> Lexeme {
    if q >= s.len() {
        Lexeme::Tok(TModel::Eof, q)
    } else {
        let c = s[q as int];
        if c == '\n' {
            Lexeme::Tok(TModel::Newline, q + 1)
        } else if c == ':' {
            Lexeme::Tok(TModel::Colon, q + 1)
        } else if c == '=' {
            Lexeme::Tok(TModel::Equals, q + 1)
        } else if c == '[' {
            Lexeme::Tok(TModel::LBracket, q + 1)
        } else if c == ']' {
            Lexeme::Tok(TModel::RBracket, q + 1)
        } else if c == '$' {
            Lexeme::Tok(TModel::Dollar, q + 1)
        } else if c == '.' {
            Lexeme::Tok(TModel::Dot, q + 1)
        } else if c == '@' {
            Lexeme::Tok(TModel::At, q + 1)
        } else if c == 'r' && q + 1 < s.len() && s[q + 1 as int] == '"' {
            match regex_scan(s, q + 2, Seq::empty()) {
                Some((t, e)) => Lexeme::Tok(TModel::Regex(t), e),
                None => fail_at(s, ErrorKind::UnclosedString, 103, s.len()),
            }
        } else if c == '"' || c == '\'' {
            match string_scan(s, q + 1, c, Seq::empty()) {
                Some((t, e)) => Lexeme::Tok(TModel::Str(t), e),
                None => fail_at(s, ErrorKind::UnclosedString, 103, s.len()),
            }
        } else if is_dec_digit(c) {
            let (w, f, dots, e) = number_scan(s, q, Seq::empty(), Seq::empty(), 0);
            if dots <= 1 {
                Lexeme::Tok(TModel::Number(strip_leading_zeros(w), strip_trailing_zeros(f)), e)
            } else {
                fail_at(s, ErrorKind::Type, 102, e)
            }
        } else if c == 'r' || alphabetic(c) {
            let e = ident_end(s, q + 1);
            Lexeme::Tok(keyword(s.subrange(q as int, e as int)), e)
        } else {
            Lexeme::Fail(character_fault(c, loc(s, q + 1).0, loc(s, q + 1).1), q + 1)
        }
    }
}

/// The next token from position `p`; newlines are skipped when `skip_nl`.
pub open spec fn next_token_spec(s: Text, p: nat, skip_nl: bool) -> Lexeme {
    token_at(s, skip_blank(s, p, skip_nl, false))
}

/// Whether `r` is what the lexer step `l` yields, with the lexer left at `p`.
pub open spec fn lexed(r: Result<Token, RuneError>, p: nat, l: Lexeme) -> bool {
    match l {
        Lexeme::Tok(t, q) => r is Ok && r->Ok_0.model() == t && p == q,
        Lexeme::Fail(f, q) => r is Err && r->Err_0.fault() == f && p == q,
    }
}

proof fn lemma_loc_bounds(s: Text, p: nat)
    ensures
        loc(s, p).0 <= p + 1,
        loc(s, p).1 <= p,
    decreases p,
{
    if p > 0 {
        lemma_loc_bounds(s, (p - 1) as nat);
    }
}

/// The lexer: a position in the input and the line and column it stands at.
pub struct Lexer {
    chars: Vec<char>,
    pos: usize,
    line: usize,
    column: usize,
}

impl Lexer {
    /// The input.
    pub closed spec fn text(&self) -> Text {
        self.chars@
    }

    /// How many characters have been consumed.
    pub closed spec fn position(&self) -> nat {
        self.pos as nat
    }

    pub closed spec fn wf(&self) -> bool {
        &&& self.pos <= self.chars.len()
        &&& self.chars.len() < usize::MAX
        &&& loc(self.chars@, self.pos as nat) == (self.line as nat, self.column as nat)
    }

    /// A lexer at the start of `input`.
    pub fn new(input: &str) -> (r: Lexer)
        requires
            input@.len() < usize::MAX,
        ensures
            r.wf(),
            r.text() == input@,
            r.position() == 0,
    {
        Lexer { chars: chars_of(input), pos: 0, line: 1, column: 0 }
    }

    /// The current line, from 1.
    pub fn line(&self) -> (r: usize)
        requires
            self.wf(),
        ensures
            r == loc(self.text(), self.position()).0,
    {
        self.line
    }

    /// The current column, from 0.
    pub fn column(&self) -> (r: usize)
        requires
            self.wf(),
        ensures
            r == loc(self.text(), self.position()).1,
    {
        self.column
    }

    fn peek_char(&self) -> (r: Option<char>)
        requires
            self.wf(),
        ensures
            self.pos < self.chars.len() ==> r == Some(self.chars@[self.pos as int]),
            self.pos >= self.chars.len() ==> r is None,
    {
        if self.pos < self.chars.len() {
            Some(self.chars[self.pos])
        } else {
            None
        }
    }

    /// Consume one character and keep the line and column up to date.
    fn bump(&mut self) -> (r: Option<char>)
        requires
            old(self).wf(),
        ensures
            final(self).wf(),
            final(self).chars@ == old(self).chars@,
            old(self).pos < old(self).chars.len() ==> r == Some(old(self).chars@[old(self).pos as int])
                && final(self).pos == old(self).pos + 1,
            old(self).pos >= old(self).chars.len() ==> r is None && final(self).pos == old(self).pos,
    {
        if self.pos < self.chars.len() {
            let c = self.chars[self.pos];
            proof {
                lemma_loc_bounds(self.chars@, self.pos as nat);
                assert(((self.pos + 1) as nat - 1) as nat == self.pos as nat);
            }
            if c == '\n' {
                self.line = self.line + 1;
                self.column = 0;
            } else {
                self.column = self.column + 1;
            }
            self.pos = self.pos + 1;
            Some(c)
        } else {
            None
        }
    }

    /// Skip blanks, commas, comments and (when `skip_nl`) newlines.
    fn skip_whitespace_and_comments(&mut self, skip_nl: bool)
        requires
            old(self).wf(),
        ensures
            final(self).wf(),
            final(self).chars@ == old(self).chars@,
            final(self).pos == skip_blank(old(self).chars@, old(self).pos as nat, skip_nl, false),
    {
        let ghost s = self.chars@;
        let ghost p0 = self.pos as nat;
        let mut in_comment = false;
        loop
            invariant
                self.wf(),
                self.chars@ == s,
                skip_blank(s, self.pos as nat, skip_nl, in_comment) == skip_blank(s, p0, skip_nl, false),
            ensures
                self.wf(),
                self.chars@ == s,
                self.pos == skip_blank(s, p0, skip_nl, false),
            decreases self.chars.len() - self.pos, if in_comment { 1nat } else { 0nat },
        {
            match self.peek_char() {
                None => {
                    break;
                },
                Some(c) => {
                    if in_comment {
                        if c == '\n' {
                            in_comment = false;
                        } else {
                            self.bump();
                        }
                    } else if c == ' ' || c == '\t' || c == ',' || (c == '\n' && skip_nl) {
                        self.bump();
                    } else if c == '#' {
                        self.bump();
                        in_comment = true;
                    } else {
                        break;
                    }
                },
            }
        }
    }

    /// The next token; newlines are tokens of their own.
    pub fn next_token(&mut self) -> (r: Result<Token, RuneError>)
        requires
            old(self).wf(),
        ensures
            final(self).wf(),
            final(self).text() == old(self).text(),
            lexed(r, final(self).position(), next_token_spec(old(self).text(), old(self).position(), false)),
    {
        self.next_token_with_flag(false)
    }

    /// The next token inside `[...]`, where newlines are skipped.
    pub fn next_token_in_array(&mut self) -> (r: Result<Token, RuneError>)
        requires
            old(self).wf(),
        ensures
            final(self).wf(),
            final(self).text() == old(self).text(),
            lexed(r, final(self).position(), next_token_spec(old(self).text(), old(self).position(), true)),
    {
        self.next_token_with_flag(true)
    }

    fn error_here(&self, kind: ErrorKind, c: char, hint: &str, code: u32) -> (r: RuneError)
        requires
            self.wf(),
            kind == ErrorKind::UnclosedString || kind == ErrorKind::UnexpectedCharacter,
        ensures
            kind == ErrorKind::UnclosedString ==> r.fault() == fault(
                kind,
                code,
                loc(self.chars@, self.pos as nat).0,
                loc(self.chars@, self.pos as nat).1,
            ),
            kind == ErrorKind::UnexpectedCharacter && code == 104 ==> r.fault() == character_fault(
                c,
                loc(self.chars@, self.pos as nat).0,
                loc(self.chars@, self.pos as nat).1,
            ),
    {
        if kind == ErrorKind::UnclosedString {
            RuneError::UnclosedString {
                quote: c,
                line: self.line,
                column: self.column,
                hint: Some(hint.to_string()),
                code: Some(code),
            }
        } else {
            RuneError::UnexpectedCharacter {
                character: c,
                line: self.line,
                column: self.column,
                hint: Some(hint.to_string()),
                code: Some(code),
            }
        }
    }

    fn next_token_with_flag(&mut self, skip_nl: bool) -> (r: Result<Token, RuneError>)
        requires
            old(self).wf(),
        ensures
            final(self).wf(),
            final(self).text() == old(self).text(),
            lexed(r, final(self).position(), next_token_spec(old(self).text(), old(self).position(), skip_nl)),
    {
        self.skip_whitespace_and_comments(skip_nl);
        let ghost s = self.chars@;
        let ghost q = self.pos as nat;
        let c = match self.peek_char() {
            None => {
                return Ok(Token::Eof);
            },
            Some(c) => c,
        };
        if c == '\n' {
            self.bump();
            Ok(Token::Newline)
        } else if c == ':' {
            self.bump();
            Ok(Token::Colon)
        } else if c == '=' {
            self.bump();
            Ok(Token::Equals)
        } else if c == '[' {
            self.bump();
            Ok(Token::LBracket)
        } else if c == ']' {
            self.bump();
            Ok(Token::RBracket)
        } else if c == '$' {
            self.bump();
            Ok(Token::Dollar)
        } else if c == '.' {
            self.bump();
            Ok(Token::Dot)
        } else if c == '@' {
            self.bump();
            Ok(Token::At)
        } else if c == 'r' && self.pos + 1 < self.chars.len() && self.chars[self.pos + 1] == '"' {
            self.bump();
            self.bump();
            self.lex_regex()
        } else if c == '"' || c == '\'' {
            self.bump();
            self.lex_string(c)
        } else if '0' <= c && c <= '9' {
            self.lex_number()
        } else if c == 'r' || is_alphabetic(c) {
            self.lex_ident()
        } else {
            self.bump();
            Err(self.error_here(ErrorKind::UnexpectedCharacter, c, "Unexpected character in input", 104))
        }
    }

    fn lex_string(&mut self, quote: char) -> (r: Result<Token, RuneError>)
        requires
            old(self).wf(),
        ensures
            final(self).wf(),
            final(self).chars@ == old(self).chars@,
            match string_scan(old(self).chars@, old(self).pos as nat, quote, Seq::empty()) {
                Some((t, e)) => r is Ok && r->Ok_0.model() == TModel::Str(t) && final(self).pos == e,
                None => lexed(
                    r,
                    final(self).pos as nat,
                    fail_at(old(self).chars@, ErrorKind::UnclosedString, 103, old(self).chars@.len()),
                ),
            },
    {
        let ghost s = self.chars@;
        let ghost p0 = self.pos as nat;
        let mut acc: Vec<char> = Vec::new();
        loop
            invariant
                self.wf(),
                self.chars@ == s,
                s == old(self).chars@,
                p0 == old(self).pos,
                string_scan(s, self.pos as nat, quote, acc@) == string_scan(s, p0, quote, Seq::empty()),
            decreases self.chars.len() - self.pos,
        {
            match self.peek_char() {
                None => {
                    return Err(self.error_here(ErrorKind::UnclosedString, quote, "String literal not closed", 103));
                },
                Some(ch) => {
                    if ch == quote {
                        self.bump();
                        return Ok(Token::String(string_of(&acc)));
                    } else if ch == '\\' {
                        self.bump();
                        match self.bump() {
                            Some(next) => {
                                acc.push(unescape_char(next));
                            },
                            None => {
                                return Err(
                                    self.error_here(ErrorKind::UnclosedString, quote, "Trailing backslash in string", 103),
                                );
                            },
                        }
                    } else {
                        acc.push(ch);
                        self.bump();
                    }
                },
            }
        }
    }

    fn lex_regex(&mut self) -> (r: Result<Token, RuneError>)
        requires
            old(self).wf(),
        ensures
            final(self).wf(),
            final(self).chars@ == old(self).chars@,
            match regex_scan(old(self).chars@, old(self).pos as nat, Seq::empty()) {
                Some((t, e)) => r is Ok && r->Ok_0.model() == TModel::Regex(t) && final(self).pos == e,
                None => lexed(
                    r,
                    final(self).pos as nat,
                    fail_at(old(self).chars@, ErrorKind::UnclosedString, 103, old(self).chars@.len()),
                ),
            },
    {
        let ghost s = self.chars@;
        let ghost p0 = self.pos as nat;
        let mut acc: Vec<char> = Vec::new();
        loop
            invariant
                self.wf(),
                self.chars@ == s,
                s == old(self).chars@,
                p0 == old(self).pos,
                regex_scan(s, self.pos as nat, acc@) == regex_scan(s, p0, Seq::empty()),
            decreases self.chars.len() - self.pos,
        {
            match self.bump() {
                None => {
                    return Err(self.error_here(ErrorKind::UnclosedString, '"', "Regex literal not closed", 103));
                },
                Some(ch) => {
                    if ch == '"' {
                        return Ok(Token::Regex(string_of(&acc)));
                    } else if ch == '\\' {
                        match self.bump() {
                            Some(next) => {
                                acc.push('\\');
                                acc.push(next);
                            },
                            None => {
                                return Err(
                                    self.error_here(ErrorKind::UnclosedString, '"', "Trailing backslash in regex", 103),
                                );
                            },
                        }
                    } else {
                        acc.push(ch);
                    }
                },
            }
        }
    }

    fn lex_ident(&mut self) -> (r: Result<Token, RuneError>)
        requires
            old(self).wf(),
            old(self).pos < old(self).chars.len(),
        ensures
            final(self).wf(),
            final(self).chars@ == old(self).chars@,
            r is Ok,
            final(self).pos == ident_end(old(self).chars@, (old(self).pos + 1) as nat),
            r->Ok_0.model() == keyword(old(self).chars@.subrange(old(self).pos as int, final(self).pos as int)),
    {
        let ghost s = self.chars@;
        let ghost p0 = self.pos as int;
        let mut acc: Vec<char> = Vec::new();
        let first = self.chars[self.pos];
        acc.push(first);
        self.bump();
        assert(acc@ =~= s.subrange(p0, self.pos as int));
        loop
            invariant
                self.wf(),
                self.chars@ == s,
                0 <= p0 < self.pos,
                ident_end(s, self.pos as nat) == ident_end(s, (p0 + 1) as nat),
                acc@ == s.subrange(p0, self.pos as int),
            ensures
                self.wf(),
                self.chars@ == s,
                self.pos == ident_end(s, (p0 + 1) as nat),
                acc@ == s.subrange(p0, self.pos as int),
            decreases self.chars.len() - self.pos,
        {
            match self.peek_char() {
                None => {
                    break;
                },
                Some(ch) => {
                    if is_alphanumeric(ch) || ch == '_' || ch == '-' {
                        let ghost before = self.pos as int;
                        acc.push(ch);
                        self.bump();
                        assert(s.subrange(p0, self.pos as int) =~= s.subrange(p0, before).push(ch));
                        assert(acc@ =~= s.subrange(p0, self.pos as int));
                    } else {
                        break;
                    }
                },
            }
        }
        Ok(keyword_token(acc))
    }

    fn lex_number(&mut self) -> (r: Result<Token, RuneError>)
        requires
            old(self).wf(),
        ensures
            final(self).wf(),
            final(self).chars@ == old(self).chars@,
            ({
                let (w, f, dots, e) = number_scan(old(self).chars@, old(self).pos as nat, Seq::empty(), Seq::empty(), 0);
                &&& final(self).pos == e
                &&& dots <= 1 ==> r is Ok && r->Ok_0.model() == TModel::Number(
                    strip_leading_zeros(w),
                    strip_trailing_zeros(f),
                )
                &&& dots > 1 ==> lexed(r, e, fail_at(old(self).chars@, ErrorKind::Type, 102, e))
            }),
    {
        let ghost s = self.chars@;
        let ghost p0 = self.pos as nat;
        let mut whole: Vec<u8> = Vec::new();
        let mut frac: Vec<u8> = Vec::new();
        let mut dots: usize = 0;
        loop
            invariant
                self.wf(),
                self.chars@ == s,
                dots <= self.pos,
                all_digits(whole@),
                all_digits(frac@),
                number_scan(s, self.pos as nat, whole@, frac@, dots as nat) == number_scan(
                    s,
                    p0,
                    Seq::empty(),
                    Seq::empty(),
                    0,
                ),
            ensures
                self.wf(),
                self.chars@ == s,
                all_digits(whole@),
                all_digits(frac@),
                number_scan(s, p0, Seq::empty(), Seq::empty(), 0) == (whole@, frac@, dots as nat, self.pos as nat),
            decreases self.chars.len() - self.pos,
        {
            match self.peek_char() {
                None => {
                    break;
                },
                Some(ch) => {
                    if ch == '.' {
                        dots = dots + 1;
                        self.bump();
                    } else if '0' <= ch && ch <= '9' {
                        let d = ((ch as u32) - ('0' as u32)) as u8;
                        if dots == 0 {
                            whole.push(d);
                        } else {
                            frac.push(d);
                        }
                        self.bump();
                    } else {
                        break;
                    }
                },
            }
        }
        if dots <= 1 {
            Ok(Token::Number(Number::from_digits(whole, frac)))
        } else {
            Err(
                RuneError::type_error(
                    "Invalid number".to_string(),
                    self.line,
                    self.column,
                    None,
                    102,
                ),
            )
        }
    }
}

fn unescape_char(c: char) -> (r: char)
    ensures
        r == unescape(c),
{
    if c == 'n' {
        '\n'
    } else if c == 't' {
        '\t'
    } else if c == 'r' {
        '\r'
    } else {
        c
    }
}

/// The token for an identifier's characters: a keyword or an identifier.
fn keyword_token(v: Vec<char>) -> (r: Token)
    ensures
        r.model() == keyword(v@),
{
    let n = v.len();
    if n == 4 && v[0] == 't' && v[1] == 'r' && v[2] == 'u' && v[3] == 'e' {
        assert(v@ =~= seq!['t', 'r', 'u', 'e']);
        Token::Bool(true)
    } else if n == 5 && v[0] == 'f' && v[1] == 'a' && v[2] == 'l' && v[3] == 's' && v[4] == 'e' {
        assert(v@ =~= seq!['f', 'a', 'l', 's', 'e']);
        Token::Bool(false)
    } else if n == 3 && v[0] == 'e' && v[1] == 'n' && v[2] == 'd' {
        assert(v@ =~= seq!['e', 'n', 'd']);
        Token::End
    } else if n == 5 && v[0] == 'e' && v[1] == 'n' && v[2] == 'd' && v[3] == 'i' && v[4] == 'f' {
        assert(v@ =~= seq!['e', 'n', 'd', 'i', 'f']);
        Token::EndIf
    } else if n == 6 && v[0] == 'g' && v[1] == 'a' && v[2] == 't' && v[3] == 'h' && v[4] == 'e' && v[5]
        == 'r' {
        assert(v@ =~= seq!['g', 'a', 't', 'h', 'e', 'r']);
        Token::Gather
    } else if n == 2 && v[0] == 'a' && v[1] == 's' {
        assert(v@ =~= seq!['a', 's']);
        Token::As
    } else if n == 2 && v[0] == 'i' && v[1] == 'f' {
        assert(v@ =~= seq!['i', 'f']);
        Token::If
    } else if n == 4 && v[0] == 'e' && v[1] == 'l' && v[2] == 's' && v[3] == 'e' {
        assert(v@ =~= seq!['e', 'l', 's', 'e']);
        Token::Else
    } else if n == 6 && v[0] == 'e' && v[1] == 'l' && v[2] == 's' && v[3] == 'e' && v[4] == 'i' && v[5]
        == 'f' {
        assert(v@ =~= seq!['e', 'l', 's', 'e', 'i', 'f']);
        Token::ElseIf
    } else if n == 4 && v[0] == 'n' && v[1] == 'u' && v[2] == 'l' && v[3] == 'l' {
        assert(v@ =~= seq!['n', 'u', 'l', 'l']);
        Token::Null
    } else if n == 4 && v[0] == 'N' && v[1] == 'o' && v[2] == 'n' && v[3] == 'e' {
        assert(v@ =~= seq!['N', 'o', 'n', 'e']);
        Token::Null
    } else {
        Token::Ident(string_of(&v))
    }
}

} // verus!
