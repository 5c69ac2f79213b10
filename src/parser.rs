//! The parser: reads the tokens of an input and builds a `Document`.
use vstd::prelude::*;
use vstd::string::*;
use crate::ast::{
    entries_model, items_model, lemma_entries_push, lemma_items_push, lemma_texts_push, lemma_values_push,
    texts, values_model, ConditionalValue, Condition, Document, IModel, IfBlock, ObjectItem, Text, VModel, Value,
};
use crate::error::{ErrorKind, Fault, RuneError};
use crate::eval::{
    find_doc, import_keys, keys_unique, lemma_put_import, lemma_with_key_unique, put_import, put_import_in, with_key,
    with_keys,
};
use crate::grammar::{
    alias_from_stem, array_items, default_alias, empty_doc, file_stem_of, lex_all, fault_at, lemma_lex_all_wf, next, parse_assignment, parse_condition,
    parse_if_block, parse_items, parse_stream, parse_top, parse_value, path_rest, stream_of, stream_wf, tok, dollar_ref,
    top_gather, top_metadata, DModel, PTok, Stream, Until,
};
use crate::host::Host;
use crate::lexer::{next_token_spec, Lexeme, Lexer, TModel, Token};
use crate::resolver::{env_word, expand_dollar_string, parse_dollar_reference, runtime_word, sys_word};
use crate::text::{chars_of, string_is, string_of};

verus! {

/// A token and the line and column the lexer stood at after reading it.
pub struct Lexed {
    pub token: Token,
    pub line: usize,
    pub column: usize,
}

pub open spec fn ptoks(v: Seq<Lexed>) -> Seq<PTok> {
    Seq::new(v.len(), |k: int| PTok { tok: v[k].token.model(), line: v[k].line as nat, col: v[k].column as nat })
}

pub open spec fn fault_of(e: Option<RuneError>) -> Option<Fault> {
    match e {
        Some(x) => Some(x.fault()),
        None => None,
    }
}

/// All tokens of `input`, up to `Eof` or up to the first lexer error.
pub fn tokenize(input: &str) -> (r: (Vec<Lexed>, Option<RuneError>))
    requires
        input@.len() < usize::MAX,
    ensures
        ptoks(r.0@) == stream_of(input@).toks,
        fault_of(r.1) == stream_of(input@).err,
{
    let mut lx = Lexer::new(input);
    let mut toks: Vec<Lexed> = Vec::new();
    let ghost s = input@;
    assert(ptoks(toks@) =~= Seq::<PTok>::empty());
    loop
        invariant
            lx.wf(),
            s == input@,
            lx.text() == s,
            lx.position() <= s.len(),
            lex_all(s, lx.position(), ptoks(toks@)) == stream_of(s),
        decreases s.len() - lx.position(),
    {
        let ghost p = lx.position();
        proof {
            crate::grammar::lemma_token_progress(s, p, false);
        }
        match lx.next_token() {
            Err(e) => {
                assert(next_token_spec(s, p, false) is Fail);
                assert(lex_all(s, p, ptoks(toks@)) == Stream { toks: ptoks(toks@), err: Some(e.fault()) });
                return (toks, Some(e));
            },
            Ok(t) => {
                let is_eof = matches!(t, Token::Eof);
                let line = lx.line();
                let column = lx.column();
                let ghost old_toks = toks@;
                toks.push(Lexed { token: t, line, column });
                assert(ptoks(toks@) =~= ptoks(old_toks).push(
                    PTok { tok: toks@.last().token.model(), line: line as nat, col: column as nat },
                ));
                if is_eof {
                    return (toks, None);
                }
            },
        }
    }
}

/// Copy an error, keeping its kind, code and place.
pub fn copy_error(e: &RuneError) -> (r: RuneError)
    ensures
        r.fault() == e.fault(),
{
    match e {
        RuneError::SyntaxError { message, line, column, hint, code } => RuneError::SyntaxError {
            message: message.clone(),
            line: *line,
            column: *column,
            hint: hint.clone(),
            code: *code,
        },
        RuneError::InvalidToken { token, line, column, hint, code } => RuneError::InvalidToken {
            token: token.clone(),
            line: *line,
            column: *column,
            hint: hint.clone(),
            code: *code,
        },
        RuneError::UnexpectedEof { message, line, column, hint, code } => RuneError::UnexpectedEof {
            message: message.clone(),
            line: *line,
            column: *column,
            hint: hint.clone(),
            code: *code,
        },
        RuneError::TypeError { message, line, column, hint, code } => RuneError::TypeError {
            message: message.clone(),
            line: *line,
            column: *column,
            hint: hint.clone(),
            code: *code,
        },
        RuneError::UnclosedString { quote, line, column, hint, code } => RuneError::UnclosedString {
            quote: *quote,
            line: *line,
            column: *column,
            hint: hint.clone(),
            code: *code,
        },
        RuneError::UnexpectedCharacter { character, line, column, hint, code } =>
            RuneError::UnexpectedCharacter {
            character: *character,
            line: *line,
            column: *column,
            hint: hint.clone(),
            code: *code,
        },
        RuneError::FileError { message, path, hint, code } => RuneError::FileError {
            message: message.clone(),
            path: path.clone(),
            hint: hint.clone(),
            code: *code,
        },
        RuneError::RuntimeError { message, hint, code } => RuneError::RuntimeError {
            message: message.clone(),
            hint: hint.clone(),
            code: *code,
        },
        RuneError::ValidationError { message, line, column, hint, code } => RuneError::ValidationError {
            message: message.clone(),
            line: *line,
            column: *column,
            hint: hint.clone(),
            code: *code,
        },
    }
}

/// The short name of a token used in error messages.
pub open spec fn token_name(t: TModel) -> Seq<char> {
    match t {
        TModel::Ident(_) => "identifier"@,
        TModel::Str(_) => "string"@,
        TModel::Regex(_) => "regex"@,
        TModel::Number(_, _) => "number"@,
        TModel::Bool(_) => "boolean"@,
        TModel::Null => "null"@,
        TModel::Colon => "':'"@,
        TModel::Equals => "'='"@,
        TModel::LBracket => "'['"@,
        TModel::RBracket => "']'"@,
        TModel::End => "'end'"@,
        TModel::EndIf => "'endif'"@,
        TModel::Dollar => "'$'"@,
        TModel::Dot => "'.'"@,
        TModel::At => "'@'"@,
        TModel::Gather => "'gather'"@,
        TModel::As => "'as'"@,
        TModel::If => "'if'"@,
        TModel::Else => "'else'"@,
        TModel::ElseIf => "'elseif'"@,
        TModel::Newline => "newline"@,
        TModel::Eof => "end of input"@,
    }
}

impl Token {
    /// A short name for the token, for error messages.
    pub fn describe(&self) -> (r: String)
        ensures
            r@ == token_name(self.model()),
    {
        match self {
            Token::Ident(_) => "identifier".to_string(),
            Token::String(_) => "string".to_string(),
            Token::Regex(_) => "regex".to_string(),
            Token::Number(_) => "number".to_string(),
            Token::Bool(_) => "boolean".to_string(),
            Token::Null => "null".to_string(),
            Token::Colon => "':'".to_string(),
            Token::Equals => "'='".to_string(),
            Token::LBracket => "'['".to_string(),
            Token::RBracket => "']'".to_string(),
            Token::End => "'end'".to_string(),
            Token::EndIf => "'endif'".to_string(),
            Token::Dollar => "'$'".to_string(),
            Token::Dot => "'.'".to_string(),
            Token::At => "'@'".to_string(),
            Token::Gather => "'gather'".to_string(),
            Token::As => "'as'".to_string(),
            Token::If => "'if'".to_string(),
            Token::Else => "'else'".to_string(),
            Token::ElseIf => "'elseif'".to_string(),
            Token::Newline => "newline".to_string(),
            Token::Eof => "end of input".to_string(),
        }
    }
}

/// A parser over the tokens of one input.
pub struct Parser {
    /// The tokens of the input, up to `Eof` or to the first lexer error.
    pub tokens: Vec<Lexed>,
    /// The lexer error that ended the tokens, if one did.
    pub lex_error: Option<RuneError>,
    /// Where `$env` and `$sys` values come from.
    pub host: Host,
    /// Placeholder documents for the aliases that `gather` declared; a
    /// loader replaces them with the parsed files.
    pub imports: Vec<(String, Document)>,
    /// The `gather` statements read so far, as (alias, path).
    pub gathers: Vec<(String, String)>,
}

impl Parser {
    pub open spec fn stream(&self) -> Stream {
        Stream { toks: ptoks(self.tokens@), err: fault_of(self.lex_error) }
    }

    pub open spec fn host_spec(&self) -> Host {
        self.host
    }

    pub open spec fn wf(&self) -> bool {
        &&& stream_wf(self.stream())
        &&& keys_unique(import_keys(self.imports@))
    }

    /// A parser for `input`; `$env` and `$sys` values come from `host`.
    /// Fails when the first token cannot be read.
    pub fn new(input: &str, host: Host) -> (r: Result<Parser, RuneError>)
        requires
            input@.len() < usize::MAX,
        ensures
            stream_of(input@).toks.len() == 0 ==> r is Err && r->Err_0.fault() == stream_of(input@).err->0,
            stream_of(input@).toks.len() > 0 ==> r is Ok && r->Ok_0.wf() && r->Ok_0.stream() == stream_of(
                input@,
            ) && r->Ok_0.host_spec() == host && r->Ok_0.imports@.len() == 0 && r->Ok_0.gathers@.len() == 0,
    {
        let (tokens, lex_error) = tokenize(input);
        proof {
            lemma_lex_all_wf(input@, 0, Seq::empty());
        }
        if tokens.len() == 0 {
            return Err(lex_error.unwrap());
        }
        let p = Parser { tokens, lex_error, host, imports: Vec::new(), gathers: Vec::new() };
        assert(p.stream().toks =~= stream_of(input@).toks);
        assert(p.stream() == stream_of(input@));
        Ok(p)
    }

    /// The value a dotted path names in `doc`, or in an imported document
    /// when the first segment is one of `imports`' aliases; see
    /// `eval::resolve_reference`.
    pub fn resolve_reference<'b>(&'b self, path: &[String], doc: &'b Document) -> (r: Option<&'b Value>)
        ensures
            r is Some <==> crate::eval::lookup(texts(path@), *doc, self.imports@) is Some,
            r is Some ==> *r->0 == crate::eval::lookup(texts(path@), *doc, self.imports@)->0,
    {
        crate::eval::resolve_reference(path, doc, &self.imports)
    }

    /// Set the document for an alias, replacing the one it had.
    #[verifier::loop_isolation(false)]
    pub fn inject_import(&mut self, alias: String, document: Document)
        ensures
            final(self).tokens == old(self).tokens,
            final(self).lex_error == old(self).lex_error,
            final(self).host == old(self).host,
            final(self).gathers == old(self).gathers,
            final(self).imports@ == put_import(old(self).imports@, alias, document),
            find_doc(final(self).imports@, alias@) == Some(document),
            old(self).wf() ==> final(self).wf(),
    {
        proof {
            lemma_put_import(self.imports@, alias, document);
        }
        put_import_in(&mut self.imports, alias, document);
    }

    fn next(&self, i: usize) -> (r: Result<usize, RuneError>)
        requires
            self.wf(),
            i < self.tokens.len(),
        ensures
            match next(self.stream(), i as nat) {
                Ok(j) => r is Ok && r->Ok_0 == j,
                Err(f) => r is Err && r->Err_0.fault() == f,
            },
            r is Ok ==> r->Ok_0 < self.tokens.len(),
            r is Ok && !(tok(self.stream(), i as nat) is Eof) ==> r->Ok_0 == i + 1,
    {
        if i + 1 < self.tokens.len() {
            Ok(i + 1)
        } else {
            match &self.lex_error {
                Some(e) => Err(copy_error(e)),
                None => Ok(i),
            }
        }
    }

    fn syntax_at(&self, i: usize, message: &str, hint: Option<&str>, code: u32) -> (r: RuneError)
        requires
            i < self.tokens.len(),
            !crate::error::asks_for_endif(code, hint),
        ensures
            r.fault() == fault_at(self.stream(), i as nat, ErrorKind::Syntax, code),
    {
        RuneError::syntax(message, self.tokens[i].line, self.tokens[i].column, hint, code)
    }

    fn invalid_at(&self, i: usize, culprit: usize, hint: &str, code: u32) -> (r: RuneError)
        requires
            i < self.tokens.len(),
            culprit < self.tokens.len(),
        ensures
            r.fault() == fault_at(self.stream(), i as nat, ErrorKind::InvalidToken, code),
    {
        RuneError::invalid_token(self.tokens[culprit].token.describe(), self.tokens[i].line, self.tokens[i].column, hint, code)
    }

    proof fn lemma_tok(&self, i: usize)
        requires
            i < self.tokens.len(),
        ensures
            tok(self.stream(), i as nat) == self.tokens@[i as int].token.model(),
    {
    }

    /// The `.name` segments after token `i`, added to `acc`.
    #[verifier::loop_isolation(false)]
    fn path_rest_at(&self, i: usize, acc: Vec<String>) -> (r: Result<(Vec<String>, usize), RuneError>)
        requires
            self.wf(),
            i < self.tokens.len(),
        ensures
            match path_rest(self.stream(), i as nat, texts(acc@)) {
                Ok((p, k)) => r is Ok && texts(r->Ok_0.0@) == p && r->Ok_0.1 == k,
                Err(f) => r is Err && r->Err_0.fault() == f,
            },
            r is Ok ==> i <= r->Ok_0.1 < self.tokens.len(),
            r is Ok ==> r->Ok_0.0@.len() >= acc@.len(),
    {
        let ghost st = self.stream();
        let ghost start = texts(acc@);
        let mut acc = acc;
        let mut i2 = i;
        loop
            invariant
                i <= i2 < self.tokens.len(),
                acc@.len() >= start.len(),
                path_rest(st, i2 as nat, texts(acc@)) == path_rest(st, i as nat, start),
            decreases self.tokens.len() - i2,
        {
            proof {
                self.lemma_tok(i2);
            }
            if !matches!(self.tokens[i2].token, Token::Dot) {
                return Ok((acc, i2));
            }
            let j = self.next(i2)?;
            let k = self.next(j)?;
            proof {
                self.lemma_tok(j);
            }
            match &self.tokens[j].token {
                Token::Ident(n) => {
                    let seg = n.clone();
                    proof {
                        lemma_texts_push(acc@, seg);
                    }
                    acc.push(seg);
                    i2 = k;
                },
                _ => {
                    return Err(self.syntax_at(k, "Expected identifier after '.'", None, 210));
                },
            }
        }
    }
}

fn copy_digits(v: &Vec<u8>) -> (r: Vec<u8>)
    ensures
        r@ == v@,
{
    let mut out: Vec<u8> = Vec::new();
    let mut i: usize = 0;
    while i < v.len()
        invariant
            i <= v.len(),
            out@ == v@.take(i as int),
        decreases v.len() - i,
    {
        out.push(v[i]);
        i += 1;
        assert(out@ =~= v@.take(i as int));
    }
    assert(v@.take(v.len() as int) =~= v@);
    out
}

pub open spec fn pairs_model(v: Seq<(String, String)>) -> Seq<(Text, Text)> {
    Seq::new(v.len(), |i: int| (v[i].0@, v[i].1@))
}

/// Relies on `std::path::Path::file_stem`: the file name without its
/// extension, taken from the path text alone.
#[verifier::external_body]
fn file_stem(path: &str) -> (r: Option<String>)
    ensures
        r is Some <==> file_stem_of(path@) is Some,
        r is Some ==> r->0@ == file_stem_of(path@)->0,
{
    match std::path::Path::new(path).file_stem() {
        Some(stem) => match stem.to_str() {
            Some(t) => Some(t.to_string()),
            None => None,
        },
        None => None,
    }
}

/// The alias for a file stem: the stem itself, or `imported` without one.
pub fn alias_from_stem_of(stem: Option<String>) -> (r: String)
    ensures
        r@ == alias_from_stem(
            match stem {
                Some(s) => Some(s@),
                None => None,
            },
        ),
{
    match stem {
        Some(s) => s,
        None => {
            proof {
                reveal_strlit("imported");
            }
            "imported".to_string()
        },
    }
}

/// The alias that `gather "path"` declares when it has no `as`.
pub fn default_alias_of(path: &String) -> (r: String)
    ensures
        r@ == default_alias(path@),
{
    alias_from_stem_of(file_stem(path.as_str()))
}

impl Parser {
    fn expect_colon(&self, i: usize) -> (r: Result<usize, RuneError>)
        requires
            self.wf(),
            i < self.tokens.len(),
        ensures
            match crate::grammar::expect_colon(self.stream(), i as nat) {
                Ok(j) => r is Ok && r->Ok_0 == j,
                Err(f) => r is Err && r->Err_0.fault() == f,
            },
            r is Ok ==> r->Ok_0 == i + 1 && r->Ok_0 < self.tokens.len(),
    {
        let j = self.next(i)?;
        proof {
            self.lemma_tok(i);
        }
        if matches!(self.tokens[i].token, Token::Colon) {
            Ok(j)
        } else {
            proof {
                reveal_strlit("Use: if condition: ... else: ... endif");
                reveal_strlit("Use 'endif' to close if-blocks");
                assert("Use: if condition: ... else: ... endif"@[3] != crate::error::endif_hint_text()[3]);
            }
            Err(self.syntax_at(j, "Expected ':'", Some("Use: if condition: ... else: ... endif"), 214))
        }
    }

    /// `$namespace(.name)*` at token `i`.
    fn dollar_ref_at(&self, i: usize) -> (r: Result<(Value, usize), RuneError>)
        requires
            self.wf(),
            i < self.tokens.len(),
            tok(self.stream(), i as nat) is Dollar,
        ensures
            match dollar_ref(self.stream(), i as nat, self.host) {
                Ok((v, k)) => r is Ok && r->Ok_0.0.model() == v && r->Ok_0.1 == k,
                Err(f) => r is Err && r->Err_0.fault() == f,
            },
            r is Ok ==> i < r->Ok_0.1 < self.tokens.len(),
    {
        let j = self.next(i)?;
        let k = self.next(j)?;
        proof {
            self.lemma_tok(j);
        }
        match &self.tokens[j].token {
            Token::Ident(name) => {
                let env = ['e', 'n', 'v'];
                let sys = ['s', 'y', 's'];
                let runtime = ['r', 'u', 'n', 't', 'i', 'm', 'e'];
                assert(env@ == env_word());
                assert(sys@ == sys_word());
                assert(runtime@ == runtime_word());
                if string_is(name, &env) || string_is(name, &sys) || string_is(name, &runtime) {
                    let mut acc: Vec<String> = Vec::new();
                    acc.push(name.clone());
                    assert(texts(acc@) =~= seq![name@]);
                    let (p, m) = self.path_rest_at(k, acc)?;
                    let v = parse_dollar_reference(p, &self.host)?;
                    Ok((v, m))
                } else {
                    Err(self.syntax_at(k, "Unknown namespace", Some("Use $env, $sys, or $runtime"), 209))
                }
            },
            _ => Err(self.syntax_at(k, "Expected identifier after $", None, 209)),
        }
    }

    /// `if condition value [else value]` at token `i`.
    fn conditional_at(&self, i: usize) -> (r: Result<(Value, usize), RuneError>)
        requires
            self.wf(),
            i < self.tokens.len(),
            tok(self.stream(), i as nat) is If,
        ensures
            match parse_value(self.stream(), i as nat, self.host) {
                Ok((v, k)) => r is Ok && r->Ok_0.0.model() == v && r->Ok_0.1 == k,
                Err(f) => r is Err && r->Err_0.fault() == f,
            },
            r is Ok ==> i < r->Ok_0.1 < self.tokens.len(),
        decreases self.tokens.len() - i, 0nat,
    {
        let j = self.next(i)?;
        let (c, k) = self.condition_at(j)?;
        let (tv, m) = self.value_at(k)?;
        proof {
            self.lemma_tok(m);
        }
        if matches!(self.tokens[m].token, Token::Else) {
            let n = self.next(m)?;
            let (ev, q) = self.value_at(n)?;
            Ok(
                (
                    Value::Conditional(
                        Box::new(ConditionalValue { condition: c, then_value: tv, else_value: Some(ev) }),
                    ),
                    q,
                ),
            )
        } else {
            Ok(
                (
                    Value::Conditional(
                        Box::new(ConditionalValue { condition: c, then_value: tv, else_value: None }),
                    ),
                    m,
                ),
            )
        }
    }

    /// A value at token `i`.
    fn value_at(&self, i: usize) -> (r: Result<(Value, usize), RuneError>)
        requires
            self.wf(),
            i < self.tokens.len(),
        ensures
            match parse_value(self.stream(), i as nat, self.host) {
                Ok((v, k)) => r is Ok && r->Ok_0.0.model() == v && r->Ok_0.1 == k,
                Err(f) => r is Err && r->Err_0.fault() == f,
            },
            r is Ok ==> i < r->Ok_0.1 < self.tokens.len(),
        decreases self.tokens.len() - i, 1nat,
    {
        proof {
            self.lemma_tok(i);
        }
        match &self.tokens[i].token {
            Token::String(s) => {
                let j = self.next(i)?;
                let v = expand_dollar_string(s.as_str(), &self.host)?;
                Ok((v, j))
            },
            Token::Number(n) => {
                let j = self.next(i)?;
                let n2 = crate::number::Number { whole: copy_digits(&n.whole), fraction: copy_digits(&n.fraction) };
                Ok((Value::Number(n2), j))
            },
            Token::Bool(b) => {
                let j = self.next(i)?;
                Ok((Value::Bool(*b), j))
            },
            Token::Regex(t) => {
                let j = self.next(i)?;
                Ok((Value::Regex(t.clone()), j))
            },
            Token::Null => {
                let j = self.next(i)?;
                Ok((Value::Null, j))
            },
            Token::Dollar => self.dollar_ref_at(i),
            Token::Ident(n) => {
                let j = self.next(i)?;
                let mut acc: Vec<String> = Vec::new();
                acc.push(n.clone());
                assert(texts(acc@) =~= seq![n@]);
                let (p, k) = self.path_rest_at(j, acc)?;
                Ok((Value::Reference(p), k))
            },
            Token::LBracket => {
                let j = self.next(i)?;
                assert(values_model(Seq::<Value>::empty()) =~= Seq::<VModel>::empty());
                self.array_at(j, Vec::new())
            },
            Token::If => self.conditional_at(i),
            _ => {
                let j = self.next(i)?;
                Err(self.invalid_at(j, i, "Unexpected token in value position", 210))
            },
        }
    }

    /// The values of an array from token `i` up to `]`, after those in `acc`.
    #[verifier::loop_isolation(false)]
    fn array_at(&self, i: usize, acc: Vec<Value>) -> (r: Result<(Value, usize), RuneError>)
        requires
            self.wf(),
            i < self.tokens.len(),
        ensures
            match array_items(self.stream(), i as nat, values_model(acc@), self.host) {
                Ok((v, k)) => r is Ok && r->Ok_0.0.model() == v && r->Ok_0.1 == k,
                Err(f) => r is Err && r->Err_0.fault() == f,
            },
            r is Ok ==> i < r->Ok_0.1 < self.tokens.len(),
        decreases self.tokens.len() - i, 2nat,
    {
        let ghost st = self.stream();
        let ghost start = values_model(acc@);
        let mut acc = acc;
        let mut i2 = i;
        loop
            invariant
                i <= i2 < self.tokens.len(),
                array_items(st, i2 as nat, values_model(acc@), self.host) == array_items(st, i as nat, start, self.host),
            decreases self.tokens.len() - i2,
        {
            proof {
                self.lemma_tok(i2);
            }
            match &self.tokens[i2].token {
                Token::RBracket => {
                    let j = self.next(i2)?;
                    return Ok((Value::Array(acc), j));
                },
                Token::Newline => {
                    let j = self.next(i2)?;
                    i2 = j;
                },
                _ => {
                    let (v, k) = self.value_at(i2)?;
                    proof {
                        lemma_values_push(acc@, v);
                    }
                    acc.push(v);
                    i2 = k;
                },
            }
        }
    }

    /// A condition at token `i`.
    fn condition_at(&self, i: usize) -> (r: Result<(Condition, usize), RuneError>)
        requires
            self.wf(),
            i < self.tokens.len(),
        ensures
            match parse_condition(self.stream(), i as nat, self.host) {
                Ok((c, k)) => r is Ok && r->Ok_0.0.model() == c && r->Ok_0.1 == k,
                Err(f) => r is Err && r->Err_0.fault() == f,
            },
            r is Ok ==> i < r->Ok_0.1 < self.tokens.len(),
        decreases self.tokens.len() - i, 0nat,
    {
        let j = self.next(i)?;
        proof {
            self.lemma_tok(i);
        }
        match &self.tokens[i].token {
            Token::Ident(n) => {
                let mut acc: Vec<String> = Vec::new();
                acc.push(n.clone());
                assert(texts(acc@) =~= seq![n@]);
                let (p, k) = self.path_rest_at(j, acc)?;
                proof {
                    self.lemma_tok(k);
                }
                if matches!(self.tokens[k].token, Token::Equals) {
                    let m = self.next(k)?;
                    let (v, q) = self.value_at(m)?;
                    Ok((Condition::Equals(p, v), q))
                } else {
                    Ok((Condition::Exists(p), k))
                }
            },
            _ => Err(self.syntax_at(j, "Expected identifier in condition", None, 214)),
        }
    }

    /// An assignment at token `i`.
    fn assignment_at(&self, i: usize) -> (r: Result<((String, Value), usize), RuneError>)
        requires
            self.wf(),
            i < self.tokens.len(),
        ensures
            match parse_assignment(self.stream(), i as nat, self.host) {
                Ok((kv, k)) => r is Ok && r->Ok_0.0.0@ == kv.0 && r->Ok_0.0.1.model() == kv.1 && r->Ok_0.1
                    == k,
                Err(f) => r is Err && r->Err_0.fault() == f,
            },
            r is Ok ==> i < r->Ok_0.1 < self.tokens.len(),
        decreases self.tokens.len() - i, 0nat,
    {
        let j = self.next(i)?;
        proof {
            self.lemma_tok(i);
            self.lemma_tok(j);
        }
        match &self.tokens[i].token {
            Token::Ident(key) => {
                let key = key.clone();
                match &self.tokens[j].token {
                    Token::Colon => {
                        let k = self.next(j)?;
                        assert(items_model(Seq::<ObjectItem>::empty()) =~= Seq::<IModel>::empty());
                        let (items, m) = self.items_at(k, Until::End, Vec::new())?;
                        Ok(((key, Value::Object(items)), m))
                    },
                    Token::Equals => {
                        let k = self.next(j)?;
                        let (v, m) = self.value_at(k)?;
                        Ok(((key, v), m))
                    },
                    _ => {
                        let (v, m) = self.value_at(j)?;
                        Ok(((key, v), m))
                    },
                }
            },
            _ => Err(self.syntax_at(j, "Expected identifier for assignment", None, 208)),
        }
    }

    /// `if condition: ... [else: ...] endif` at token `i`.
    fn if_block_at(&self, i: usize) -> (r: Result<(ObjectItem, usize), RuneError>)
        requires
            self.wf(),
            i < self.tokens.len(),
            tok(self.stream(), i as nat) is If,
        ensures
            match parse_if_block(self.stream(), i as nat, self.host) {
                Ok((b, k)) => r is Ok && r->Ok_0.0.model() == b && r->Ok_0.1 == k,
                Err(f) => r is Err && r->Err_0.fault() == f,
            },
            r is Ok ==> i < r->Ok_0.1 < self.tokens.len(),
        decreases self.tokens.len() - i, 0nat,
    {
        let j = self.next(i)?;
        let (c, k) = self.condition_at(j)?;
        let m = self.expect_colon(k)?;
        assert(items_model(Seq::<ObjectItem>::empty()) =~= Seq::<IModel>::empty());
        let (then_items, n) = self.items_at(m, Until::ElseOrEndIf, Vec::new())?;
        proof {
            self.lemma_tok(n);
        }
        if matches!(self.tokens[n].token, Token::Else) {
            let p = self.next(n)?;
            let q = self.expect_colon(p)?;
            let (else_items, u) = self.items_at(q, Until::EndIf, Vec::new())?;
            let w = self.next(u)?;
            proof {
                self.lemma_tok(u);
            }
            if matches!(self.tokens[u].token, Token::EndIf) {
                Ok(
                    (
                        ObjectItem::IfBlock(
                            Box::new(IfBlock { condition: c, then_items, else_items: Some(else_items) }),
                        ),
                        w,
                    ),
                )
            } else {
                proof {
                    reveal_strlit("Close if-blocks with 'endif'");
                    reveal_strlit("Use 'endif' to close if-blocks");
                    assert("Close if-blocks with 'endif'"@[0] != crate::error::endif_hint_text()[0]);
                }
                Err(self.syntax_at(w, "Expected 'endif'", Some("Close if-blocks with 'endif'"), 214))
            }
        } else {
            let w = self.next(n)?;
            if matches!(self.tokens[n].token, Token::EndIf) {
                Ok((ObjectItem::IfBlock(Box::new(IfBlock { condition: c, then_items, else_items: None })), w))
            } else {
                proof {
                    reveal_strlit("Close if-blocks with 'endif'");
                    reveal_strlit("Use 'endif' to close if-blocks");
                    assert("Close if-blocks with 'endif'"@[0] != crate::error::endif_hint_text()[0]);
                }
                Err(self.syntax_at(w, "Expected 'endif'", Some("Close if-blocks with 'endif'"), 214))
            }
        }
    }

    /// Object items from token `i`, after those in `acc`, up to where `until` says.
    #[verifier::loop_isolation(false)]
    fn items_at(&self, i: usize, until: Until, acc: Vec<ObjectItem>) -> (r: Result<(Vec<ObjectItem>, usize), RuneError>)
        requires
            self.wf(),
            i < self.tokens.len(),
        ensures
            match parse_items(self.stream(), i as nat, until, items_model(acc@), self.host) {
                Ok((items, k)) => r is Ok && items_model(r->Ok_0.0@) == items && r->Ok_0.1 == k,
                Err(f) => r is Err && r->Err_0.fault() == f,
            },
            r is Ok ==> i <= r->Ok_0.1 < self.tokens.len(),
            r is Ok && until == Until::End ==> i < r->Ok_0.1,
        decreases self.tokens.len() - i, 1nat,
    {
        let ghost st = self.stream();
        let ghost start = items_model(acc@);
        let mut acc = acc;
        let mut i2 = i;
        loop
            invariant
                i <= i2 < self.tokens.len(),
                parse_items(st, i2 as nat, until, items_model(acc@), self.host) == parse_items(
                    st,
                    i as nat,
                    until,
                    start,
                    self.host,
                ),
            decreases self.tokens.len() - i2,
        {
            proof {
                self.lemma_tok(i2);
            }
            match &self.tokens[i2].token {
                Token::Newline => {
                    let j = self.next(i2)?;
                    i2 = j;
                },
                Token::Ident(_) => {
                    let ((k, v), j) = self.assignment_at(i2)?;
                    let item = ObjectItem::Assign(k, v);
                    proof {
                        lemma_items_push(acc@, item);
                    }
                    acc.push(item);
                    i2 = j;
                },
                Token::If => {
                    let (b, j) = self.if_block_at(i2)?;
                    proof {
                        lemma_items_push(acc@, b);
                    }
                    acc.push(b);
                    i2 = j;
                },
                Token::End => {
                    if until == Until::End {
                        let j = self.next(i2)?;
                        return Ok((acc, j));
                    } else {
                        return Err(
                            RuneError::syntax(
                                "Found 'end' while parsing an if-block; did you mean 'endif'?",
                                self.tokens[i2].line,
                                self.tokens[i2].column,
                                Some("Use 'endif' to close if-blocks"),
                                214,
                            ),
                        );
                    }
                },
                Token::EndIf => {
                    if until == Until::End {
                        let j = self.next(i2)?;
                        return Ok((acc, j));
                    } else {
                        return Ok((acc, i2));
                    }
                },
                Token::Else => {
                    if until == Until::ElseOrEndIf {
                        return Ok((acc, i2));
                    } else {
                        return Err(self.invalid_at(i2, i2, "Unexpected 'else' (no matching 'if'?)", 207));
                    }
                },
                _ => {
                    return Err(
                        self.invalid_at(i2, i2, "Expected assignment, nested block, 'else', 'endif' or 'end'", 207),
                    );
                },
            }
        }
    }
}

pub open spec fn doc_of(items: Seq<(String, Value)>, metadata: Seq<(String, Value)>, globals: Seq<(String, Value)>) -> DModel {
    DModel { items: entries_model(items), metadata: entries_model(metadata), globals: entries_model(globals) }
}

proof fn lemma_pairs_push(v: Seq<(String, String)>, a: String, f: String)
    ensures
        pairs_model(v.push((a, f))) == pairs_model(v).push((a@, f@)),
{
    assert(pairs_model(v.push((a, f))) =~= pairs_model(v).push((a@, f@)));
}

impl Parser {
    fn metadata_at(&self, i: usize) -> (r: Result<((String, Value), usize), RuneError>)
        requires
            self.wf(),
            i < self.tokens.len(),
            tok(self.stream(), i as nat) is At,
        ensures
            match top_metadata(self.stream(), i as nat, self.host) {
                Ok((kv, k)) => r is Ok && r->Ok_0.0.0@ == kv.0 && r->Ok_0.0.1.model() == kv.1 && r->Ok_0.1
                    == k,
                Err(f) => r is Err && r->Err_0.fault() == f,
            },
            r is Ok ==> i < r->Ok_0.1 < self.tokens.len(),
    {
        let j = self.next(i)?;
        let k = self.next(j)?;
        proof {
            self.lemma_tok(j);
        }
        match &self.tokens[j].token {
            Token::Ident(key) => {
                let key = key.clone();
                let (v, m) = self.value_at(k)?;
                Ok(((key, v), m))
            },
            _ => Err(self.syntax_at(k, "Expected identifier after @", None, 203)),
        }
    }

    fn gather_at(&self, i: usize) -> (r: Result<((String, String), usize), RuneError>)
        requires
            self.wf(),
            i < self.tokens.len(),
            tok(self.stream(), i as nat) is Gather,
        ensures
            match top_gather(self.stream(), i as nat) {
                Ok((g, k)) => r is Ok && r->Ok_0.0.0@ == g.0 && r->Ok_0.0.1@ == g.1 && r->Ok_0.1 == k,
                Err(f) => r is Err && r->Err_0.fault() == f,
            },
            r is Ok ==> i < r->Ok_0.1 < self.tokens.len(),
    {
        let j = self.next(i)?;
        let k = self.next(j)?;
        proof {
            self.lemma_tok(j);
            self.lemma_tok(k);
        }
        match &self.tokens[j].token {
            Token::String(f) => {
                if matches!(self.tokens[k].token, Token::As) {
                    let m = self.next(k)?;
                    let n = self.next(m)?;
                    proof {
                        self.lemma_tok(m);
                    }
                    match &self.tokens[m].token {
                        Token::Ident(a) => Ok(((a.clone(), f.clone()), n)),
                        _ => Err(self.syntax_at(n, "Expected identifier after 'as'", None, 212)),
                    }
                } else {
                    Ok(((default_alias_of(f), f.clone()), k))
                }
            },
            _ => Err(self.syntax_at(k, "Expected string after gather", None, 211)),
        }
    }

    /// Parse the whole input into a document. Each `gather` statement is
    /// recorded in `gathers`, and its alias gets a placeholder document in
    /// `imports` unless it has one already.
    #[verifier::rlimit(50)]
    pub fn parse_document(&mut self) -> (r: Result<Document, RuneError>)
        requires
            old(self).wf(),
        ensures
            final(self).tokens == old(self).tokens,
            final(self).lex_error == old(self).lex_error,
            final(self).host == old(self).host,
            match parse_stream(old(self).stream(), old(self).host) {
                Ok((d, g)) => r is Ok && r->Ok_0.model() == d && pairs_model(final(self).gathers@) == pairs_model(
                    old(self).gathers@,
                ) + g,
                Err(f) => r is Err && r->Err_0.fault() == f,
            },
            r is Err ==> final(self).imports == old(self).imports && final(self).gathers == old(self).gathers,
            r is Ok ==> import_keys(final(self).imports@) == with_keys(
                import_keys(old(self).imports@),
                Seq::new(
                    (final(self).gathers@.len() - old(self).gathers@.len()) as nat,
                    |k: int| final(self).gathers@[old(self).gathers@.len() + k].0@,
                ),
            ),
            r is Ok ==> forall|m: int|
                0 <= m < old(self).imports@.len() ==> final(self).imports@[m] == old(self).imports@[m],
            r is Ok ==> forall|m: int|
                old(self).imports@.len() <= m < final(self).imports@.len() ==> (#[trigger] final(self).imports@[m]).1.model()
                    == empty_doc(),
            final(self).wf(),
            r is Err && r->Err_0.fault().endif_hint ==> crate::error::tells_to_use_endif(r->Err_0),
    {
        let ghost st = self.stream();
        let ghost host = self.host;
        let mut items: Vec<(String, Value)> = Vec::new();
        let mut metadata: Vec<(String, Value)> = Vec::new();
        let mut globals: Vec<(String, Value)> = Vec::new();
        let mut found: Vec<(String, String)> = Vec::new();
        let mut i: usize = 0;
        assert(entries_model(items@) =~= Seq::<(Text, VModel)>::empty());
        assert(entries_model(metadata@) =~= Seq::<(Text, VModel)>::empty());
        assert(entries_model(globals@) =~= Seq::<(Text, VModel)>::empty());
        assert(doc_of(items@, metadata@, globals@) == empty_doc());
        assert(pairs_model(found@) =~= Seq::<(Text, Text)>::empty());
        loop
            invariant
                st == self.stream(),
                st == old(self).stream(),
                host == self.host,
                host == old(self).host,
                *self == *old(self),
                self.wf(),
                i < self.tokens.len(),
                parse_top(st, i as nat, doc_of(items@, metadata@, globals@), pairs_model(found@), host)
                    == parse_stream(st, host),
            ensures
                st == self.stream(),
                host == self.host,
                *self == *old(self),
                i < self.tokens.len(),
                tok(st, i as nat) is Eof,
                parse_top(st, i as nat, doc_of(items@, metadata@, globals@), pairs_model(found@), host)
                    == parse_stream(st, host),
            decreases self.tokens.len() - i,
        {
            proof {
                self.lemma_tok(i);
            }
            match &self.tokens[i].token {
                Token::Newline => {
                    i = self.next(i)?;
                },
                Token::Eof => {
                    break;
                },
                Token::At => {
                    let ((key, v), m) = self.metadata_at(i)?;
                    proof {
                        lemma_entries_push(metadata@, key, v);
                    }
                    metadata.push((key, v));
                    i = m;
                },
                Token::Ident(_) => {
                    let ((key, v), m) = self.assignment_at(i)?;
                    proof {
                        self.lemma_tok((i + 1) as usize);
                    }
                    if matches!(self.tokens[i + 1].token, Token::Colon) {
                        proof {
                            lemma_entries_push(items@, key, v);
                        }
                        items.push((key, v));
                    } else {
                        proof {
                            lemma_entries_push(globals@, key, v);
                        }
                        globals.push((key, v));
                    }
                    i = m;
                },
                Token::Gather => {
                    let ((alias, path), m) = self.gather_at(i)?;
                    proof {
                        lemma_pairs_push(found@, alias, path);
                    }
                    found.push((alias, path));
                    i = m;
                },
                Token::Dollar => {
                    return Err(
                        self.syntax_at(
                            i,
                            "Dollar variables ($env, $sys, $runtime) cannot be assigned at top level",
                            Some("Dollar variables can only be used as values, not as top-level definitions"),
                            213,
                        ),
                    );
                },
                _ => {
                    return Err(self.invalid_at(i, i, "Unexpected token at top-level", 205));
                },
            }
        }
        let doc = Document { items, metadata, globals };
        let ghost g0 = self.gathers@;
        let ghost i0 = self.imports@;
        let ghost names = Seq::new(found@.len(), |k: int| found@[k].0@);
        assert(names.skip(0) =~= names);
        let mut t: usize = 0;
        while t < found.len()
            invariant
                t <= found.len(),
                names == Seq::new(found@.len(), |k: int| found@[k].0@),
                self.tokens == old(self).tokens,
                self.lex_error == old(self).lex_error,
                self.host == old(self).host,
                i0 == old(self).imports@,
                g0 == old(self).gathers@,
                self.gathers@ == g0 + found@.take(t as int),
                with_keys(import_keys(self.imports@), names.skip(t as int)) == with_keys(import_keys(i0), names),
                keys_unique(import_keys(self.imports@)),
                i0.len() <= self.imports@.len(),
                forall|m: int| 0 <= m < i0.len() ==> self.imports@[m] == i0[m],
                forall|m: int|
                    i0.len() <= m < self.imports@.len() ==> (#[trigger] self.imports@[m]).1.model() == empty_doc(),
            decreases found.len() - t,
        {
            let alias = found[t].0.clone();
            let path = found[t].1.clone();
            let ghost before = self.imports@;
            proof {
                lemma_with_key_unique(import_keys(before), alias@);
                assert(names.skip(t as int).drop_first() =~= names.skip(t + 1));
            }
            self.add_placeholder(alias.clone());
            self.gathers.push((alias, path));
            assert(found@.take(t + 1) =~= found@.take(t as int).push(found@[t as int]));
            t += 1;
        }
        assert(found@.take(found.len() as int) =~= found@);
        assert(pairs_model(self.gathers@) =~= pairs_model(g0) + pairs_model(found@));
        assert(names.skip(found.len() as int) =~= Seq::<Text>::empty());
        assert(Seq::new(
            (self.gathers@.len() - g0.len()) as nat,
            |k: int| self.gathers@[g0.len() + k].0@,
        ) =~= names);
        Ok(doc)
    }

    /// Give `alias` an empty placeholder document, unless it has an entry.
    fn add_placeholder(&mut self, alias: String)
        ensures
            final(self).tokens == old(self).tokens,
            final(self).lex_error == old(self).lex_error,
            final(self).host == old(self).host,
            final(self).gathers == old(self).gathers,
            import_keys(final(self).imports@) == with_key(import_keys(old(self).imports@), alias@),
            old(self).imports@.len() <= final(self).imports@.len(),
            forall|m: int| 0 <= m < old(self).imports@.len() ==> final(self).imports@[m] == old(self).imports@[m],
            forall|m: int|
                old(self).imports@.len() <= m < final(self).imports@.len() ==> (#[trigger] final(self).imports@[m]).1.model()
                    == empty_doc(),
    {
        let ghost keys = import_keys(self.imports@);
        let mut i: usize = 0;
        while i < self.imports.len()
            invariant
                i <= self.imports.len(),
                self.imports == old(self).imports,
                self.tokens == old(self).tokens,
                self.lex_error == old(self).lex_error,
                self.host == old(self).host,
                self.gathers == old(self).gathers,
                keys == import_keys(self.imports@),
                forall|m: int| 0 <= m < i ==> keys[m] != alias@,
            decreases self.imports.len() - i,
        {
            assert(keys[i as int] == self.imports@[i as int].0@);
            if self.imports[i].0 == alias {
                assert(keys.contains(alias@));
                return;
            }
            i += 1;
        }
        assert(!keys.contains(alias@));
        let empty = Document { items: Vec::new(), metadata: Vec::new(), globals: Vec::new() };
        assert(empty.model() == empty_doc()) by {
            assert(entries_model(empty.items@) =~= Seq::<(Text, VModel)>::empty());
            assert(entries_model(empty.metadata@) =~= Seq::<(Text, VModel)>::empty());
            assert(entries_model(empty.globals@) =~= Seq::<(Text, VModel)>::empty());
        }
        self.imports.push((alias, empty));
        assert(import_keys(self.imports@) =~= keys.push(alias@));
    }
}

} // verus!
