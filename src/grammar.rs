//! The grammar, stated over the token stream: what the parser builds from a
//! sequence of tokens, or which fault stops it.
use vstd::prelude::*;
use crate::ast::{CModel, IModel, Text, VModel};
use crate::error::{endif_fault, fault, ErrorKind, Fault};
use crate::host::Host;
use crate::lexer::{
    ident_end, loc, next_token_spec, number_scan, regex_scan, skip_blank, string_scan, token_at, Lexeme, TModel,
};
use crate::resolver::lemma_ident_end_bounds;
use crate::resolver::{dollar_value, env_word, expand_spec, runtime_word, sys_word};

verus! {

/// A token with the line and column the lexer stood at after reading it.
pub struct PTok {
    pub tok: TModel,
    pub line: nat,
    pub col: nat,
}

/// The tokens of an input, and the fault that stopped the lexer if any.
pub struct Stream {
    pub toks: Seq<PTok>,
    pub err: Option<Fault>,
}

/// All tokens from position `p` on, added to `acc`: up to and including
/// `Eof`, or up to the first fault.
pub open spec fn lex_all(s: Text, p: nat, acc: Seq<PTok>) -> Stream
    decreases s.len() - p,
{
    match next_token_spec(s, p, false) {
        Lexeme::Tok(t, q) => {
            let pt = PTok { tok: t, line: loc(s, q).0, col: loc(s, q).1 };
            if t is Eof {
                Stream { toks: acc.push(pt), err: None }
            } else if p < q && q <= s.len() {
                lex_all(s, q, acc.push(pt))
            } else {
                Stream { toks: acc.push(pt), err: None }
            }
        },
        Lexeme::Fail(f, _) => Stream { toks: acc, err: Some(f) },
    }
}

pub open spec fn stream_of(s: Text) -> Stream {
    lex_all(s, 0, Seq::empty())
}

/// A stream the parser can read: `Eof` ends it, unless a fault does.
pub open spec fn stream_wf(st: Stream) -> bool {
    &&& st.toks.len() >= 1
    &&& st.err is None ==> st.toks.last().tok is Eof
    &&& forall|k: int| 0 <= k < st.toks.len() - 1 ==> !(#[trigger] st.toks[k].tok is Eof)
    &&& st.err is Some ==> !(st.toks.last().tok is Eof)
}

pub open spec fn tok(st: Stream, i: nat) -> TModel {
    if i < st.toks.len() {
        st.toks[i as int].tok
    } else {
        TModel::Eof
    }
}

/// A fault at the place the lexer stood after reading token `i`.
pub open spec fn fault_at(st: Stream, i: nat, kind: ErrorKind, code: u32) -> Fault {
    if i < st.toks.len() {
        fault(kind, code, st.toks[i as int].line, st.toks[i as int].col)
    } else {
        fault(kind, code, 0, 0)
    }
}

/// Syntax error 214 at token `i`, telling to close the if-block with `endif`.
pub open spec fn endif_fault_at(st: Stream, i: nat) -> Fault {
    if i < st.toks.len() {
        endif_fault(st.toks[i as int].line, st.toks[i as int].col)
    } else {
        endif_fault(0, 0)
    }
}

/// Consume token `i`: the index of the next token, or the lexer's fault
/// when reading it failed. At `Eof` the stream stays where it is.
pub open spec fn next(st: Stream, i: nat) -> Result<nat, Fault> {
    if i + 1 < st.toks.len() {
        Ok(i + 1)
    } else {
        match st.err {
            Some(f) => Err(f),
            None => Ok(i),
        }
    }
}

/// Whether an index `j` reached from `i` moves forward inside the stream.
pub open spec fn ahead(st: Stream, i: nat, j: nat) -> bool {
    i < j && j < st.toks.len()
}

/// The segments `.name` that follow token `i`, added to `acc`.
pub open spec fn path_rest(st: Stream, i: nat, acc: Seq<Text>) -> Result<(Seq<Text>, nat), Fault>
    decreases st.toks.len() - i,
{
    if tok(st, i) is Dot {
        match next(st, i) {
            Err(f) => Err(f),
            Ok(j) => match next(st, j) {
                Err(f) => Err(f),
                Ok(k) => match tok(st, j) {
                    TModel::Ident(n) => if ahead(st, i, k) {
                        path_rest(st, k, acc.push(n))
                    } else {
                        Err(fault_at(st, k, ErrorKind::Syntax, 210))
                    },
                    _ => Err(fault_at(st, k, ErrorKind::Syntax, 210)),
                },
            },
        }
    } else {
        Ok((acc, i))
    }
}

/// `$namespace(.name)*` at token `i`.
pub open spec fn dollar_ref(st: Stream, i: nat, host: Host) -> Result<(VModel, nat), Fault> {
    match next(st, i) {
        Err(f) => Err(f),
        Ok(j) => match next(st, j) {
            Err(f) => Err(f),
            Ok(k) => match tok(st, j) {
                TModel::Ident(name) => if name == env_word() || name == sys_word() || name
                    == runtime_word() {
                    match path_rest(st, k, seq![name]) {
                        Err(f) => Err(f),
                        Ok((p, m)) => match dollar_value(p, host) {
                            Ok(v) => Ok((v, m)),
                            Err(f) => Err(f),
                        },
                    }
                } else {
                    Err(fault_at(st, k, ErrorKind::Syntax, 209))
                },
                _ => Err(fault_at(st, k, ErrorKind::Syntax, 209)),
            },
        },
    }
}

/// Where a run of object items stops.
#[derive(Clone, Copy, PartialEq, Eq, Structural)]
pub enum Until {
    /// A block body: `end` (or `endif`) closes it and is consumed.
    End,
    /// The first branch of an if-block: stops before `else` or `endif`.
    ElseOrEndIf,
    /// The else branch of an if-block: stops before `endif`.
    EndIf,
}

/// A value at token `i`, and the index after it.
pub open spec fn parse_value(st: Stream, i: nat, host: Host) -> Result<(VModel, nat), Fault>
    decreases st.toks.len() - i, 0nat,
{
    match tok(st, i) {
        TModel::Str(s) => match next(st, i) {
            Err(f) => Err(f),
            Ok(j) => match expand_spec(s, host) {
                Ok(v) => Ok((v, j)),
                Err(f) => Err(f),
            },
        },
        TModel::Number(w, f) => match next(st, i) {
            Err(e) => Err(e),
            Ok(j) => Ok((VModel::Num(w, f), j)),
        },
        TModel::Bool(b) => match next(st, i) {
            Err(e) => Err(e),
            Ok(j) => Ok((VModel::Bool(b), j)),
        },
        TModel::Regex(t) => match next(st, i) {
            Err(e) => Err(e),
            Ok(j) => Ok((VModel::Regex(t), j)),
        },
        TModel::Null => match next(st, i) {
            Err(e) => Err(e),
            Ok(j) => Ok((VModel::Null, j)),
        },
        TModel::Dollar => dollar_ref(st, i, host),
        TModel::Ident(n) => match next(st, i) {
            Err(e) => Err(e),
            Ok(j) => match path_rest(st, j, seq![n]) {
                Err(e) => Err(e),
                Ok((p, k)) => Ok((VModel::Reference(p), k)),
            },
        },
        TModel::LBracket => match next(st, i) {
            Err(e) => Err(e),
            Ok(j) => if ahead(st, i, j) {
                array_items(st, j, Seq::empty(), host)
            } else {
                Err(fault_at(st, j, ErrorKind::InvalidToken, 210))
            },
        },
        TModel::If => match next(st, i) {
            Err(e) => Err(e),
            Ok(j) => if ahead(st, i, j) {
                match parse_condition(st, j, host) {
                    Err(e) => Err(e),
                    Ok((c, k)) => if ahead(st, i, k) {
                        match parse_value(st, k, host) {
                            Err(e) => Err(e),
                            Ok((tv, m)) => if tok(st, m) is Else {
                                match next(st, m) {
                                    Err(e) => Err(e),
                                    Ok(n) => if ahead(st, i, n) {
                                        match parse_value(st, n, host) {
                                            Err(e) => Err(e),
                                            Ok((ev, q)) => Ok(
                                                (
                                                    VModel::Conditional(
                                                        Box::new(c),
                                                        Box::new(tv),
                                                        Some(Box::new(ev)),
                                                    ),
                                                    q,
                                                ),
                                            ),
                                        }
                                    } else {
                                        Err(fault_at(st, n, ErrorKind::InvalidToken, 210))
                                    },
                                }
                            } else {
                                Ok((VModel::Conditional(Box::new(c), Box::new(tv), None), m))
                            },
                        }
                    } else {
                        Err(fault_at(st, k, ErrorKind::InvalidToken, 210))
                    },
                }
            } else {
                Err(fault_at(st, j, ErrorKind::InvalidToken, 210))
            },
        },
        _ => match next(st, i) {
            Err(e) => Err(e),
            Ok(j) => Err(fault_at(st, j, ErrorKind::InvalidToken, 210)),
        },
    }
}

/// The values of an array from token `i` up to `]`, added to `acc`.
pub open spec fn array_items(st: Stream, i: nat, acc: Seq<VModel>, host: Host) -> Result<(VModel, nat), Fault>
    decreases st.toks.len() - i, 1nat,
{
    match tok(st, i) {
        TModel::RBracket => match next(st, i) {
            Err(e) => Err(e),
            Ok(j) => Ok((VModel::Array(acc), j)),
        },
        TModel::Newline => match next(st, i) {
            Err(e) => Err(e),
            Ok(j) => if ahead(st, i, j) {
                array_items(st, j, acc, host)
            } else {
                Err(fault_at(st, j, ErrorKind::InvalidToken, 210))
            },
        },
        _ => match parse_value(st, i, host) {
            Err(e) => Err(e),
            Ok((v, k)) => if ahead(st, i, k) {
                array_items(st, k, acc.push(v), host)
            } else {
                Err(fault_at(st, k, ErrorKind::InvalidToken, 210))
            },
        },
    }
}

/// A condition at token `i`: a dotted path, then `= value` for an equality
/// test, or nothing for an existence test.
pub open spec fn parse_condition(st: Stream, i: nat, host: Host) -> Result<(CModel, nat), Fault>
    decreases st.toks.len() - i, 0nat,
{
    match next(st, i) {
        Err(e) => Err(e),
        Ok(j) => match tok(st, i) {
            TModel::Ident(n) => match path_rest(st, j, seq![n]) {
                Err(e) => Err(e),
                Ok((p, k)) => if tok(st, k) is Equals {
                    match next(st, k) {
                        Err(e) => Err(e),
                        Ok(m) => if ahead(st, i, m) {
                            match parse_value(st, m, host) {
                                Err(e) => Err(e),
                                Ok((v, q)) => Ok((CModel::Equals(p, v), q)),
                            }
                        } else {
                            Err(fault_at(st, m, ErrorKind::InvalidToken, 210))
                        },
                    }
                } else {
                    Ok((CModel::Exists(p), k))
                },
            },
            _ => Err(fault_at(st, j, ErrorKind::Syntax, 214)),
        },
    }
}

/// An assignment at token `i` (an identifier): `key value`, `key = value`,
/// or `key:` followed by a nested block.
pub open spec fn parse_assignment(st: Stream, i: nat, host: Host) -> Result<((Text, VModel), nat), Fault>
    decreases st.toks.len() - i, 0nat,
{
    match next(st, i) {
        Err(e) => Err(e),
        Ok(j) => match tok(st, i) {
            TModel::Ident(key) => match tok(st, j) {
                TModel::Colon => match next(st, j) {
                    Err(e) => Err(e),
                    Ok(k) => if ahead(st, i, k) {
                        match parse_items(st, k, Until::End, Seq::empty(), host) {
                            Err(e) => Err(e),
                            Ok((items, m)) => Ok(((key, VModel::Object(items)), m)),
                        }
                    } else {
                        Err(fault_at(st, k, ErrorKind::InvalidToken, 207))
                    },
                },
                TModel::Equals => match next(st, j) {
                    Err(e) => Err(e),
                    Ok(k) => if ahead(st, i, k) {
                        match parse_value(st, k, host) {
                            Err(e) => Err(e),
                            Ok((v, m)) => Ok(((key, v), m)),
                        }
                    } else {
                        Err(fault_at(st, k, ErrorKind::InvalidToken, 210))
                    },
                },
                _ => if ahead(st, i, j) {
                    match parse_value(st, j, host) {
                        Err(e) => Err(e),
                        Ok((v, m)) => Ok(((key, v), m)),
                    }
                } else {
                    Err(fault_at(st, j, ErrorKind::InvalidToken, 210))
                },
            },
            _ => Err(fault_at(st, j, ErrorKind::Syntax, 208)),
        },
    }
}

/// Consume a `:` at token `i`; anything else is a fault.
pub open spec fn expect_colon(st: Stream, i: nat) -> Result<nat, Fault> {
    match next(st, i) {
        Err(e) => Err(e),
        Ok(j) => if tok(st, i) is Colon {
            Ok(j)
        } else {
            Err(fault_at(st, j, ErrorKind::Syntax, 214))
        },
    }
}

/// `if condition: items [else: items] endif` at token `i`.
pub open spec fn parse_if_block(st: Stream, i: nat, host: Host) -> Result<(IModel, nat), Fault>
    decreases st.toks.len() - i, 0nat,
{
    match next(st, i) {
        Err(e) => Err(e),
        Ok(j) => if ahead(st, i, j) {
            match parse_condition(st, j, host) {
                Err(e) => Err(e),
                Ok((c, k)) => match expect_colon(st, k) {
                    Err(e) => Err(e),
                    Ok(m) => if ahead(st, i, m) {
                        match parse_items(st, m, Until::ElseOrEndIf, Seq::empty(), host) {
                            Err(e) => Err(e),
                            Ok((then_items, n)) => if tok(st, n) is Else {
                                match next(st, n) {
                                    Err(e) => Err(e),
                                    Ok(p) => match expect_colon(st, p) {
                                        Err(e) => Err(e),
                                        Ok(q) => if ahead(st, i, q) {
                                            match parse_items(st, q, Until::EndIf, Seq::empty(), host) {
                                                Err(e) => Err(e),
                                                Ok((else_items, u)) => match next(st, u) {
                                                    Err(e) => Err(e),
                                                    Ok(w) => if tok(st, u) is EndIf {
                                                        Ok((IModel::IfBlock(c, then_items, Some(else_items)), w))
                                                    } else {
                                                        Err(fault_at(st, w, ErrorKind::Syntax, 214))
                                                    },
                                                },
                                            }
                                        } else {
                                            Err(fault_at(st, q, ErrorKind::Syntax, 214))
                                        },
                                    },
                                }
                            } else {
                                match next(st, n) {
                                    Err(e) => Err(e),
                                    Ok(w) => if tok(st, n) is EndIf {
                                        Ok((IModel::IfBlock(c, then_items, None), w))
                                    } else {
                                        Err(fault_at(st, w, ErrorKind::Syntax, 214))
                                    },
                                }
                            },
                        }
                    } else {
                        Err(fault_at(st, m, ErrorKind::Syntax, 214))
                    },
                },
            }
        } else {
            Err(fault_at(st, j, ErrorKind::Syntax, 214))
        },
    }
}

/// Object items from token `i`, added to `acc`, up to where `until` says.
pub open spec fn parse_items(st: Stream, i: nat, until: Until, acc: Seq<IModel>, host: Host) -> Result<
    (Seq<IModel>, nat),
    Fault,
>
    decreases st.toks.len() - i, 1nat,
{
    match tok(st, i) {
        TModel::Newline => match next(st, i) {
            Err(e) => Err(e),
            Ok(j) => if ahead(st, i, j) {
                parse_items(st, j, until, acc, host)
            } else {
                Err(fault_at(st, j, ErrorKind::InvalidToken, 207))
            },
        },
        TModel::Ident(_) => match parse_assignment(st, i, host) {
            Err(e) => Err(e),
            Ok(((k, v), j)) => if ahead(st, i, j) {
                parse_items(st, j, until, acc.push(IModel::Assign(k, v)), host)
            } else {
                Err(fault_at(st, j, ErrorKind::InvalidToken, 207))
            },
        },
        TModel::If => match parse_if_block(st, i, host) {
            Err(e) => Err(e),
            Ok((b, j)) => if ahead(st, i, j) {
                parse_items(st, j, until, acc.push(b), host)
            } else {
                Err(fault_at(st, j, ErrorKind::InvalidToken, 207))
            },
        },
        TModel::End => match until {
            Until::End => match next(st, i) {
                Err(e) => Err(e),
                Ok(j) => Ok((acc, j)),
            },
            _ => Err(endif_fault_at(st, i)),
        },
        TModel::EndIf => match until {
            Until::End => match next(st, i) {
                Err(e) => Err(e),
                Ok(j) => Ok((acc, j)),
            },
            _ => Ok((acc, i)),
        },
        TModel::Else => match until {
            Until::ElseOrEndIf => Ok((acc, i)),
            _ => Err(fault_at(st, i, ErrorKind::InvalidToken, 207)),
        },
        _ => Err(fault_at(st, i, ErrorKind::InvalidToken, 207)),
    }
}

/// A document as sequences: top-level blocks, `@` metadata, and globals.
pub struct DModel {
    pub items: Seq<(Text, VModel)>,
    pub metadata: Seq<(Text, VModel)>,
    pub globals: Seq<(Text, VModel)>,
}

pub open spec fn empty_doc() -> DModel {
    DModel { items: Seq::empty(), metadata: Seq::empty(), globals: Seq::empty() }
}

/// The position of the last `.` among the first `k` characters.
pub open spec fn last_dot(n: Text, k: nat) -> Option<nat>
    decreases k,
{
    if k == 0 || k > n.len() {
        None
    } else if n[k - 1] == '.' {
        Some((k - 1) as nat)
    } else {
        last_dot(n, (k - 1) as nat)
    }
}

pub open spec fn imported_word() -> Text {
    seq!['i', 'm', 'p', 'o', 'r', 't', 'e', 'd']
}

/// What `Path::file_stem` gives for a path, as text.
pub uninterp spec fn file_stem_of(p: Text) -> Option<Text>;

/// The alias of `gather "path"` without `as`: the path's file stem, or
/// `imported` when it has none.
pub open spec fn default_alias(p: Text) -> Text {
    alias_from_stem(file_stem_of(p))
}

pub open spec fn alias_from_stem(stem: Option<Text>) -> Text {
    match stem {
        Some(s) => s,
        None => imported_word(),
    }
}

/// `@key value` at token `i`.
pub open spec fn top_metadata(st: Stream, i: nat, host: Host) -> Result<((Text, VModel), nat), Fault> {
    match next(st, i) {
        Err(e) => Err(e),
        Ok(j) => match next(st, j) {
            Err(e) => Err(e),
            Ok(k) => match tok(st, j) {
                TModel::Ident(key) => if ahead(st, i, k) {
                    match parse_value(st, k, host) {
                        Err(e) => Err(e),
                        Ok((v, m)) => Ok(((key, v), m)),
                    }
                } else {
                    Err(fault_at(st, k, ErrorKind::Syntax, 203))
                },
                _ => Err(fault_at(st, k, ErrorKind::Syntax, 203)),
            },
        },
    }
}

/// `gather "path" [as alias]` at token `i`: the alias and the path.
pub open spec fn top_gather(st: Stream, i: nat) -> Result<((Text, Text), nat), Fault> {
    match next(st, i) {
        Err(e) => Err(e),
        Ok(j) => match next(st, j) {
            Err(e) => Err(e),
            Ok(k) => match tok(st, j) {
                TModel::Str(f) => if tok(st, k) is As {
                    match next(st, k) {
                        Err(e) => Err(e),
                        Ok(m) => match next(st, m) {
                            Err(e) => Err(e),
                            Ok(n) => match tok(st, m) {
                                TModel::Ident(a) => Ok(((a, f), n)),
                                _ => Err(fault_at(st, n, ErrorKind::Syntax, 212)),
                            },
                        },
                    }
                } else {
                    Ok(((default_alias(f), f), k))
                },
                _ => Err(fault_at(st, k, ErrorKind::Syntax, 211)),
            },
        },
    }
}

/// The top level of a document from token `i` on, added to `doc`, with the
/// `gather` statements (alias, path) seen so far.
pub open spec fn parse_top(st: Stream, i: nat, doc: DModel, gathers: Seq<(Text, Text)>, host: Host) -> Result<
    (DModel, Seq<(Text, Text)>),
    Fault,
>
    decreases st.toks.len() - i,
{
    match tok(st, i) {
        TModel::Newline => match next(st, i) {
            Err(e) => Err(e),
            Ok(j) => if ahead(st, i, j) {
                parse_top(st, j, doc, gathers, host)
            } else {
                Ok((doc, gathers))
            },
        },
        TModel::Eof => Ok((doc, gathers)),
        TModel::At => match top_metadata(st, i, host) {
            Err(e) => Err(e),
            Ok((kv, m)) => {
                let doc2 = DModel { metadata: doc.metadata.push(kv), ..doc };
                if ahead(st, i, m) {
                    parse_top(st, m, doc2, gathers, host)
                } else {
                    Ok((doc2, gathers))
                }
            },
        },
        TModel::Ident(_) => match parse_assignment(st, i, host) {
            Err(e) => Err(e),
            Ok((kv, m)) => {
                let doc2 = if tok(st, i + 1) is Colon {
                    DModel { items: doc.items.push(kv), ..doc }
                } else {
                    DModel { globals: doc.globals.push(kv), ..doc }
                };
                if ahead(st, i, m) {
                    parse_top(st, m, doc2, gathers, host)
                } else {
                    Ok((doc2, gathers))
                }
            },
        },
        TModel::Gather => match top_gather(st, i) {
            Err(e) => Err(e),
            Ok((g, m)) => if ahead(st, i, m) {
                parse_top(st, m, doc, gathers.push(g), host)
            } else {
                Ok((doc, gathers.push(g)))
            },
        },
        TModel::Dollar => Err(fault_at(st, i, ErrorKind::Syntax, 213)),
        _ => Err(fault_at(st, i, ErrorKind::InvalidToken, 205)),
    }
}

/// What parsing a stream gives: the document and its `gather` statements.
pub open spec fn parse_stream(st: Stream, host: Host) -> Result<(DModel, Seq<(Text, Text)>), Fault> {
    parse_top(st, 0, empty_doc(), Seq::empty(), host)
}

proof fn lemma_skip_blank_bounds(s: Text, p: nat, nl: bool, c: bool)
    ensures
        p <= skip_blank(s, p, nl, c),
        p <= s.len() ==> skip_blank(s, p, nl, c) <= s.len(),
    decreases s.len() - p, if c { 1nat } else { 0nat },
{
    if p < s.len() {
        if c {
            if s[p as int] == '\n' {
                lemma_skip_blank_bounds(s, p, nl, false);
            } else {
                lemma_skip_blank_bounds(s, p + 1, nl, true);
            }
        } else if s[p as int] == ' ' || s[p as int] == '\t' || s[p as int] == ',' || (s[p as int] == '\n'
            && nl) {
            lemma_skip_blank_bounds(s, p + 1, nl, false);
        } else if s[p as int] == '#' {
            lemma_skip_blank_bounds(s, p + 1, nl, true);
        }
    }
}

proof fn lemma_string_scan_end(s: Text, i: nat, q: char, acc: Text)
    ensures
        string_scan(s, i, q, acc) matches Some((_, e)) ==> i < e <= s.len(),
    decreases s.len() - i,
{
    if i < s.len() && s[i as int] != q {
        if s[i as int] == '\\' {
            if i + 1 < s.len() {
                lemma_string_scan_end(s, i + 2, q, acc.push(crate::lexer::unescape(s[i + 1 as int])));
            }
        } else {
            lemma_string_scan_end(s, i + 1, q, acc.push(s[i as int]));
        }
    }
}

proof fn lemma_regex_scan_end(s: Text, i: nat, acc: Text)
    ensures
        regex_scan(s, i, acc) matches Some((_, e)) ==> i < e <= s.len(),
    decreases s.len() - i,
{
    if i < s.len() && s[i as int] != '"' {
        if s[i as int] == '\\' {
            if i + 1 < s.len() {
                lemma_regex_scan_end(s, i + 2, acc.push('\\').push(s[i + 1 as int]));
            }
        } else {
            lemma_regex_scan_end(s, i + 1, acc.push(s[i as int]));
        }
    }
}

proof fn lemma_number_scan_end(s: Text, i: nat, w: Seq<u8>, f: Seq<u8>, d: nat)
    ensures
        i <= number_scan(s, i, w, f, d).3,
        i <= s.len() ==> number_scan(s, i, w, f, d).3 <= s.len(),
        i < s.len() && crate::lexer::is_dec_digit(s[i as int]) ==> i < number_scan(s, i, w, f, d).3,
    decreases s.len() - i,
{
    if i < s.len() && (crate::lexer::is_dec_digit(s[i as int]) || s[i as int] == '.') {
        let c = s[i as int];
        if c == '.' {
            lemma_number_scan_end(s, i + 1, w, f, d + 1);
        } else if d == 0 {
            lemma_number_scan_end(s, i + 1, w.push(crate::lexer::digit_of(c)), f, d);
        } else {
            lemma_number_scan_end(s, i + 1, w, f.push(crate::lexer::digit_of(c)), d);
        }
    }
}

/// Every token but `Eof` moves the lexer forward, and never past the end.
pub proof fn lemma_token_progress(s: Text, p: nat, nl: bool)
    requires
        p <= s.len(),
    ensures
        next_token_spec(s, p, nl) matches Lexeme::Tok(t, q) ==> (!(t is Eof) ==> p < q <= s.len()),
{
    let q = skip_blank(s, p, nl, false);
    lemma_skip_blank_bounds(s, p, nl, false);
    if q < s.len() {
        let c = s[q as int];
        if c == 'r' && q + 1 < s.len() && s[q + 1 as int] == '"' {
            lemma_regex_scan_end(s, q + 2, Seq::empty());
        } else if c == '"' || c == '\'' {
            lemma_string_scan_end(s, q + 1, c, Seq::empty());
        } else if crate::lexer::is_dec_digit(c) {
            lemma_number_scan_end(s, q, Seq::empty(), Seq::empty(), 0);
        } else {
            lemma_ident_end_bounds(s, q + 1);
        }
    }
}

/// The stream of any input is one the parser can read, once it holds a token.
pub proof fn lemma_lex_all_wf(s: Text, p: nat, acc: Seq<PTok>)
    requires
        p <= s.len(),
        forall|k: int| 0 <= k < acc.len() ==> !(#[trigger] acc[k].tok is Eof),
    ensures
        lex_all(s, p, acc).toks.len() >= acc.len(),
        lex_all(s, p, acc).toks.len() >= 1 ==> stream_wf(lex_all(s, p, acc)),
        lex_all(s, p, acc).toks.len() == 0 ==> lex_all(s, p, acc).err is Some,
    decreases s.len() - p,
{
    lemma_token_progress(s, p, false);
    match next_token_spec(s, p, false) {
        Lexeme::Tok(t, q) => {
            let pt = PTok { tok: t, line: loc(s, q).0, col: loc(s, q).1 };
            let acc2 = acc.push(pt);
            if t is Eof {
                assert forall|k: int| 0 <= k < acc2.len() - 1 implies !(#[trigger] acc2[k].tok is Eof) by {
                    assert(acc2[k] == acc[k]);
                }
            } else if p < q && q <= s.len() {
                assert forall|k: int| 0 <= k < acc2.len() implies !(#[trigger] acc2[k].tok is Eof) by {
                    if k < acc.len() {
                        assert(acc2[k] == acc[k]);
                    }
                }
                lemma_lex_all_wf(s, q, acc2);
            }
        },
        Lexeme::Fail(f, _) => {
            if acc.len() >= 1 {
                assert(!(acc.last().tok is Eof));
            }
        },
    }
}

} // verus!
