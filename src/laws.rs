//! Properties that hold across the lexer, the parser and the resolver.
use vstd::prelude::*;
use crate::ast::{Document, IModel, Text, VModel};
use crate::error::{fault, ErrorKind};
use crate::eval::{
    find_doc, first_error, flat, flatten_item, flatten_list, flatten_results, lookup, namespace_value, oks,
    resolve_m, resolve_results,
};
use crate::host::{env_lookup, Host};
use crate::resolver::env_word;

verus! {

broadcast use vstd::seq::group_seq_axioms;

/// A resolved tree: no conditionals, no if-blocks, and only references
/// that name nothing.
pub open spec fn settled(m: VModel, doc: Document, imports: Seq<(String, Document)>, host: Host) -> bool
    decreases m,
{
    match m {
        VModel::Conditional(_, _, _) => false,
        VModel::Reference(p) => (namespace_value(p, host) is None && lookup(p, doc, imports) is None)
            || namespace_value(p, host) == Some(Ok::<VModel, crate::error::Fault>(VModel::Reference(p))),
        VModel::Array(s) => forall|i: int| 0 <= i < s.len() ==> settled(#[trigger] s[i], doc, imports, host),
        VModel::Object(items) => forall|i: int|
            0 <= i < items.len() ==> match #[trigger] items[i] {
                IModel::Assign(_, v) => settled(v, doc, imports, host),
                IModel::IfBlock(_, _, _) => false,
            },
        _ => true,
    }
}

proof fn lemma_flat_singletons<T>(ss: Seq<Seq<T>>)
    requires
        forall|i: int| 0 <= i < ss.len() ==> (#[trigger] ss[i]).len() == 1,
    ensures
        flat(ss).len() == ss.len(),
        forall|i: int| 0 <= i < ss.len() ==> flat(ss)[i] == (#[trigger] ss[i])[0],
    decreases ss.len(),
{
    if ss.len() > 0 {
        let init = ss.drop_last();
        assert forall|i: int| 0 <= i < init.len() implies (#[trigger] init[i]).len() == 1 by {
            assert(init[i] == ss[i]);
        }
        lemma_flat_singletons(init);
        assert forall|i: int| 0 <= i < ss.len() implies flat(ss)[i] == (#[trigger] ss[i])[0] by {
            if i < init.len() {
                assert(init[i] == ss[i]);
            }
        }
    }
}

proof fn lemma_no_error<T>(rs: Seq<Result<T, crate::error::Fault>>)
    requires
        forall|i: int| 0 <= i < rs.len() ==> #[trigger] rs[i] is Ok,
    ensures
        first_error(rs) is None,
    decreases rs.len(),
{
    if rs.len() > 0 {
        let t = rs.drop_first();
        assert forall|i: int| 0 <= i < t.len() implies #[trigger] t[i] is Ok by {
            assert(t[i] == rs[i + 1]);
        }
        lemma_no_error(t);
    }
}

/// Resolving an already resolved tree gives it back unchanged, so resolving
/// twice is the same as resolving once.
pub proof fn lemma_resolve_settled(m: VModel, doc: Document, imports: Seq<(String, Document)>, host: Host, fuel: nat)
    requires
        settled(m, doc, imports, host),
    ensures
        resolve_m(m, doc, imports, host, fuel) == Ok::<VModel, crate::error::Fault>(m),
    decreases m,
{
    match m {
        VModel::Array(s) => {
            let rs = resolve_results(s, doc, imports, host, fuel);
            assert forall|i: int| 0 <= i < rs.len() implies #[trigger] rs[i] == Ok::<VModel, crate::error::Fault>(s[i]) by {
                lemma_resolve_settled(s[i], doc, imports, host, fuel);
            }
            lemma_no_error(rs);
            assert forall|i: int| 0 <= i < s.len() implies oks(rs)[i] == s[i] by {
                assert(rs[i] == Ok::<VModel, crate::error::Fault>(s[i]));
            }
            assert(oks(rs) =~= s);
            assert(VModel::Array(oks(rs)) == m);
            assert(resolve_m(m, doc, imports, host, fuel) == Ok::<VModel, crate::error::Fault>(m));
        },
        VModel::Object(items) => {
            let rs = flatten_results(items, doc, imports, host, fuel);
            assert forall|i: int| 0 <= i < rs.len() implies #[trigger] rs[i] == Ok::<Seq<IModel>, crate::error::Fault>(seq![items[i]]) by {
                match items[i] {
                    IModel::Assign(k, v) => {
                        lemma_resolve_settled(v, doc, imports, host, fuel);
                    },
                    _ => {},
                }
            }
            lemma_no_error(rs);
            let ss = oks(rs);
            assert forall|i: int| 0 <= i < ss.len() implies (#[trigger] ss[i]).len() == 1 by {
                assert(rs[i] == Ok::<Seq<IModel>, crate::error::Fault>(seq![items[i]]));
            }
            lemma_flat_singletons(ss);
            assert forall|i: int| 0 <= i < items.len() implies flat(ss)[i] == items[i] by {
                assert(rs[i] == Ok::<Seq<IModel>, crate::error::Fault>(seq![items[i]]));
                assert(ss[i] == seq![items[i]]);
            }
            assert(flat(ss) =~= items);
            assert(VModel::Object(flat(ss)) == m);
            assert(flatten_list(items, doc, imports, host, fuel) == Ok::<Seq<IModel>, crate::error::Fault>(flat(ss)));
            assert(resolve_m(m, doc, imports, host, fuel) == Ok::<VModel, crate::error::Fault>(m));
        },
        VModel::Reference(p) => {
            assert(resolve_m(m, doc, imports, host, fuel) == Ok::<VModel, crate::error::Fault>(m));
        },
        _ => {
            assert(resolve_m(m, doc, imports, host, fuel) == Ok::<VModel, crate::error::Fault>(m));
        },
    }
}

/// Every field of a flattened list is a plain field with a resolved value.
pub open spec fn settled_fields(fs: Seq<IModel>, doc: Document, imports: Seq<(String, Document)>, host: Host) -> bool {
    forall|i: int|
        0 <= i < fs.len() ==> match #[trigger] fs[i] {
            IModel::Assign(_, v) => settled(v, doc, imports, host),
            IModel::IfBlock(_, _, _) => false,
        }
}

proof fn lemma_flat_settled(ss: Seq<Seq<IModel>>, doc: Document, imports: Seq<(String, Document)>, host: Host)
    requires
        forall|i: int| 0 <= i < ss.len() ==> settled_fields(#[trigger] ss[i], doc, imports, host),
    ensures
        settled_fields(flat(ss), doc, imports, host),
    decreases ss.len(),
{
    if ss.len() > 0 {
        let init = ss.drop_last();
        assert forall|i: int| 0 <= i < init.len() implies settled_fields(#[trigger] init[i], doc, imports, host) by {
            assert(init[i] == ss[i]);
        }
        lemma_flat_settled(init, doc, imports, host);
        let f = flat(ss);
        let a = flat(init);
        let b = ss.last();
        assert(f == a + b);
        assert(settled_fields(b, doc, imports, host));
        assert forall|i: int| 0 <= i < f.len() implies match #[trigger] f[i] {
            IModel::Assign(_, v) => settled(v, doc, imports, host),
            IModel::IfBlock(_, _, _) => false,
        } by {
            if i < a.len() {
                assert(f[i] == a[i]);
            } else {
                assert(f[i] == b[i - a.len()]);
            }
        }
    }
}

/// What resolution gives is resolved: no conditionals, no if-blocks, and
/// only references that name nothing (or that stay for `$runtime`).
pub proof fn lemma_resolved_is_settled(m: VModel, doc: Document, imports: Seq<(String, Document)>, host: Host, fuel: nat)
    ensures
        resolve_m(m, doc, imports, host, fuel) matches Ok(r) ==> settled(r, doc, imports, host),
    decreases fuel, m, 1nat,
{
    match m {
        VModel::Conditional(c, t, e) => {
            lemma_resolved_is_settled(*t, doc, imports, host, fuel);
            match e {
                Some(x) => lemma_resolved_is_settled(*x, doc, imports, host, fuel),
                None => {},
            }
        },
        VModel::Reference(p) => {
            match namespace_value(p, host) {
                Some(_) => {},
                None => match lookup(p, doc, imports) {
                    Some(w) => if fuel > 0 {
                        lemma_resolved_is_settled(w.model(), doc, imports, host, (fuel - 1) as nat);
                    },
                    None => {},
                },
            }
        },
        VModel::Array(s) => {
            let rs = resolve_results(s, doc, imports, host, fuel);
            assert forall|i: int| 0 <= i < rs.len() && rs[i] is Ok implies settled(#[trigger] oks(rs)[i], doc, imports, host) by {
                lemma_resolved_is_settled(s[i], doc, imports, host, fuel);
            }
            if first_error(rs) is None {
                assert forall|i: int| 0 <= i < rs.len() implies #[trigger] rs[i] is Ok by {
                    if rs[i] is Err {
                        lemma_error_found(rs, i);
                    }
                }
            }
        },
        VModel::Object(items) => {
            lemma_flatten_list_settled(items, doc, imports, host, fuel);
        },
        _ => {},
    }
}

proof fn lemma_flatten_list_settled(items: Seq<IModel>, doc: Document, imports: Seq<(String, Document)>, host: Host, fuel: nat)
    ensures
        flatten_list(items, doc, imports, host, fuel) matches Ok(fs) ==> settled_fields(fs, doc, imports, host),
    decreases fuel, items, 0nat,
{
    let rs = flatten_results(items, doc, imports, host, fuel);
    if first_error(rs) is None {
        assert forall|i: int| 0 <= i < rs.len() implies #[trigger] rs[i] is Ok by {
            if rs[i] is Err {
                lemma_error_found(rs, i);
            }
        }
        let ss = oks(rs);
        assert forall|i: int| 0 <= i < ss.len() implies settled_fields(#[trigger] ss[i], doc, imports, host) by {
            lemma_flatten_item_settled(items[i], doc, imports, host, fuel);
        }
        lemma_flat_settled(ss, doc, imports, host);
    }
}

proof fn lemma_flatten_item_settled(it: IModel, doc: Document, imports: Seq<(String, Document)>, host: Host, fuel: nat)
    ensures
        flatten_item(it, doc, imports, host, fuel) matches Ok(fs) ==> settled_fields(fs, doc, imports, host),
    decreases fuel, it, 2nat,
{
    match it {
        IModel::Assign(k, v) => {
            lemma_resolved_is_settled(v, doc, imports, host, fuel);
        },
        IModel::IfBlock(c, t, e) => {
            lemma_flatten_list_settled(t, doc, imports, host, fuel);
            match e {
                Some(x) => lemma_flatten_list_settled(x, doc, imports, host, fuel),
                None => {},
            }
        },
    }
}

/// Resolving twice gives what resolving once gives.
pub proof fn lemma_resolve_idempotent(m: VModel, doc: Document, imports: Seq<(String, Document)>, host: Host, fuel: nat, fuel2: nat)
    ensures
        resolve_m(m, doc, imports, host, fuel) matches Ok(r) ==> resolve_m(r, doc, imports, host, fuel2) == Ok::<
            VModel,
            crate::error::Fault,
        >(r),
{
    lemma_resolved_is_settled(m, doc, imports, host, fuel);
    if resolve_m(m, doc, imports, host, fuel) is Ok {
        lemma_resolve_settled(resolve_m(m, doc, imports, host, fuel)->Ok_0, doc, imports, host, fuel2);
    }
}

/// A regex body: no unescaped `"`, and no backslash at its end.
pub open spec fn regex_body(b: Text) -> bool
    decreases b.len(),
{
    if b.len() == 0 {
        true
    } else if b[0] == '"' {
        false
    } else if b[0] == '\\' {
        b.len() >= 2 && regex_body(b.skip(2))
    } else {
        regex_body(b.skip(1))
    }
}

/// A string body closed by `q`: no unescaped `q`, and no backslash at its end.
pub open spec fn string_body(b: Text, q: char) -> bool
    decreases b.len(),
{
    if b.len() == 0 {
        true
    } else if b[0] == q {
        false
    } else if b[0] == '\\' {
        b.len() >= 2 && string_body(b.skip(2), q)
    } else {
        string_body(b.skip(1), q)
    }
}

/// A string body with each escape `\c` replaced by the one character it
/// stands for.
pub open spec fn unescaped(b: Text) -> Text
    decreases b.len(),
{
    if b.len() == 0 {
        Seq::empty()
    } else if b[0] == '\\' && b.len() >= 2 {
        seq![crate::lexer::unescape(b[1])] + unescaped(b.skip(2))
    } else {
        seq![b[0]] + unescaped(b.skip(1))
    }
}

proof fn lemma_regex_scan_body(s: Text, i: int, b: Text, acc: Text)
    requires
        0 <= i,
        regex_body(b),
        i + b.len() < s.len(),
        s.subrange(i, i + b.len()) == b,
        s[i + b.len()] == '"',
    ensures
        crate::lexer::regex_scan(s, i as nat, acc) == Some((acc + b, (i + b.len() + 1) as nat)),
    decreases b.len(),
{
    if b.len() == 0 {
        assert(acc + b =~= acc);
    } else {
        assert(s[i] == b[0]);
        if b[0] == '\\' {
            assert(s[i + 1] == b[1]);
            assert(s.subrange(i + 2, i + 2 + b.skip(2).len()) =~= b.skip(2));
            lemma_regex_scan_body(s, i + 2, b.skip(2), acc.push('\\').push(b[1]));
            assert(acc.push('\\').push(b[1]) + b.skip(2) =~= acc + b);
        } else {
            assert(s.subrange(i + 1, i + 1 + b.skip(1).len()) =~= b.skip(1));
            lemma_regex_scan_body(s, i + 1, b.skip(1), acc.push(b[0]));
            assert(acc.push(b[0]) + b.skip(1) =~= acc + b);
        }
    }
}

/// A regex literal keeps its body as written: where `r"` then a body then
/// `"` starts at `q`, the lexer gives the body unchanged, backslashes
/// included, and goes on after the closing quote.
pub proof fn lemma_regex_literal_verbatim(s: Text, q: nat, b: Text)
    requires
        regex_body(b),
        s.len() > q + b.len() + 2,
        s[q as int] == 'r',
        s[q + 1 as int] == '"',
        s.subrange(q + 2 as int, q + 2 + b.len() as int) == b,
        s[q + 2 + b.len() as int] == '"',
    ensures
        crate::lexer::token_at(s, q) == crate::lexer::Lexeme::Tok(crate::lexer::TModel::Regex(b), q + b.len() + 3),
{
    lemma_regex_scan_body(s, q + 2 as int, b, Seq::empty());
    assert(Seq::<char>::empty() + b =~= b);
}

proof fn lemma_string_scan_body(s: Text, i: int, q: char, b: Text, acc: Text)
    requires
        0 <= i,
        string_body(b, q),
        i + b.len() < s.len(),
        s.subrange(i, i + b.len()) == b,
        s[i + b.len()] == q,
    ensures
        crate::lexer::string_scan(s, i as nat, q, acc) == Some((acc + unescaped(b), (i + b.len() + 1) as nat)),
    decreases b.len(),
{
    if b.len() == 0 {
        assert(acc + unescaped(b) =~= acc);
    } else {
        assert(s[i] == b[0]);
        if b[0] == '\\' {
            assert(s[i + 1] == b[1]);
            assert(s.subrange(i + 2, i + 2 + b.skip(2).len()) =~= b.skip(2));
            lemma_string_scan_body(s, i + 2, q, b.skip(2), acc.push(crate::lexer::unescape(b[1])));
            assert(acc.push(crate::lexer::unescape(b[1])) + unescaped(b.skip(2)) =~= acc + unescaped(b));
        } else {
            assert(s.subrange(i + 1, i + 1 + b.skip(1).len()) =~= b.skip(1));
            lemma_string_scan_body(s, i + 1, q, b.skip(1), acc.push(b[0]));
            assert(acc.push(b[0]) + unescaped(b.skip(1)) =~= acc + unescaped(b));
        }
    }
}

/// A string literal gives its body with every escape expanded to exactly
/// one character (`\n`, `\t`, `\r` to control characters, any other
/// escaped character to itself): where the literal starts at `q`, the
/// lexer goes on after its closing quote.
pub proof fn lemma_string_literal_unescaped(s: Text, q: nat, quote: char, b: Text)
    requires
        quote == '"' || quote == '\'',
        string_body(b, quote),
        s.len() > q + b.len() + 1,
        s[q as int] == quote,
        s.subrange(q + 1 as int, q + 1 + b.len() as int) == b,
        s[q + 1 + b.len() as int] == quote,
    ensures
        crate::lexer::token_at(s, q) == crate::lexer::Lexeme::Tok(
            crate::lexer::TModel::Str(unescaped(b)),
            q + b.len() + 2,
        ),
{
    lemma_string_scan_body(s, q + 1 as int, quote, b, Seq::empty());
    assert(Seq::<char>::empty() + unescaped(b) =~= unescaped(b));
}

proof fn lemma_flat_one(x: Seq<IModel>)
    ensures
        flat(seq![x]) == x,
{
    assert(seq![x].drop_last() =~= Seq::<Seq<IModel>>::empty());
    assert(flat(Seq::<Seq<IModel>>::empty()) == Seq::<IModel>::empty());
    assert(Seq::<IModel>::empty() + x =~= x);
}

/// An if-block whose `Exists` condition names nothing is replaced, in its
/// place, by the fields of its else branch: `name "A"` then
/// `if debug: flag true else: flag false endif` flattens to `name "A"`,
/// `flag false` when `debug` is defined nowhere.
pub proof fn lemma_else_branch_spliced(
    name: Text,
    a: Text,
    flag: Text,
    debug: Text,
    doc: Document,
    imports: Seq<(String, Document)>,
    host: Host,
    fuel: nat,
)
    requires
        lookup(seq![debug], doc, imports) is None,
    ensures
        flatten_list(
            seq![
                IModel::Assign(name, VModel::Str(a)),
                IModel::IfBlock(
                    crate::ast::CModel::Exists(seq![debug]),
                    seq![IModel::Assign(flag, VModel::Bool(true))],
                    Some(seq![IModel::Assign(flag, VModel::Bool(false))]),
                ),
            ],
            doc,
            imports,
            host,
            fuel,
        ) == Ok::<Seq<IModel>, crate::error::Fault>(
            seq![IModel::Assign(name, VModel::Str(a)), IModel::Assign(flag, VModel::Bool(false))],
        ),
{
    let first = IModel::Assign(name, VModel::Str(a));
    let off = IModel::Assign(flag, VModel::Bool(false));
    let block = IModel::IfBlock(
        crate::ast::CModel::Exists(seq![debug]),
        seq![IModel::Assign(flag, VModel::Bool(true))],
        Some(seq![off]),
    );
    let items = seq![first, block];
    assert(!crate::eval::cond_met(crate::ast::CModel::Exists(seq![debug]), doc, imports, host, fuel));
    let inner = flatten_results(seq![off], doc, imports, host, fuel);
    assert(inner[0] == Ok::<Seq<IModel>, crate::error::Fault>(seq![off]));
    lemma_no_error(inner);
    assert(oks(inner) =~= seq![seq![off]]);
    lemma_flat_one(seq![off]);
    let rs = flatten_results(items, doc, imports, host, fuel);
    assert(rs[0] == Ok::<Seq<IModel>, crate::error::Fault>(seq![first]));
    assert(rs[1] == Ok::<Seq<IModel>, crate::error::Fault>(seq![off]));
    lemma_no_error(rs);
    let ss = oks(rs);
    assert(ss =~= seq![seq![first], seq![off]]);
    assert(ss.drop_last() =~= seq![seq![first]]);
    lemma_flat_one(seq![first]);
    assert(flat(ss) =~= seq![first, off]);
}

/// Flattening an object without if-blocks keeps its fields, in the order
/// they were written, each with its value resolved.
pub proof fn lemma_flatten_keeps_order(items: Seq<IModel>, doc: Document, imports: Seq<(String, Document)>, host: Host, fuel: nat)
    requires
        forall|i: int| 0 <= i < items.len() ==> #[trigger] items[i] is Assign,
    ensures
        flatten_list(items, doc, imports, host, fuel) matches Ok(fs) ==> {
            &&& fs.len() == items.len()
            &&& forall|i: int|
                0 <= i < items.len() ==> (#[trigger] fs[i]) is Assign && fs[i]->Assign_0 == items[i]->Assign_0
                    && resolve_m(items[i]->Assign_1, doc, imports, host, fuel) == Ok::<VModel, crate::error::Fault>(
                    fs[i]->Assign_1,
                )
        },
{
    let rs = flatten_results(items, doc, imports, host, fuel);
    if first_error(rs) is None {
        assert forall|i: int| 0 <= i < rs.len() implies #[trigger] rs[i] is Ok by {
            if rs[i] is Err {
                lemma_error_found(rs, i);
            }
        }
        let ss = oks(rs);
        assert forall|i: int| 0 <= i < ss.len() implies (#[trigger] ss[i]).len() == 1 by {
            assert(rs[i] is Ok);
        }
        lemma_flat_singletons(ss);
        assert forall|i: int| 0 <= i < items.len() implies (#[trigger] flat(ss)[i]) is Assign && flat(ss)[i]->Assign_0
            == items[i]->Assign_0 && resolve_m(items[i]->Assign_1, doc, imports, host, fuel) == Ok::<
            VModel,
            crate::error::Fault,
        >(flat(ss)[i]->Assign_1) by {
            assert(rs[i] is Ok);
            assert(flat(ss)[i] == ss[i][0]);
        }
    }
}

proof fn lemma_error_found<T>(rs: Seq<Result<T, crate::error::Fault>>, i: int)
    requires
        0 <= i < rs.len(),
        rs[i] is Err,
    ensures
        first_error(rs) is Some,
    decreases i,
{
    if i > 0 && rs[0] is Ok {
        lemma_error_found(rs.drop_first(), i - 1);
    }
}

/// When the first segment of a path is an import alias, the path is looked
/// up in the imported document, whatever the current document holds.
pub proof fn lemma_import_alias_wins(path: Seq<Text>, doc: Document, imports: Seq<(String, Document)>, d: Document)
    requires
        path.len() >= 2,
        find_doc(imports, path[0]) == Some(d),
    ensures
        lookup(path, doc, imports) == lookup(path.drop_first(), d, Seq::empty()),
{
    assert(find_doc(Seq::<(String, Document)>::empty(), path.drop_first()[0]) is None);
}

/// At parse time `$env.NAME` in value position never fails: a set variable
/// is read now, an unset one stays a reference to resolve later.
pub proof fn lemma_env_at_parse_time_never_fails(name: Text, host: Host)
    ensures
        crate::resolver::dollar_value(seq![env_word(), name], host) == Ok::<VModel, crate::error::Fault>(
            match env_lookup(host.env@, name) {
                Some(t) => VModel::Str(t),
                None => VModel::Reference(seq![env_word(), name]),
            },
        ),
{
}

/// A missing variable is reported when the value is resolved: what parsing
/// makes of `$env.NAME` with `NAME` unset resolves to runtime error 308.
pub proof fn lemma_missing_env_fails_at_resolution(name: Text, doc: Document, imports: Seq<(String, Document)>, host: Host, fuel: nat)
    requires
        env_lookup(host.env@, name) is None,
    ensures
        crate::resolver::dollar_value(seq![env_word(), name], host) matches Ok(v) && resolve_m(
            v,
            doc,
            imports,
            host,
            fuel,
        ) == Err::<VModel, crate::error::Fault>(fault(ErrorKind::Runtime, 308, 0, 0)),
{
    lemma_missing_env_is_fatal(name, doc, imports, host, fuel);
}

/// Resolving `$env.NAME` when the variable is not set is a runtime error
/// (code 308), however deep the resolution may go.
pub proof fn lemma_missing_env_is_fatal(name: Text, doc: Document, imports: Seq<(String, Document)>, host: Host, fuel: nat)
    requires
        env_lookup(host.env@, name) is None,
    ensures
        resolve_m(VModel::Reference(seq![env_word(), name]), doc, imports, host, fuel) == Err::<
            VModel,
            crate::error::Fault,
        >(fault(ErrorKind::Runtime, 308, 0, 0)),
{
}

} // verus!
