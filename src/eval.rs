//! Following references and evaluating conditionals: from a parsed document
//! to plain values.
use vstd::prelude::*;
use crate::ast::{CModel, Condition, Document, IModel, ObjectItem, Text, VModel, Value};
use crate::error::{fault, ErrorKind, Fault};
use crate::host::{env_lookup, Host};
use crate::resolver::{env_word, runtime_word, sys_text, sys_word};

verus! {

broadcast use vstd::seq::group_seq_axioms, vstd::std_specs::vec::group_vec_axioms;

/// The value of the first entry whose key is `key`.
pub open spec fn find_entry(entries: Seq<(String, Value)>, key: Text) -> Option<Value>
    decreases entries.len(),
{
    if entries.len() == 0 {
        None
    } else if entries[0].0@ == key {
        Some(entries[0].1)
    } else {
        find_entry(entries.drop_first(), key)
    }
}

/// The document of the first import whose alias is `key`.
pub open spec fn find_doc(imports: Seq<(String, Document)>, key: Text) -> Option<Document>
    decreases imports.len(),
{
    if imports.len() == 0 {
        None
    } else if imports[0].0@ == key {
        Some(imports[0].1)
    } else {
        find_doc(imports.drop_first(), key)
    }
}

/// The aliases of an import table, in order.
pub open spec fn import_keys(imports: Seq<(String, Document)>) -> Seq<Text> {
    Seq::new(imports.len(), |i: int| imports[i].0@)
}

/// No alias appears twice.
pub open spec fn keys_unique(keys: Seq<Text>) -> bool {
    forall|i: int, j: int| 0 <= i < j < keys.len() ==> keys[i] != keys[j]
}

/// The first index at or after `i` where `keys` holds `a`.
pub open spec fn first_index(keys: Seq<Text>, i: nat, a: Text) -> Option<nat>
    decreases keys.len() - i,
{
    if i >= keys.len() {
        None
    } else if keys[i as int] == a {
        Some(i)
    } else {
        first_index(keys, i + 1, a)
    }
}

/// `keys` with `a` added at the end unless it is there.
pub open spec fn with_key(keys: Seq<Text>, a: Text) -> Seq<Text> {
    if keys.contains(a) {
        keys
    } else {
        keys.push(a)
    }
}

/// `keys` with each of `more` added in turn, as `with_key` does.
pub open spec fn with_keys(keys: Seq<Text>, more: Seq<Text>) -> Seq<Text>
    decreases more.len(),
{
    if more.len() == 0 {
        keys
    } else {
        with_keys(with_key(keys, more[0]), more.drop_first())
    }
}

/// The import table with `alias` set to `doc`: in place of the first entry
/// for `alias`, or added at the end when there is none.
pub open spec fn put_import(imports: Seq<(String, Document)>, alias: String, doc: Document) -> Seq<(String, Document)> {
    match first_index(import_keys(imports), 0, alias@) {
        Some(k) => imports.update(k as int, (alias, doc)),
        None => imports.push((alias, doc)),
    }
}

pub proof fn lemma_first_index(keys: Seq<Text>, i: nat, a: Text)
    ensures
        first_index(keys, i, a) matches Some(k) ==> i <= k < keys.len() && keys[k as int] == a && forall|m: int|
            i <= m < k ==> keys[m] != a,
        first_index(keys, i, a) is None ==> forall|m: int| i <= m < keys.len() ==> keys[m] != a,
    decreases keys.len() - i,
{
    if i < keys.len() && keys[i as int] != a {
        lemma_first_index(keys, i + 1, a);
    }
}

pub proof fn lemma_find_doc_at(imports: Seq<(String, Document)>, i: int, key: Text)
    requires
        0 <= i < imports.len(),
        imports[i].0@ == key,
        forall|k: int| 0 <= k < i ==> imports[k].0@ != key,
    ensures
        find_doc(imports, key) == Some(imports[i].1),
    decreases i,
{
    if i > 0 {
        lemma_find_doc_at(imports.drop_first(), i - 1, key);
    }
}

/// After `put_import`, looking the alias up finds the new document, the
/// aliases are those of `with_key`, and each alias still appears once.
pub proof fn lemma_put_import(imports: Seq<(String, Document)>, alias: String, doc: Document)
    ensures
        find_doc(put_import(imports, alias, doc), alias@) == Some(doc),
        import_keys(put_import(imports, alias, doc)) == with_key(import_keys(imports), alias@),
        keys_unique(import_keys(imports)) ==> keys_unique(import_keys(put_import(imports, alias, doc))),
{
    let keys = import_keys(imports);
    lemma_first_index(keys, 0, alias@);
    let p = put_import(imports, alias, doc);
    match first_index(keys, 0, alias@) {
        Some(k) => {
            assert forall|m: int| 0 <= m < k implies p[m].0@ != alias@ by {
                assert(keys[m] == imports[m].0@);
            }
            lemma_find_doc_at(p, k as int, alias@);
            assert(keys.contains(alias@));
            assert(import_keys(p) =~= keys);
        },
        None => {
            assert forall|m: int| 0 <= m < imports.len() implies p[m].0@ != alias@ by {
                assert(keys[m] == imports[m].0@);
            }
            lemma_find_doc_at(p, imports.len() as int, alias@);
            assert(!keys.contains(alias@)) by {
                if keys.contains(alias@) {
                    let m = choose|m: int| 0 <= m < keys.len() && keys[m] == alias@;
                }
            }
            assert(import_keys(p) =~= keys.push(alias@));
        },
    }
}

/// Set the document of `alias` in an import table, as `put_import` says.
pub fn put_import_in(imports: &mut Vec<(String, Document)>, alias: String, doc: Document)
    ensures
        final(imports)@ == put_import(old(imports)@, alias, doc),
{
    let ghost keys = import_keys(imports@);
    let mut i: usize = 0;
    while i < imports.len()
        invariant
            i <= imports.len(),
            imports@ == old(imports)@,
            keys == import_keys(imports@),
            first_index(keys, i as nat, alias@) == first_index(keys, 0, alias@),
        decreases imports.len() - i,
    {
        assert(keys[i as int] == imports@[i as int].0@);
        if imports[i].0 == alias {
            imports.set(i, (alias, doc));
            return;
        }
        i += 1;
    }
    imports.push((alias, doc));
}

pub proof fn lemma_with_key_unique(keys: Seq<Text>, a: Text)
    requires
        keys_unique(keys),
    ensures
        keys_unique(with_key(keys, a)),
{
}

/// The value of the first plain field `key` of an object; fields inside
/// if-blocks are not seen.
pub open spec fn find_field(items: Seq<ObjectItem>, key: Text) -> Option<Value>
    decreases items.len(),
{
    if items.len() == 0 {
        None
    } else {
        match items[0] {
            ObjectItem::Assign(k, v) => if k@ == key {
                Some(v)
            } else {
                find_field(items.drop_first(), key)
            },
            _ => find_field(items.drop_first(), key),
        }
    }
}

/// Follow `path` through nested objects from `v`.
pub open spec fn walk(v: Value, path: Seq<Text>) -> Option<Value>
    decreases path.len(),
{
    if path.len() == 0 {
        Some(v)
    } else {
        match v {
            Value::Object(items) => match find_field(items@, path[0]) {
                Some(w) => walk(w, path.drop_first()),
                None => None,
            },
            _ => None,
        }
    }
}

/// The document a path starts in, and the rest of the path: an import
/// whose alias is the first segment wins over the current document.
pub open spec fn path_start(path: Seq<Text>, doc: Document, imports: Seq<(String, Document)>) -> (Document, Seq<Text>) {
    match find_doc(imports, path[0]) {
        Some(d) => (d, path.drop_first()),
        None => (doc, path),
    }
}

/// The value a dotted path names, as written in the documents: the first
/// segment is looked up among the blocks, then the globals; the others in
/// nested objects.
pub open spec fn lookup(path: Seq<Text>, doc: Document, imports: Seq<(String, Document)>) -> Option<Value> {
    if path.len() == 0 {
        None
    } else {
        let (d, rest) = path_start(path, doc, imports);
        if rest.len() == 0 {
            None
        } else {
            match find_entry(d.items@, rest[0]) {
                Some(v) => walk(v, rest.drop_first()),
                None => match find_entry(d.globals@, rest[0]) {
                    Some(v) => walk(v, rest.drop_first()),
                    None => None,
                },
            }
        }
    }
}

/// How many references in a row resolution follows before it reports a
/// circular reference.
pub const MAX_REFERENCE_DEPTH: usize = 64;

pub open spec fn first_error<T>(rs: Seq<Result<T, Fault>>) -> Option<Fault>
    decreases rs.len(),
{
    if rs.len() == 0 {
        None
    } else {
        match rs[0] {
            Err(f) => Some(f),
            Ok(_) => first_error(rs.drop_first()),
        }
    }
}

pub open spec fn oks<T>(rs: Seq<Result<T, Fault>>) -> Seq<T> {
    Seq::new(rs.len(), |i: int| rs[i]->Ok_0)
}

pub open spec fn flat<T>(ss: Seq<Seq<T>>) -> Seq<T>
    decreases ss.len(),
{
    if ss.len() == 0 {
        Seq::empty()
    } else {
        flat(ss.drop_last()) + ss.last()
    }
}

/// `$env.NAME`, `$sys.KEY` and `$runtime...` paths at resolution time; `None`
/// for any other path (an `env` path of another length included), which is
/// looked up in the documents. A missing environment variable is an error
/// here.
pub open spec fn namespace_value(path: Seq<Text>, host: Host) -> Option<Result<VModel, Fault>> {
    if path.len() == 2 && path[0] == env_word() {
        match env_lookup(host.env@, path[1]) {
            Some(t) => Some(Ok(VModel::Str(t))),
            None => Some(Err(fault(ErrorKind::Runtime, 308, 0, 0))),
        }
    } else if path.len() > 0 && path[0] == sys_word() {
        match sys_text(path, host) {
            Ok(t) => Some(Ok(VModel::Str(t))),
            Err(f) => Some(Err(f)),
        }
    } else if path.len() > 0 && path[0] == runtime_word() {
        Some(Ok(VModel::Reference(path)))
    } else {
        None
    }
}

pub open spec fn is_namespace(w: Text) -> bool {
    w == env_word() || w == sys_word() || w == runtime_word()
}

pub open spec fn cond_path(c: CModel) -> Seq<Text> {
    match c {
        CModel::Equals(p, _) => p,
        CModel::NotEquals(p, _) => p,
        CModel::Exists(p) => p,
        CModel::NotExists(p) => p,
    }
}

/// Whether a condition holds. Its path stands for a value when it has one:
/// a namespace path of two or more segments is looked up in the host
/// (`$runtime` has no values here), any other path in the documents and then
/// resolved; errors count as no value. A condition never fails: a path
/// without a value makes `Equals` and `Exists` false and `NotEquals` and
/// `NotExists` true.
pub open spec fn cond_met(c: CModel, doc: Document, imports: Seq<(String, Document)>, host: Host, fuel: nat) -> bool
    decreases fuel, c, 1nat,
{
    let path = cond_path(c);
    let pv: Option<VModel> = if path.len() >= 2 && is_namespace(path[0]) {
        if path[0] == runtime_word() {
            None
        } else {
            match namespace_value(path, host) {
                Some(Ok(v)) => Some(v),
                _ => None,
            }
        }
    } else {
        match lookup(path, doc, imports) {
            Some(w) => if fuel > 0 {
                match resolve_m(w.model(), doc, imports, host, (fuel - 1) as nat) {
                    Ok(m) => Some(m),
                    Err(_) => None,
                }
            } else {
                None
            },
            None => None,
        }
    };
    match c {
        CModel::Equals(_, e) => match pv {
            Some(m) => m == e,
            None => false,
        },
        CModel::NotEquals(_, e) => match pv {
            Some(m) => m != e,
            None => true,
        },
        CModel::Exists(_) => pv is Some,
        CModel::NotExists(_) => pv is None,
    }
}

/// A value with its references followed and its conditionals evaluated.
/// `fuel` bounds how many references in a row may be followed.
pub open spec fn resolve_m(m: VModel, doc: Document, imports: Seq<(String, Document)>, host: Host, fuel: nat) -> Result<VModel, Fault>
    decreases fuel, m, 1nat,
{
    match m {
        VModel::Conditional(c, t, e) => if cond_met(*c, doc, imports, host, fuel) {
            resolve_m(*t, doc, imports, host, fuel)
        } else {
            match e {
                Some(x) => resolve_m(*x, doc, imports, host, fuel),
                None => Ok(VModel::Null),
            }
        },
        VModel::Reference(p) => match namespace_value(p, host) {
            Some(r) => r,
            None => match lookup(p, doc, imports) {
                Some(w) => if fuel > 0 {
                    resolve_m(w.model(), doc, imports, host, (fuel - 1) as nat)
                } else {
                    Err(fault(ErrorKind::Runtime, 309, 0, 0))
                },
                None => Ok(VModel::Reference(p)),
            },
        },
        VModel::Array(s) => {
            let rs = resolve_results(s, doc, imports, host, fuel);
            match first_error(rs) {
                Some(f) => Err(f),
                None => Ok(VModel::Array(oks(rs))),
            }
        },
        VModel::Object(items) => match flatten_list(items, doc, imports, host, fuel) {
            Ok(fields) => Ok(VModel::Object(fields)),
            Err(f) => Err(f),
        },
        _ => Ok(m),
    }
}

/// Each value of a sequence resolved on its own.
pub open spec fn resolve_results(s: Seq<VModel>, doc: Document, imports: Seq<(String, Document)>, host: Host, fuel: nat) -> Seq<Result<VModel, Fault>>
    decreases fuel, s, 0nat,
{
    Seq::new(
        s.len(),
        |i: int|
            if 0 <= i < s.len() {
                resolve_m(s[i], doc, imports, host, fuel)
            } else {
                Ok(VModel::Null)
            },
    )
}

/// Each object item flattened on its own.
pub open spec fn flatten_results(items: Seq<IModel>, doc: Document, imports: Seq<(String, Document)>, host: Host, fuel: nat) -> Seq<Result<Seq<IModel>, Fault>>
    decreases fuel, items, 0nat,
{
    Seq::new(
        items.len(),
        |i: int|
            if 0 <= i < items.len() {
                flatten_item(items[i], doc, imports, host, fuel)
            } else {
                Ok(Seq::empty())
            },
    )
}

/// The plain fields a sequence of object items flattens to.
pub open spec fn flatten_list(items: Seq<IModel>, doc: Document, imports: Seq<(String, Document)>, host: Host, fuel: nat) -> Result<Seq<IModel>, Fault>
    decreases fuel, items, 1nat,
{
    let rs = flatten_results(items, doc, imports, host, fuel);
    match first_error(rs) {
        Some(f) => Err(f),
        None => Ok(flat(oks(rs))),
    }
}

/// One object item flattened: a field with its value resolved, or the
/// fields of the branch an if-block selects, spliced in place.
pub open spec fn flatten_item(it: IModel, doc: Document, imports: Seq<(String, Document)>, host: Host, fuel: nat) -> Result<Seq<IModel>, Fault>
    decreases fuel, it, 2nat,
{
    match it {
        IModel::Assign(k, v) => match resolve_m(v, doc, imports, host, fuel) {
            Ok(r) => Ok(seq![IModel::Assign(k, r)]),
            Err(f) => Err(f),
        },
        IModel::IfBlock(c, t, e) => if cond_met(c, doc, imports, host, fuel) {
            flatten_list(t, doc, imports, host, fuel)
        } else {
            match e {
                Some(x) => flatten_list(x, doc, imports, host, fuel),
                None => Ok(Seq::empty()),
            }
        },
    }
}

// ---------------------------------------------------------------------------
// Lookup.

fn find_entry_in<'a>(entries: &'a Vec<(String, Value)>, key: &String) -> (r: Option<&'a Value>)
    ensures
        r is Some <==> find_entry(entries@, key@) is Some,
        r is Some ==> *r->0 == find_entry(entries@, key@)->0,
{
    let mut i: usize = 0;
    assert(entries@.skip(0) =~= entries@);
    while i < entries.len()
        invariant
            i <= entries.len(),
            find_entry(entries@.skip(i as int), key@) == find_entry(entries@, key@),
        decreases entries.len() - i,
    {
        assert(entries@.skip(i as int).drop_first() =~= entries@.skip(i + 1));
        if entries[i].0 == *key {
            return Some(&entries[i].1);
        }
        i += 1;
    }
    None
}

fn find_doc_in<'a>(imports: &'a Vec<(String, Document)>, key: &String) -> (r: Option<&'a Document>)
    ensures
        r is Some <==> find_doc(imports@, key@) is Some,
        r is Some ==> *r->0 == find_doc(imports@, key@)->0,
{
    let mut i: usize = 0;
    assert(imports@.skip(0) =~= imports@);
    while i < imports.len()
        invariant
            i <= imports.len(),
            find_doc(imports@.skip(i as int), key@) == find_doc(imports@, key@),
        decreases imports.len() - i,
    {
        assert(imports@.skip(i as int).drop_first() =~= imports@.skip(i + 1));
        if imports[i].0 == *key {
            return Some(&imports[i].1);
        }
        i += 1;
    }
    None
}

fn find_field_in<'a>(items: &'a Vec<ObjectItem>, key: &String) -> (r: Option<&'a Value>)
    ensures
        r is Some <==> find_field(items@, key@) is Some,
        r is Some ==> *r->0 == find_field(items@, key@)->0,
{
    let mut i: usize = 0;
    assert(items@.skip(0) =~= items@);
    while i < items.len()
        invariant
            i <= items.len(),
            find_field(items@.skip(i as int), key@) == find_field(items@, key@),
        decreases items.len() - i,
    {
        assert(items@.skip(i as int).drop_first() =~= items@.skip(i + 1));
        match &items[i] {
            ObjectItem::Assign(k, v) => {
                if *k == *key {
                    return Some(v);
                }
            },
            _ => {},
        }
        i += 1;
    }
    None
}

fn walk_from<'a>(v: &'a Value, path: &[String], from: usize) -> (r: Option<&'a Value>)
    requires
        from <= path@.len(),
    ensures
        r is Some <==> walk(*v, crate::ast::texts(path@).skip(from as int)) is Some,
        r is Some ==> *r->0 == walk(*v, crate::ast::texts(path@).skip(from as int))->0,
{
    let ghost tp = crate::ast::texts(path@);
    let mut cur = v;
    let mut i = from;
    while i < path.len()
        invariant
            from <= i <= path@.len(),
            tp == crate::ast::texts(path@),
            walk(*cur, tp.skip(i as int)) == walk(*v, tp.skip(from as int)),
        decreases path.len() - i,
    {
        assert(tp.skip(i as int).drop_first() =~= tp.skip(i + 1));
        assert(tp.skip(i as int)[0] == path@[i as int]@);
        match cur {
            Value::Object(items) => match find_field_in(items, &path[i]) {
                Some(w) => {
                    cur = w;
                },
                None => {
                    return None;
                },
            },
            _ => {
                return None;
            },
        }
        i += 1;
    }
    assert(tp.skip(i as int).len() == 0);
    Some(cur)
}

/// Whether some import has the alias `key`.
pub fn has_import(imports: &Vec<(String, Document)>, key: &String) -> (r: bool)
    ensures
        r == find_doc(imports@, key@) is Some,
{
    find_doc_in(imports, key).is_some()
}

/// The value a dotted path names, as written: an import alias as the first
/// segment wins over the current document; the next segment is looked up
/// among that document's blocks, then its globals; the rest through nested
/// objects, whose if-blocks are not looked into. The value is returned as
/// it stands, unresolved.
pub fn resolve_reference<'a>(path: &[String], doc: &'a Document, imports: &'a Vec<(String, Document)>) -> (r: Option<&'a Value>)
    ensures
        r is Some <==> lookup(crate::ast::texts(path@), *doc, imports@) is Some,
        r is Some ==> *r->0 == lookup(crate::ast::texts(path@), *doc, imports@)->0,
{
    let ghost tp = crate::ast::texts(path@);
    if path.len() == 0 {
        return None;
    }
    let (d, start): (&Document, usize) = match find_doc_in(imports, &path[0]) {
        Some(d) => (d, 1),
        None => (doc, 0),
    };
    assert(path_start(tp, *doc, imports@).1 =~= tp.skip(start as int));
    if start >= path.len() {
        return None;
    }
    assert(tp.skip(start as int)[0] == path@[start as int]@);
    assert(tp.skip(start as int).drop_first() =~= tp.skip(start + 1));
    match find_entry_in(&d.items, &path[start]) {
        Some(v) => walk_from(v, path, start + 1),
        None => match find_entry_in(&d.globals, &path[start]) {
            Some(v) => walk_from(v, path, start + 1),
            None => None,
        },
    }
}

// ---------------------------------------------------------------------------
// Structural equality.

fn strings_equal(a: &Vec<String>, b: &Vec<String>) -> (r: bool)
    ensures
        r == (crate::ast::texts(a@) == crate::ast::texts(b@)),
{
    if a.len() != b.len() {
        assert(crate::ast::texts(a@).len() != crate::ast::texts(b@).len());
        return false;
    }
    let mut i: usize = 0;
    while i < a.len()
        invariant
            a.len() == b.len(),
            i <= a.len(),
            forall|k: int| 0 <= k < i ==> a@[k]@ == b@[k]@,
        decreases a.len() - i,
    {
        if a[i] != b[i] {
            assert(crate::ast::texts(a@)[i as int] != crate::ast::texts(b@)[i as int]);
            return false;
        }
        i += 1;
    }
    assert(crate::ast::texts(a@) =~= crate::ast::texts(b@));
    true
}

fn number_equal(a: &crate::number::Number, b: &crate::number::Number) -> (r: bool)
    ensures
        r == (a.whole@ == b.whole@ && a.fraction@ == b.fraction@),
{
    digits_equal(&a.whole, &b.whole) && digits_equal(&a.fraction, &b.fraction)
}

fn digits_equal(a: &Vec<u8>, b: &Vec<u8>) -> (r: bool)
    ensures
        r == (a@ == b@),
{
    if a.len() != b.len() {
        return false;
    }
    let mut i: usize = 0;
    while i < a.len()
        invariant
            a.len() == b.len(),
            i <= a.len(),
            forall|k: int| 0 <= k < i ==> a@[k] == b@[k],
        decreases a.len() - i,
    {
        if a[i] != b[i] {
            return false;
        }
        i += 1;
    }
    assert(a@ =~= b@);
    true
}

/// Whether two values are equal as trees (a regex by its source text).
pub fn values_equal(a: &Value, b: &Value) -> (r: bool)
    ensures
        r == (a.model() == b.model()),
    decreases a, 0nat,
{
    match (a, b) {
        (Value::String(x), Value::String(y)) => *x == *y,
        (Value::Number(x), Value::Number(y)) => number_equal(x, y),
        (Value::Bool(x), Value::Bool(y)) => *x == *y,
        (Value::Regex(x), Value::Regex(y)) => *x == *y,
        (Value::Array(x), Value::Array(y)) => value_lists_equal(x, y),
        (Value::Interpolated(x), Value::Interpolated(y)) => value_lists_equal(x, y),
        (Value::Object(x), Value::Object(y)) => item_lists_equal(x, y),
        (Value::Reference(x), Value::Reference(y)) => strings_equal(x, y),
        (Value::Conditional(x), Value::Conditional(y)) => {
            if !conditions_equal(&x.condition, &y.condition) {
                return false;
            }
            if !values_equal(&x.then_value, &y.then_value) {
                return false;
            }
            match (&x.else_value, &y.else_value) {
                (Some(p), Some(q)) => values_equal(p, q),
                (None, None) => true,
                _ => false,
            }
        },
        (Value::Null, Value::Null) => true,
        _ => false,
    }
}

fn value_lists_equal(a: &Vec<Value>, b: &Vec<Value>) -> (r: bool)
    ensures
        r == (crate::ast::values_model(a@) == crate::ast::values_model(b@)),
    decreases a, 1nat,
{
    if a.len() != b.len() {
        assert(crate::ast::values_model(a@).len() != crate::ast::values_model(b@).len());
        return false;
    }
    let mut i: usize = 0;
    while i < a.len()
        invariant
            a.len() == b.len(),
            i <= a.len(),
            forall|k: int| 0 <= k < i ==> a@[k].model() == b@[k].model(),
        decreases a.len() - i,
    {
        if !values_equal(&a[i], &b[i]) {
            assert(crate::ast::values_model(a@)[i as int] != crate::ast::values_model(b@)[i as int]);
            return false;
        }
        i += 1;
    }
    assert(crate::ast::values_model(a@) =~= crate::ast::values_model(b@));
    true
}

fn item_lists_equal(a: &Vec<ObjectItem>, b: &Vec<ObjectItem>) -> (r: bool)
    ensures
        r == (crate::ast::items_model(a@) == crate::ast::items_model(b@)),
    decreases a, 1nat,
{
    if a.len() != b.len() {
        assert(crate::ast::items_model(a@).len() != crate::ast::items_model(b@).len());
        return false;
    }
    let mut i: usize = 0;
    while i < a.len()
        invariant
            a.len() == b.len(),
            i <= a.len(),
            forall|k: int| 0 <= k < i ==> a@[k].model() == b@[k].model(),
        decreases a.len() - i,
    {
        if !items_equal(&a[i], &b[i]) {
            assert(crate::ast::items_model(a@)[i as int] != crate::ast::items_model(b@)[i as int]);
            return false;
        }
        i += 1;
    }
    assert(crate::ast::items_model(a@) =~= crate::ast::items_model(b@));
    true
}

fn items_equal(a: &ObjectItem, b: &ObjectItem) -> (r: bool)
    ensures
        r == (a.model() == b.model()),
    decreases a, 0nat,
{
    match (a, b) {
        (ObjectItem::Assign(k1, v1), ObjectItem::Assign(k2, v2)) => *k1 == *k2 && values_equal(v1, v2),
        (ObjectItem::IfBlock(x), ObjectItem::IfBlock(y)) => {
            if !conditions_equal(&x.condition, &y.condition) {
                return false;
            }
            if !item_lists_equal(&x.then_items, &y.then_items) {
                return false;
            }
            match (&x.else_items, &y.else_items) {
                (Some(p), Some(q)) => item_lists_equal(p, q),
                (None, None) => true,
                _ => false,
            }
        },
        _ => false,
    }
}

fn conditions_equal(a: &Condition, b: &Condition) -> (r: bool)
    ensures
        r == (a.model() == b.model()),
    decreases a, 0nat,
{
    match (a, b) {
        (Condition::Equals(p, v), Condition::Equals(q, w)) => strings_equal(p, q) && values_equal(v, w),
        (Condition::NotEquals(p, v), Condition::NotEquals(q, w)) => strings_equal(p, q) && values_equal(v, w),
        (Condition::Exists(p), Condition::Exists(q)) => strings_equal(p, q),
        (Condition::NotExists(p), Condition::NotExists(q)) => strings_equal(p, q),
        _ => false,
    }
}

// ---------------------------------------------------------------------------
// Resolution.

proof fn lemma_first_error_skip<T>(rs: Seq<Result<T, Fault>>, i: int)
    requires
        0 <= i <= rs.len(),
        forall|k: int| 0 <= k < i ==> rs[k] is Ok,
    ensures
        first_error(rs) == first_error(rs.skip(i)),
    decreases i,
{
    if i > 0 {
        assert(rs.drop_first().skip(i - 1) =~= rs.skip(i));
        lemma_first_error_skip(rs.drop_first(), i - 1);
    } else {
        assert(rs.skip(0) =~= rs);
    }
}

proof fn lemma_flat_push<T>(ss: Seq<Seq<T>>, x: Seq<T>)
    ensures
        flat(ss.push(x)) == flat(ss) + x,
{
    assert(ss.push(x).drop_last() =~= ss);
}

proof fn lemma_items_append(a: Seq<ObjectItem>, b: Seq<ObjectItem>)
    ensures
        crate::ast::items_model(a + b) == crate::ast::items_model(a) + crate::ast::items_model(b),
{
    assert(crate::ast::items_model(a + b) =~= crate::ast::items_model(a) + crate::ast::items_model(b));
}

fn clone_strings(v: &Vec<String>) -> (r: Vec<String>)
    ensures
        crate::ast::texts(r@) == crate::ast::texts(v@),
{
    let mut out: Vec<String> = Vec::new();
    let mut i: usize = 0;
    while i < v.len()
        invariant
            i <= v.len(),
            crate::ast::texts(out@) == crate::ast::texts(v@.take(i as int)),
        decreases v.len() - i,
    {
        proof {
            crate::ast::lemma_texts_push(out@, v@[i as int]);
            assert(v@.take(i + 1) =~= v@.take(i as int).push(v@[i as int]));
            crate::ast::lemma_texts_push(v@.take(i as int), v@[i as int]);
        }
        out.push(v[i].clone());
        i += 1;
    }
    assert(v@.take(v.len() as int) =~= v@);
    out
}

impl Value {
    /// A copy of the whole tree.
    pub fn deep_clone(&self) -> (r: Value)
        ensures
            r.model() == self.model(),
        decreases self, 0nat,
    {
        match self {
            Value::String(s) => Value::String(s.clone()),
            Value::Number(n) => Value::Number(
                crate::number::Number { whole: copy_u8s(&n.whole), fraction: copy_u8s(&n.fraction) },
            ),
            Value::Bool(b) => Value::Bool(*b),
            Value::Regex(s) => Value::Regex(s.clone()),
            Value::Array(vs) => Value::Array(clone_values(vs)),
            Value::Object(items) => Value::Object(clone_items(items)),
            Value::Reference(p) => Value::Reference(clone_strings(p)),
            Value::Interpolated(vs) => Value::Interpolated(clone_values(vs)),
            Value::Conditional(c) => Value::Conditional(
                Box::new(
                    crate::ast::ConditionalValue {
                        condition: c.condition.deep_clone(),
                        then_value: c.then_value.deep_clone(),
                        else_value: match &c.else_value {
                            Some(e) => Some(e.deep_clone()),
                            None => None,
                        },
                    },
                ),
            ),
            Value::Null => Value::Null,
        }
    }
}

impl Condition {
    /// A copy of the whole condition.
    pub fn deep_clone(&self) -> (r: Condition)
        ensures
            r.model() == self.model(),
        decreases self, 0nat,
    {
        match self {
            Condition::Equals(p, v) => Condition::Equals(clone_strings(p), v.deep_clone()),
            Condition::NotEquals(p, v) => Condition::NotEquals(clone_strings(p), v.deep_clone()),
            Condition::Exists(p) => Condition::Exists(clone_strings(p)),
            Condition::NotExists(p) => Condition::NotExists(clone_strings(p)),
        }
    }
}

impl ObjectItem {
    /// A copy of the whole item.
    pub fn deep_clone(&self) -> (r: ObjectItem)
        ensures
            r.model() == self.model(),
        decreases self, 0nat,
    {
        match self {
            ObjectItem::Assign(k, v) => ObjectItem::Assign(k.clone(), v.deep_clone()),
            ObjectItem::IfBlock(b) => ObjectItem::IfBlock(
                Box::new(
                    crate::ast::IfBlock {
                        condition: b.condition.deep_clone(),
                        then_items: clone_items(&b.then_items),
                        else_items: match &b.else_items {
                            Some(e) => Some(clone_items(e)),
                            None => None,
                        },
                    },
                ),
            ),
        }
    }
}

fn copy_u8s(v: &Vec<u8>) -> (r: Vec<u8>)
    ensures
        r@ == v@,
{
    let mut out: Vec<u8> = Vec::new();
    let mut i: usize = 0;
    while i < v.len()
        invariant
            i <= v.len(),
            out@ == v@.take(i as int),
        decreases v.len() - i,
    {
        out.push(v[i]);
        i += 1;
        assert(out@ =~= v@.take(i as int));
    }
    assert(v@.take(v.len() as int) =~= v@);
    out
}

fn clone_values(v: &Vec<Value>) -> (r: Vec<Value>)
    ensures
        crate::ast::values_model(r@) == crate::ast::values_model(v@),
    decreases v, 1nat,
{
    let mut out: Vec<Value> = Vec::new();
    let mut i: usize = 0;
    while i < v.len()
        invariant
            i <= v.len(),
            out@.len() == i,
            forall|k: int| 0 <= k < i ==> out@[k].model() == v@[k].model(),
        decreases v.len() - i,
    {
        out.push(v[i].deep_clone());
        i += 1;
    }
    assert(crate::ast::values_model(out@) =~= crate::ast::values_model(v@));
    out
}

fn clone_items(v: &Vec<ObjectItem>) -> (r: Vec<ObjectItem>)
    ensures
        crate::ast::items_model(r@) == crate::ast::items_model(v@),
    decreases v, 1nat,
{
    let mut out: Vec<ObjectItem> = Vec::new();
    let mut i: usize = 0;
    while i < v.len()
        invariant
            i <= v.len(),
            out@.len() == i,
            forall|k: int| 0 <= k < i ==> out@[k].model() == v@[k].model(),
        decreases v.len() - i,
    {
        out.push(v[i].deep_clone());
        i += 1;
    }
    assert(crate::ast::items_model(out@) =~= crate::ast::items_model(v@));
    out
}

fn first_is_word(path: &Vec<String>, w: &[char]) -> (r: bool)
    ensures
        r == (path@.len() > 0 && crate::ast::texts(path@)[0] == w@),
{
    path.len() > 0 && crate::text::string_is(&path[0], w)
}

/// `$env`, `$sys` and `$runtime` paths at resolution time; `None` for any
/// other path.
fn namespace_of(path: &Vec<String>, host: &Host) -> (r: Option<Result<Value, crate::error::RuneError>>)
    ensures
        match namespace_value(crate::ast::texts(path@), *host) {
            None => r is None,
            Some(Ok(m)) => r is Some && r->0 is Ok && r->0->Ok_0.model() == m,
            Some(Err(f)) => r is Some && r->0 is Err && r->0->Err_0.fault() == f,
        },
{
    let env = ['e', 'n', 'v'];
    let sys = ['s', 'y', 's'];
    let runtime = ['r', 'u', 'n', 't', 'i', 'm', 'e'];
    assert(env@ == env_word());
    assert(sys@ == sys_word());
    assert(runtime@ == runtime_word());
    if path.len() == 2 && first_is_word(path, &env) {
        match crate::host::env_var(&host.env, &path[1]) {
            Some(t) => Some(Ok(Value::String(t))),
            None => Some(
                Err(
                    crate::error::RuneError::runtime(
                        "Environment variable not set".to_string(),
                        "Make sure the environment variable is defined",
                        308,
                    ),
                ),
            ),
        }
    } else if first_is_word(path, &sys) {
        match crate::resolver::resolve_sys(path, host) {
            Ok(t) => Some(Ok(Value::String(t))),
            Err(e) => Some(Err(e)),
        }
    } else if first_is_word(path, &runtime) {
        Some(Ok(Value::Reference(clone_strings(path))))
    } else {
        None
    }
}

fn cond_path_of(c: &Condition) -> (r: &Vec<String>)
    ensures
        crate::ast::texts(r@) == cond_path(c.model()),
{
    match c {
        Condition::Equals(p, _) => p,
        Condition::NotEquals(p, _) => p,
        Condition::Exists(p) => p,
        Condition::NotExists(p) => p,
    }
}

/// Whether a condition holds in the given documents and host.
pub fn condition_is_met(c: &Condition, doc: &Document, imports: &Vec<(String, Document)>, host: &Host, fuel: usize) -> (r: bool)
    ensures
        r == cond_met(c.model(), *doc, imports@, *host, fuel as nat),
    decreases fuel, c, 1nat,
{
    let path = cond_path_of(c);
    let ghost tp = crate::ast::texts(path@);
    let env = ['e', 'n', 'v'];
    let sys = ['s', 'y', 's'];
    let runtime = ['r', 'u', 'n', 't', 'i', 'm', 'e'];
    assert(env@ == env_word());
    assert(sys@ == sys_word());
    assert(runtime@ == runtime_word());
    let is_ns = path.len() >= 2 && (first_is_word(path, &env) || first_is_word(path, &sys) || first_is_word(
        path,
        &runtime,
    ));
    let pv: Option<Value> = if is_ns {
        if first_is_word(path, &runtime) {
            None
        } else {
            match namespace_of(path, host) {
                Some(Ok(v)) => Some(v),
                _ => None,
            }
        }
    } else {
        match resolve_reference(path.as_slice(), doc, imports) {
            Some(w) => {
                if fuel > 0 {
                    match resolve_value(w, doc, imports, host, fuel - 1) {
                        Ok(m) => Some(m),
                        Err(_) => None,
                    }
                } else {
                    None
                }
            },
            None => None,
        }
    };
    match c {
        Condition::Equals(_, e) => match &pv {
            Some(m) => values_equal(m, e),
            None => false,
        },
        Condition::NotEquals(_, e) => match &pv {
            Some(m) => !values_equal(m, e),
            None => true,
        },
        Condition::Exists(_) => pv.is_some(),
        Condition::NotExists(_) => pv.is_none(),
    }
}

/// Resolve a value: follow references (through imports and the host's
/// namespaces), evaluate conditionals, and flatten if-blocks into the
/// objects that hold them. A reference that names nothing is kept as it is.
/// Following more than `fuel` references in a row is reported as a
/// circular reference.
pub fn resolve_value(v: &Value, doc: &Document, imports: &Vec<(String, Document)>, host: &Host, fuel: usize) -> (r: Result<Value, crate::error::RuneError>)
    ensures
        match resolve_m(v.model(), *doc, imports@, *host, fuel as nat) {
            Ok(m) => r is Ok && r->Ok_0.model() == m,
            Err(f) => r is Err && r->Err_0.fault() == f,
        },
    decreases fuel, v, 1nat,
{
    match v {
        Value::Conditional(c) => {
            if condition_is_met(&c.condition, doc, imports, host, fuel) {
                resolve_value(&c.then_value, doc, imports, host, fuel)
            } else {
                match &c.else_value {
                    Some(e) => resolve_value(e, doc, imports, host, fuel),
                    None => Ok(Value::Null),
                }
            }
        },
        Value::Reference(p) => match namespace_of(p, host) {
            Some(r) => r,
            None => match resolve_reference(p.as_slice(), doc, imports) {
                Some(w) => {
                    if fuel > 0 {
                        resolve_value(w, doc, imports, host, fuel - 1)
                    } else {
                        Err(
                            crate::error::RuneError::runtime(
                                "Reference chain too long".to_string(),
                                "Check for references that refer back to themselves",
                                309,
                            ),
                        )
                    }
                },
                None => Ok(Value::Reference(clone_strings(p))),
            },
        },
        Value::Array(items) => {
            let out = resolve_list(items, doc, imports, host, fuel)?;
            Ok(Value::Array(out))
        },
        Value::Object(items) => {
            let fields = flatten_items(items, doc, imports, host, fuel)?;
            Ok(Value::Object(fields))
        },
        _ => Ok(v.deep_clone()),
    }
}

/// Each value of a list resolved, in order; the first error stops it.
fn resolve_list(items: &Vec<Value>, doc: &Document, imports: &Vec<(String, Document)>, host: &Host, fuel: usize) -> (r: Result<Vec<Value>, crate::error::RuneError>)
    ensures
        match first_error(resolve_results(crate::ast::values_model(items@), *doc, imports@, *host, fuel as nat)) {
            None => r is Ok && crate::ast::values_model(r->Ok_0@) == oks(
                resolve_results(crate::ast::values_model(items@), *doc, imports@, *host, fuel as nat),
            ),
            Some(f) => r is Err && r->Err_0.fault() == f,
        },
    decreases fuel, items, 0nat,
{
    let ghost s = crate::ast::values_model(items@);
    let ghost rs = resolve_results(s, *doc, imports@, *host, fuel as nat);
    let mut out: Vec<Value> = Vec::new();
    let mut i: usize = 0;
    while i < items.len()
        invariant
            i <= items.len(),
            s == crate::ast::values_model(items@),
            rs == resolve_results(s, *doc, imports@, *host, fuel as nat),
            rs.len() == items.len(),
            out@.len() == i,
            forall|k: int| 0 <= k < i ==> #[trigger] rs[k] is Ok,
            forall|k: int| 0 <= k < i ==> #[trigger] out@[k].model() == rs[k]->Ok_0,
        decreases items.len() - i,
    {
        match resolve_value(&items[i], doc, imports, host, fuel) {
            Ok(x) => {
                out.push(x);
            },
            Err(e) => {
                proof {
                    lemma_first_error_skip(rs, i as int);
                }
                return Err(e);
            },
        }
        i += 1;
    }
    proof {
        lemma_first_error_skip(rs, i as int);
        assert forall|k: int| 0 <= k < out@.len() implies crate::ast::values_model(out@)[k] == oks(rs)[k] by {
            assert(out@[k].model() == rs[k]->Ok_0);
        }
        assert(crate::ast::values_model(out@) =~= oks(rs));
    }
    Ok(out)
}

/// The plain fields that a list of object items flattens to.
pub fn flatten_items(items: &Vec<ObjectItem>, doc: &Document, imports: &Vec<(String, Document)>, host: &Host, fuel: usize) -> (r: Result<Vec<ObjectItem>, crate::error::RuneError>)
    ensures
        match flatten_list(crate::ast::items_model(items@), *doc, imports@, *host, fuel as nat) {
            Ok(fs) => r is Ok && crate::ast::items_model(r->Ok_0@) == fs,
            Err(f) => r is Err && r->Err_0.fault() == f,
        },
    decreases fuel, items, 1nat,
{
    let ghost s = crate::ast::items_model(items@);
    let ghost rs = flatten_results(s, *doc, imports@, *host, fuel as nat);
    let mut out: Vec<ObjectItem> = Vec::new();
    let mut i: usize = 0;
    assert(oks(rs.take(0)) =~= Seq::<Seq<IModel>>::empty());
    assert(crate::ast::items_model(out@) =~= Seq::<IModel>::empty());
    while i < items.len()
        invariant
            i <= items.len(),
            s == crate::ast::items_model(items@),
            rs.len() == items.len(),
            rs == flatten_results(s, *doc, imports@, *host, fuel as nat),
            forall|k: int| 0 <= k < i ==> #[trigger] rs[k] is Ok,
            crate::ast::items_model(out@) == flat(oks(rs.take(i as int))),
        decreases items.len() - i,
    {
        match flatten_one(&items[i], doc, imports, host, fuel) {
            Ok(part) => {
                proof {
                    lemma_items_append(out@, part@);
                    assert(oks(rs.take(i + 1)) =~= oks(rs.take(i as int)).push(rs[i as int]->Ok_0));
                    lemma_flat_push(oks(rs.take(i as int)), rs[i as int]->Ok_0);
                }
                let mut part = part;
                out.append(&mut part);
            },
            Err(e) => {
                proof {
                    lemma_first_error_skip(rs, i as int);
                }
                return Err(e);
            },
        }
        i += 1;
    }
    proof {
        lemma_first_error_skip(rs, i as int);
        assert(rs.take(i as int) =~= rs);
    }
    Ok(out)
}

/// One object item flattened: a field with its value resolved, or the
/// fields of the branch that an if-block selects.
pub fn flatten_one(it: &ObjectItem, doc: &Document, imports: &Vec<(String, Document)>, host: &Host, fuel: usize) -> (r: Result<Vec<ObjectItem>, crate::error::RuneError>)
    ensures
        match flatten_item(it.model(), *doc, imports@, *host, fuel as nat) {
            Ok(fs) => r is Ok && crate::ast::items_model(r->Ok_0@) == fs,
            Err(f) => r is Err && r->Err_0.fault() == f,
        },
    decreases fuel, it, 2nat,
{
    match it {
        ObjectItem::Assign(k, v) => {
            let x = resolve_value(v, doc, imports, host, fuel)?;
            let mut out: Vec<ObjectItem> = Vec::new();
            out.push(ObjectItem::Assign(k.clone(), x));
            assert(crate::ast::items_model(out@) =~= seq![out@[0].model()]);
            Ok(out)
        },
        ObjectItem::IfBlock(b) => {
            if condition_is_met(&b.condition, doc, imports, host, fuel) {
                flatten_items(&b.then_items, doc, imports, host, fuel)
            } else {
                match &b.else_items {
                    Some(e) => flatten_items(e, doc, imports, host, fuel),
                    None => {
                        assert(crate::ast::items_model(Seq::<ObjectItem>::empty()) =~= Seq::<IModel>::empty());
                        Ok(Vec::new())
                    },
                }
            }
        },
    }
}

} // verus!
