//! A parsed configuration with its imports, read by dotted paths.
use vstd::prelude::*;
use vstd::string::*;
use crate::ast::{texts, Document, IModel, Text, VModel, Value};
use crate::convert::FromValue;
use crate::error::{fault, ErrorKind, Fault, RuneError};
use crate::eval::{find_doc, lookup, resolve_m, resolve_reference, resolve_value, MAX_REFERENCE_DEPTH};
use crate::grammar::{last_dot, parse_stream, stream_of};
use crate::host::Host;
use crate::parser::Parser;
use crate::text::{chars_of, lower_of, lowercase};

verus! {

/// The segments of a dotted path, split at every `.`.
pub open spec fn split_dots(t: Text) -> Seq<Text>
    decreases t.len(),
{
    match last_dot(t, t.len()) {
        Some(k) => if k < t.len() {
            split_dots(t.take(k as int)).push(t.skip(k as int + 1))
        } else {
            seq![t]
        },
        None => seq![t],
    }
}

/// The value of the first plain field `key` among resolved object items.
pub open spec fn find_field_m(items: Seq<IModel>, key: Text) -> Option<VModel>
    decreases items.len(),
{
    if items.len() == 0 {
        None
    } else {
        match items[0] {
            IModel::Assign(k, v) => if k == key {
                Some(v)
            } else {
                find_field_m(items.drop_first(), key)
            },
            _ => find_field_m(items.drop_first(), key),
        }
    }
}

/// Follow `path` through the fields of a resolved value.
pub open spec fn walk_m(m: VModel, path: Seq<Text>) -> Option<VModel>
    decreases path.len(),
{
    if path.len() == 0 {
        Some(m)
    } else {
        match m {
            VModel::Object(items) => match find_field_m(items, path[0]) {
                Some(w) => walk_m(w, path.drop_first()),
                None => None,
            },
            _ => None,
        }
    }
}

pub open spec fn not_found() -> Fault {
    fault(ErrorKind::Syntax, 304, 0, 0)
}

/// The resolved value at a path. A path that names a value as written is
/// resolved directly. Otherwise its top-level entry (the first segment, or
/// the first two when the first is an import alias) is resolved, which
/// evaluates its if-blocks, and the rest of the path is followed through the
/// result. A path that names nothing either way is error 304.
pub open spec fn path_result(segs: Seq<Text>, doc: Document, imports: Seq<(String, Document)>, host: Host) -> Result<VModel, Fault> {
    let fuel = MAX_REFERENCE_DEPTH as nat;
    match lookup(segs, doc, imports) {
        Some(w) => resolve_m(w.model(), doc, imports, host, fuel),
        None => {
            let n: nat = if segs.len() > 0 && find_doc(imports, segs[0]) is Some {
                2
            } else {
                1
            };
            if segs.len() > n {
                match lookup(segs.take(n as int), doc, imports) {
                    Some(w) => match resolve_m(w.model(), doc, imports, host, fuel) {
                        Ok(m) => match walk_m(m, segs.skip(n as int)) {
                            Some(x) => Ok(x),
                            None => Err(not_found()),
                        },
                        Err(f) => Err(f),
                    },
                    None => Err(not_found()),
                }
            } else {
                Err(not_found())
            }
        },
    }
}

/// The keys of resolved object items, in order.
pub open spec fn keys_of(items: Seq<IModel>) -> Seq<Text> {
    Seq::new(
        items.len(),
        |i: int|
            match items[i] {
                IModel::Assign(k, _) => k,
                _ => Seq::empty(),
            },
    )
}

/// The segments of the first `end` characters of a path.
fn split_upto(cs: &Vec<char>, end: usize) -> (r: Vec<String>)
    requires
        end <= cs.len(),
    ensures
        texts(r@) == split_dots(cs@.take(end as int)),
    decreases end,
{
    let ghost t = cs@.take(end as int);
    let mut d = end;
    while d > 0 && cs[d - 1] != '.'
        invariant
            d <= end <= cs.len(),
            t == cs@.take(end as int),
            last_dot(t, d as nat) == last_dot(t, end as nat),
        decreases d,
    {
        d -= 1;
    }
    let seg = crate::resolver::slice_string(cs, d, end);
    if d == 0 {
        let mut out: Vec<String> = Vec::new();
        out.push(seg);
        assert(seg@ =~= t);
        assert(texts(out@) =~= seq![t]);
        out
    } else {
        let mut out = split_upto(cs, d - 1);
        proof {
            crate::ast::lemma_texts_push(out@, seg);
            assert(t.take(d - 1) =~= cs@.take(d - 1));
            assert(t.skip(d as int) =~= seg@);
        }
        out.push(seg);
        out
    }
}

/// The segments of a dotted path.
pub fn split_path(path: &str) -> (r: Vec<String>)
    requires
        path@.len() < usize::MAX,
    ensures
        texts(r@) == split_dots(path@),
{
    let cs = chars_of(path);
    assert(cs@.take(cs.len() as int) =~= cs@);
    split_upto(&cs, cs.len())
}

fn find_field_value<'a>(items: &'a Vec<crate::ast::ObjectItem>, key: &String) -> (r: Option<&'a Value>)
    ensures
        r is Some <==> find_field_m(crate::ast::items_model(items@), key@) is Some,
        r is Some ==> r->0.model() == find_field_m(crate::ast::items_model(items@), key@)->0,
{
    let ghost s = crate::ast::items_model(items@);
    let mut i: usize = 0;
    assert(s.skip(0) =~= s);
    while i < items.len()
        invariant
            i <= items.len(),
            s == crate::ast::items_model(items@),
            find_field_m(s.skip(i as int), key@) == find_field_m(s, key@),
        decreases items.len() - i,
    {
        assert(s.skip(i as int).drop_first() =~= s.skip(i + 1));
        assert(s.skip(i as int)[0] == items@[i as int].model());
        match &items[i] {
            crate::ast::ObjectItem::Assign(k, v) => {
                if *k == *key {
                    return Some(v);
                }
            },
            _ => {},
        }
        i += 1;
    }
    None
}

fn walk_resolved<'a>(v: &'a Value, path: &Vec<String>, from: usize) -> (r: Option<&'a Value>)
    requires
        from <= path@.len(),
    ensures
        r is Some <==> walk_m(v.model(), texts(path@).skip(from as int)) is Some,
        r is Some ==> r->0.model() == walk_m(v.model(), texts(path@).skip(from as int))->0,
{
    let ghost tp = texts(path@);
    let mut cur = v;
    let mut i = from;
    while i < path.len()
        invariant
            from <= i <= path@.len(),
            tp == texts(path@),
            walk_m(cur.model(), tp.skip(i as int)) == walk_m(v.model(), tp.skip(from as int)),
        decreases path.len() - i,
    {
        assert(tp.skip(i as int).drop_first() =~= tp.skip(i + 1));
        assert(tp.skip(i as int)[0] == path@[i as int]@);
        match cur {
            Value::Object(items) => match find_field_value(items, &path[i]) {
                Some(w) => {
                    cur = w;
                },
                None => {
                    return None;
                },
            },
            _ => {
                return None;
            },
        }
        i += 1;
    }
    assert(tp.skip(i as int).len() == 0);
    Some(cur)
}

/// A configuration: the main document, the imported documents by alias
/// (in the order they were added, one per alias), and the host that
/// `$env` and `$sys` read.
pub struct RuneConfig {
    pub main: Document,
    pub imports: Vec<(String, Document)>,
    pub host: Host,
    /// The text the main document was parsed from.
    pub raw_content: String,
}

impl RuneConfig {
    /// Parse a configuration from text; `gather` statements are recorded but
    /// no file is read.
    pub fn from_str(content: &str, host: Host) -> (r: Result<RuneConfig, RuneError>)
        requires
            content@.len() < usize::MAX,
        ensures
            stream_of(content@).toks.len() == 0 ==> r is Err && r->Err_0.fault() == stream_of(content@).err->0,
            stream_of(content@).toks.len() > 0 ==> match parse_stream(stream_of(content@), host) {
                Ok((d, _)) => r is Ok && r->Ok_0.main.model() == d && r->Ok_0.imports@.len() == 0 && r->Ok_0.wf() && r->Ok_0.host
                    == host && r->Ok_0.raw_content@ == content@,
                Err(f) => r is Err && r->Err_0.fault() == f,
            },
    {
        let mut parser = Parser::new(content, host)?;
        let doc = parser.parse_document()?;
        Ok(RuneConfig { main: doc, imports: Vec::new(), host: parser.host, raw_content: content.to_string() })
    }

    /// The main document.
    pub fn document(&self) -> (r: Option<&Document>)
        ensures
            r == Some(&self.main),
    {
        Some(&self.main)
    }

    /// Each alias has one entry.
    pub open spec fn wf(&self) -> bool {
        crate::eval::keys_unique(crate::eval::import_keys(self.imports@))
    }

    /// Set the document of an import alias: in place of its entry, or added
    /// at the end; the other entries stay as they are.
    pub fn inject_import(&mut self, alias: String, document: Document)
        ensures
            final(self).main == old(self).main,
            final(self).host == old(self).host,
            final(self).raw_content == old(self).raw_content,
            final(self).imports@ == crate::eval::put_import(old(self).imports@, alias, document),
            find_doc(final(self).imports@, alias@) == Some(document),
            old(self).wf() ==> final(self).wf(),
    {
        proof {
            crate::eval::lemma_put_import(self.imports@, alias, document);
        }
        crate::eval::put_import_in(&mut self.imports, alias, document);
    }

    /// Every document by name: `main` first, then the imports in order.
    pub fn all_documents(&self) -> (r: Vec<(String, &Document)>)
        ensures
            r@.len() == self.imports@.len() + 1,
            r@[0].0@ == "main"@,
            *r@[0].1 == self.main,
            forall|k: int|
                0 <= k < self.imports@.len() ==> (#[trigger] r@[k + 1]).0@ == self.imports@[k].0@ && *r@[k
                    + 1].1 == self.imports@[k].1,
    {
        let mut out: Vec<(String, &Document)> = Vec::new();
        out.push(("main".to_string(), &self.main));
        let mut i: usize = 0;
        while i < self.imports.len()
            invariant
                i <= self.imports.len(),
                out@.len() == i + 1,
                out@[0].0@ == "main"@,
                *out@[0].1 == self.main,
                forall|k: int|
                    0 <= k < i ==> (#[trigger] out@[k + 1]).0@ == self.imports@[k].0@ && *out@[k + 1].1
                        == self.imports@[k].1,
            decreases self.imports.len() - i,
        {
            out.push((self.imports[i].0.clone(), &self.imports[i].1));
            i += 1;
        }
        out
    }

    /// The aliases of the imported documents, in order.
    pub fn import_aliases(&self) -> (r: Vec<String>)
        ensures
            texts(r@) == Seq::new(self.imports@.len(), |i: int| self.imports@[i].0@),
    {
        let mut out: Vec<String> = Vec::new();
        let mut i: usize = 0;
        while i < self.imports.len()
            invariant
                i <= self.imports.len(),
                texts(out@) == Seq::new(i as nat, |k: int| self.imports@[k].0@),
            decreases self.imports.len() - i,
        {
            proof {
                crate::ast::lemma_texts_push(out@, self.imports@[i as int].0);
            }
            out.push(self.imports[i].0.clone());
            i += 1;
            assert(texts(out@) =~= Seq::new(i as nat, |k: int| self.imports@[k].0@));
        }
        out
    }

    /// The document called `name`: `main`, or an import alias.
    pub fn get_document(&self, name: &str) -> (r: Option<&Document>)
        ensures
            name@ == seq!['m', 'a', 'i', 'n'] ==> r == Some(&self.main),
            name@ != seq!['m', 'a', 'i', 'n'] ==> (r is Some <==> find_doc(self.imports@, name@) is Some),
            name@ != seq!['m', 'a', 'i', 'n'] && r is Some ==> *r->0 == find_doc(self.imports@, name@)->0,
    {
        let main = ['m', 'a', 'i', 'n'];
        let key = name.to_string();
        if crate::text::string_is(&key, &main) {
            assert(main@ == seq!['m', 'a', 'i', 'n']);
            return Some(&self.main);
        }
        assert(main@ == seq!['m', 'a', 'i', 'n']);
        let mut i: usize = 0;
        assert(self.imports@.skip(0) =~= self.imports@);
        while i < self.imports.len()
            invariant
                i <= self.imports.len(),
                key@ == name@,
                name@ != seq!['m', 'a', 'i', 'n'],
                find_doc(self.imports@.skip(i as int), name@) == find_doc(self.imports@, name@),
            decreases self.imports.len() - i,
        {
            assert(self.imports@.skip(i as int).drop_first() =~= self.imports@.skip(i + 1));
            if self.imports[i].0 == key {
                return Some(&self.imports[i].1);
            }
            i += 1;
        }
        None
    }

    /// Whether there is a document called `name`.
    pub fn has_document(&self, name: &str) -> (r: bool)
        ensures
            r == (name@ == seq!['m', 'a', 'i', 'n'] || find_doc(self.imports@, name@) is Some),
    {
        self.get_document(name).is_some()
    }

    /// The resolved value at a dotted path.
    pub fn get_value(&self, path: &str) -> (r: Result<Value, RuneError>)
        requires
            path@.len() < usize::MAX,
        ensures
            match path_result(split_dots(path@), self.main, self.imports@, self.host) {
                Ok(m) => r is Ok && r->Ok_0.model() == m,
                Err(f) => r is Err && r->Err_0.fault() == f,
            },
    {
        let segs = split_path(path);
        let ghost tp = texts(segs@);
        match resolve_reference(segs.as_slice(), &self.main, &self.imports) {
            Some(w) => resolve_value(w, &self.main, &self.imports, &self.host, MAX_REFERENCE_DEPTH),
            None => {
                let n: usize = if segs.len() > 0 && crate::eval::has_import(&self.imports, &segs[0]) {
                    2
                } else {
                    1
                };
                if segs.len() > n {
                    let mut head: Vec<String> = Vec::new();
                    let mut k: usize = 0;
                    while k < n
                        invariant
                            k <= n < segs.len(),
                            texts(head@) == tp.take(k as int),
                            tp == texts(segs@),
                        decreases n - k,
                    {
                        proof {
                            crate::ast::lemma_texts_push(head@, segs@[k as int]);
                            assert(tp.take(k + 1) =~= tp.take(k as int).push(tp[k as int]));
                        }
                        head.push(segs[k].clone());
                        k += 1;
                    }
                    match resolve_reference(head.as_slice(), &self.main, &self.imports) {
                        Some(w) => {
                            let top = resolve_value(w, &self.main, &self.imports, &self.host, MAX_REFERENCE_DEPTH)?;
                            match walk_resolved(&top, &segs, n) {
                                Some(x) => Ok(x.deep_clone()),
                                None => Err(path_not_found()),
                            }
                        },
                        None => Err(path_not_found()),
                    }
                } else {
                    Err(path_not_found())
                }
            },
        }
    }

    /// The keys of the object at a path, in order.
    pub fn get_keys(&self, path: &str) -> (r: Result<Vec<String>, RuneError>)
        requires
            path@.len() < usize::MAX,
        ensures
            match path_result(split_dots(path@), self.main, self.imports@, self.host) {
                Ok(VModel::Object(items)) => r is Ok && texts(r->Ok_0@) == keys_of(items),
                Ok(_) => r is Err && r->Err_0.fault() == fault(ErrorKind::Type, 306, 0, 0),
                Err(f) => r is Err && r->Err_0.fault() == f,
            },
    {
        let v = self.get_value(path)?;
        match &v {
            Value::Object(items) => {
                let mut out: Vec<String> = Vec::new();
                let mut i: usize = 0;
                while i < items.len()
                    invariant
                        i <= items.len(),
                        texts(out@) == keys_of(crate::ast::items_model(items@)).take(i as int),
                    decreases items.len() - i,
                {
                    let key = match &items[i] {
                        crate::ast::ObjectItem::Assign(k, _) => k.clone(),
                        _ => String::new(),
                    };
                    proof {
                        crate::ast::lemma_texts_push(out@, key);
                    }
                    out.push(key);
                    i += 1;
                    assert(texts(out@) =~= keys_of(crate::ast::items_model(items@)).take(i as int));
                }
                assert(keys_of(crate::ast::items_model(items@)).take(i as int) =~= keys_of(
                    crate::ast::items_model(items@),
                ));
                Ok(out)
            },
            _ => Err(
                RuneError::type_error("Path is not an object".to_string(), 0, 0, Some("Only objects have keys"), 306),
            ),
        }
    }

    /// Whether a path has a value that resolves without error.
    pub fn has(&self, path: &str) -> (r: bool)
        requires
            path@.len() < usize::MAX,
        ensures
            r == path_result(split_dots(path@), self.main, self.imports@, self.host) is Ok,
    {
        self.get_value(path).is_ok()
    }

    /// The value at a path, converted to `T`.
    pub fn get<T: FromValue>(&self, path: &str) -> (r: Result<T, RuneError>)
        requires
            path@.len() < usize::MAX,
        ensures
            match path_result(split_dots(path@), self.main, self.imports@, self.host) {
                Ok(m) => T::converts(m, r),
                Err(f) => r is Err && r->Err_0.fault() == f,
            },
    {
        let v = self.get_value(path)?;
        T::from_value(v)
    }

    /// The value at a path converted to `T`, or `default` when that fails.
    pub fn get_or<T: FromValue>(&self, path: &str, default: T) -> (r: T)
        requires
            path@.len() < usize::MAX,
        ensures
            match path_result(split_dots(path@), self.main, self.imports@, self.host) {
                Ok(m) => if crate::convert::element_converts::<T>(m) {
                    T::converts(m, Ok(r))
                } else {
                    r == default
                },
                Err(_) => r == default,
            },
    {
        match self.get(path) {
            Ok(x) => x,
            Err(e) => {
                proof {
                    let ghost pr = path_result(split_dots(path@), self.main, self.imports@, self.host);
                    if pr is Ok && crate::convert::element_converts::<T>(pr->Ok_0) {
                        let x = choose|x: T| #[trigger] T::converts(pr->Ok_0, Ok(x));
                        T::lemma_ok_excludes_err(pr->Ok_0, x, e);
                    }
                }
                default
            },
        }
    }

    /// `None` when the path names nothing (error 304); otherwise the value
    /// at the path converted to `T`, or the error.
    pub fn get_optional<T: FromValue>(&self, path: &str) -> (r: Result<Option<T>, RuneError>)
        requires
            path@.len() < usize::MAX,
        ensures
            match path_result(split_dots(path@), self.main, self.imports@, self.host) {
                Ok(m) => match r {
                    Ok(Some(x)) => T::converts(m, Ok(x)),
                    Ok(None) => false,
                    Err(e) => T::converts(m, Err(e)),
                },
                Err(f) => if f == not_found() {
                    r is Ok && r->Ok_0 is None
                } else {
                    r is Err && r->Err_0.fault() == f
                },
            },
    {
        match self.get_value(path) {
            Ok(v) => match T::from_value(v) {
                Ok(x) => Ok(Some(x)),
                Err(e) => Err(e),
            },
            Err(e) => {
                if is_not_found(&e) {
                    Ok(None)
                } else {
                    Err(e)
                }
            },
        }
    }
}

/// Whether `value` is one of `options`.
pub fn one_of(value: &String, options: &Vec<String>) -> (r: bool)
    ensures
        r == exists|i: int| 0 <= i < options@.len() && #[trigger] options@[i]@ == value@,
{
    let mut i: usize = 0;
    while i < options.len()
        invariant
            i <= options.len(),
            forall|k: int| 0 <= k < i ==> options@[k]@ != value@,
        decreases options.len() - i,
    {
        if options[i] == *value {
            return true;
        }
        i += 1;
    }
    false
}

impl RuneConfig {
    /// The string at a path, when it matches one of `allowed` ignoring case;
    /// error 451 when it matches none.
    pub fn get_string_enum(&self, path: &str, allowed: &[&str]) -> (r: Result<String, RuneError>)
        requires
            path@.len() < usize::MAX,
        ensures
            match path_result(split_dots(path@), self.main, self.imports@, self.host) {
                Ok(VModel::Str(s)) => if exists|i: int|
                    0 <= i < allowed@.len() && #[trigger] lower_of(allowed@[i]@) == lower_of(s) {
                    r is Ok && r->Ok_0@ == s
                } else {
                    r is Err && r->Err_0.fault() == fault(ErrorKind::Validation, 451, 0, 0)
                },
                Ok(_) => r is Err && r->Err_0.fault() == fault(ErrorKind::Type, 401, 0, 0),
                Err(f) => r is Err && r->Err_0.fault() == f,
            },
    {
        let value: String = self.get(path)?;
        let folded = lowercase(value.as_str());
        let mut options: Vec<String> = Vec::new();
        let mut i: usize = 0;
        while i < allowed.len()
            invariant
                i <= allowed.len(),
                options@.len() == i,
                forall|k: int| 0 <= k < i ==> #[trigger] options@[k]@ == lower_of(allowed@[k]@),
            decreases allowed.len() - i,
        {
            options.push(lowercase(allowed[i]));
            i += 1;
        }
        if one_of(&folded, &options) {
            Ok(value)
        } else {
            proof {
                assert forall|k: int| 0 <= k < allowed@.len() implies #[trigger] lower_of(allowed@[k]@) != lower_of(value@) by {
                    assert(options@[k]@ == lower_of(allowed@[k]@));
                }
            }
            Err(
                RuneError::ValidationError {
                    message: value,
                    line: 0,
                    column: 0,
                    hint: Some("Expected one of the allowed values".to_string()),
                    code: Some(451),
                },
            )
        }
    }
}

impl RuneConfig {
    /// The value at a path converted to `T`, when `validator` accepts it;
    /// error 450, naming `valid_values`, when it does not.
    pub fn get_validated<T: FromValue, F: FnOnce(&T) -> bool>(&self, path: &str, validator: F, valid_values: &str) -> (r: Result<T, RuneError>)
        requires
            path@.len() < usize::MAX,
            forall|t: &T| validator.requires((t,)),
        ensures
            match path_result(split_dots(path@), self.main, self.imports@, self.host) {
                Ok(m) => match r {
                    Ok(x) => T::converts(m, Ok(x)) && validator.ensures((&x,), true),
                    Err(e) => T::converts(m, Err(e)) || (e.fault() == fault(ErrorKind::Validation, 450, 0, 0)
                        && exists|x: T| T::converts(m, Ok(x)) && validator.ensures((&x,), false)),
                },
                Err(f) => r is Err && r->Err_0.fault() == f,
            },
    {
        let value = self.get_value(path)?;
        let typed = T::from_value(value)?;
        let ok = validator(&typed);
        if !ok {
            let mut message: Vec<char> = Vec::new();
            crate::text::push_str(&mut message, "Invalid value; expected: ");
            crate::text::push_str(&mut message, valid_values);
            return Err(
                RuneError::ValidationError {
                    message: crate::text::string_of(&message),
                    line: 0,
                    column: 0,
                    hint: Some(valid_values.to_string()),
                    code: Some(450),
                },
            );
        }
        Ok(typed)
    }
}

fn is_not_found(e: &RuneError) -> (r: bool)
    ensures
        r == (e.fault() == not_found()),
{
    match e {
        RuneError::SyntaxError { line, column, code, .. } => *line == 0 && *column == 0 && *code == Some(304u32),
        _ => false,
    }
}

fn path_not_found() -> (r: RuneError)
    ensures
        r.fault() == not_found(),
{
    RuneError::syntax(
        "Path not found in configuration",
        0,
        0,
        Some("Check that the path exists in your config file"),
        304,
    )
}

} // verus!
