//! Namespace lookups (`$env`, `$sys`, `$runtime`) and their expansion inside
//! strings.
use vstd::prelude::*;
use crate::ast::{lemma_texts_push, texts, Text, VModel, Value};
use crate::error::{fault, ErrorKind, Fault, RuneError};
use crate::host::{env_lookup, env_var, Host, SysInfo};
use crate::lexer::{ident_char, ident_end};
use crate::text::{chars_of, is_alphanumeric, same_chars, string_is, string_of};

verus! {

pub open spec fn syntax_fault(code: u32) -> Fault {
    fault(ErrorKind::Syntax, code, 0, 0)
}

pub open spec fn opt_text(o: Option<String>) -> Option<Text> {
    match o {
        Some(s) => Some(s@),
        None => None,
    }
}

pub open spec fn env_word() -> Text {
    seq!['e', 'n', 'v']
}

pub open spec fn sys_word() -> Text {
    seq!['s', 'y', 's']
}

pub open spec fn runtime_word() -> Text {
    seq!['r', 'u', 'n', 't', 'i', 'm', 'e']
}

/// The fact that a `$sys` key names, or `None` for an unknown key. Keys may
/// be spelt with `_` or `-`.
pub open spec fn sys_fact(key: Text, sys: SysInfo) -> Option<Option<Text>> {
    if key == seq!['o', 's'] {
        Some(opt_text(sys.os))
    } else if key == seq!['k', 'e', 'r', 'n', 'e', 'l', '_', 'v', 'e', 'r', 's', 'i', 'o', 'n'] || key
        == seq!['k', 'e', 'r', 'n', 'e', 'l', '-', 'v', 'e', 'r', 's', 'i', 'o', 'n'] {
        Some(opt_text(sys.kernel_version))
    } else if key == seq!['o', 's', '_', 'v', 'e', 'r', 's', 'i', 'o', 'n'] || key == seq![
        'o',
        's',
        '-',
        'v',
        'e',
        'r',
        's',
        'i',
        'o',
        'n',
    ] {
        Some(opt_text(sys.os_version))
    } else if key == seq!['h', 'o', 's', 't', 'n', 'a', 'm', 'e'] {
        Some(opt_text(sys.host_name))
    } else if key == seq!['p', 'r', 'o', 'd', 'u', 'c', 't', '_', 'n', 'a', 'm', 'e'] || key == seq![
        'p',
        'r',
        'o',
        'd',
        'u',
        'c',
        't',
        '-',
        'n',
        'a',
        'm',
        'e',
    ] {
        Some(opt_text(sys.product_name))
    } else if key == seq!['c', 'p', 'u', '_', 'a', 'r', 'c', 'h'] || key == seq![
        'c',
        'p',
        'u',
        '-',
        'a',
        'r',
        'c',
        'h',
    ] {
        Some(opt_text(sys.cpu_arch))
    } else if key == seq!['c', 'p', 'u', '_', 'c', 'o', 'u', 'n', 't'] || key == seq![
        'c',
        'p',
        'u',
        '-',
        'c',
        'o',
        'u',
        'n',
        't',
    ] {
        Some(opt_text(sys.cpu_count))
    } else if key == seq!['m', 'e', 'm', 'o', 'r', 'y', '_', 't', 'o', 't', 'a', 'l'] || key == seq![
        'm',
        'e',
        'm',
        'o',
        'r',
        'y',
        '-',
        't',
        'o',
        't',
        'a',
        'l',
    ] {
        Some(opt_text(sys.memory_total))
    } else if key == seq!['m', 'e', 'm', 'o', 'r', 'y', '_', 'f', 'r', 'e', 'e'] || key == seq![
        'm',
        'e',
        'm',
        'o',
        'r',
        'y',
        '-',
        'f',
        'r',
        'e',
        'e',
    ] {
        Some(opt_text(sys.memory_free))
    } else if key == seq!['m', 'e', 'm', 'o', 'r', 'y', '_', 'u', 's', 'e', 'd'] || key == seq![
        'm',
        'e',
        'm',
        'o',
        'r',
        'y',
        '-',
        'u',
        's',
        'e',
        'd',
    ] {
        Some(opt_text(sys.memory_used))
    } else if key == seq!['u', 'p', 't', 'i', 'm', 'e'] {
        Some(opt_text(sys.uptime))
    } else {
        None
    }
}

/// `$env.<NAME>`: the variable's value, empty when it is unset.
pub open spec fn env_text(path: Seq<Text>, host: Host) -> Result<Text, Fault> {
    if path.len() != 2 {
        Err(syntax_fault(209))
    } else {
        match env_lookup(host.env@, path[1]) {
            Some(v) => Ok(v),
            None => Ok(Seq::empty()),
        }
    }
}

/// `$sys.<KEY>`: the system fact the key names.
pub open spec fn sys_text(path: Seq<Text>, host: Host) -> Result<Text, Fault> {
    if path.len() < 2 {
        Err(syntax_fault(211))
    } else {
        match sys_fact(path[1], host.sys) {
            None => Err(syntax_fault(212)),
            Some(None) => Err(syntax_fault(213)),
            Some(Some(t)) => Ok(t),
        }
    }
}

/// The value of a `$namespace.path` in value position: `$sys` is looked up
/// now, `$env.NAME` too when the variable is set; an unset variable, and
/// any other namespace, stays a reference to be resolved later.
pub open spec fn dollar_value(path: Seq<Text>, host: Host) -> Result<VModel, Fault> {
    if path.len() > 0 && path[0] == env_word() {
        if path.len() != 2 {
            Err(syntax_fault(209))
        } else {
            match env_lookup(host.env@, path[1]) {
                Some(v) => Ok(VModel::Str(v)),
                None => Ok(VModel::Reference(path)),
            }
        }
    } else if path.len() > 0 && path[0] == sys_word() {
        match sys_text(path, host) {
            Ok(t) => Ok(VModel::Str(t)),
            Err(f) => Err(f),
        }
    } else {
        Ok(VModel::Reference(path))
    }
}

/// The value of a string that is a single `$namespace.path`: as
/// `dollar_value`, except that an unset variable reads as the empty string.
pub open spec fn string_dollar_value(path: Seq<Text>, host: Host) -> Result<VModel, Fault> {
    if path.len() > 0 && path[0] == env_word() {
        match env_text(path, host) {
            Ok(t) => Ok(VModel::Str(t)),
            Err(f) => Err(f),
        }
    } else if path.len() > 0 && path[0] == sys_word() {
        match sys_text(path, host) {
            Ok(t) => Ok(VModel::Str(t)),
            Err(f) => Err(f),
        }
    } else {
        Ok(VModel::Reference(path))
    }
}

/// The segments `.name` that follow position `i` in a string, added to `acc`,
/// and the position after the last one.
pub open spec fn dollar_path(s: Text, i: nat, acc: Seq<Text>) -> Result<(Seq<Text>, nat), Fault>
    decreases s.len() - i,
{
    if i < s.len() && s[i as int] == '.' {
        let e = ident_end(s, i + 1);
        if e == i + 1 {
            Err(syntax_fault(210))
        } else if i < e && e <= s.len() {
            dollar_path(s, e, acc.push(s.subrange(i + 1 as int, e as int)))
        } else {
            Err(syntax_fault(210))
        }
    } else {
        Ok((acc, i))
    }
}

/// The segments of a path, joined by dots.
pub open spec fn join_dots(p: Seq<Text>) -> Text
    decreases p.len(),
{
    if p.len() == 0 {
        Seq::empty()
    } else if p.len() == 1 {
        p[0]
    } else {
        join_dots(p.drop_last()) + seq!['.'] + p.last()
    }
}

/// What a `$path` inside a longer string is replaced by.
pub open spec fn replacement(path: Seq<Text>, host: Host) -> Result<Text, Fault> {
    if path[0] == env_word() {
        env_text(path, host)
    } else if path[0] == sys_word() {
        sys_text(path, host)
    } else {
        Ok(seq!['$'] + join_dots(path))
    }
}

/// The string from `i` on with each `$path` replaced, appended to `acc`.
pub open spec fn interpolate(s: Text, i: nat, acc: Text, host: Host) -> Result<Text, Fault>
    decreases s.len() - i,
{
    if i >= s.len() {
        Ok(acc)
    } else if s[i as int] == '$' {
        let e = ident_end(s, i + 1);
        match dollar_path(s, e, seq![s.subrange(i + 1 as int, e as int)]) {
            Err(f) => Err(f),
            Ok((path, k)) => match replacement(path, host) {
                Err(f) => Err(f),
                Ok(t) => if i < k && k <= s.len() {
                    interpolate(s, k, acc + t, host)
                } else {
                    Err(syntax_fault(210))
                },
            },
        }
    } else {
        interpolate(s, i + 1, acc.push(s[i as int]), host)
    }
}

/// A string that is a single `$path` and nothing else around it.
pub open spec fn whole_reference(s: Text) -> bool {
    &&& s.len() > 0
    &&& s[0] == '$'
    &&& !s.drop_first().contains(' ')
    &&& !s.drop_first().contains('/')
}

/// What a string literal becomes: unchanged without `$`; the value of the
/// path when it is a single `$path` (text after the path is dropped);
/// otherwise the string with each `$env`/`$sys` path replaced by its value
/// and any other `$path` kept as written.
pub open spec fn expand_spec(s: Text, host: Host) -> Result<VModel, Fault> {
    if !s.contains('$') {
        Ok(VModel::Str(s))
    } else if whole_reference(s) {
        let e = ident_end(s, 1);
        match dollar_path(s, e, seq![s.subrange(1, e as int)]) {
            Err(f) => Err(f),
            Ok((path, _)) => string_dollar_value(path, host),
        }
    } else {
        match interpolate(s, 0, Seq::empty(), host) {
            Ok(t) => Ok(VModel::Str(t)),
            Err(f) => Err(f),
        }
    }
}

pub proof fn lemma_ident_end_bounds(s: Text, i: nat)
    ensures
        i <= ident_end(s, i),
        i <= s.len() ==> ident_end(s, i) <= s.len(),
    decreases s.len() - i,
{
    if i < s.len() && ident_char(s[i as int]) {
        lemma_ident_end_bounds(s, i + 1);
    }
}

/// The end of a run of identifier characters in `cs` from `i`.
pub fn scan_ident(cs: &Vec<char>, i: usize) -> (r: usize)
    requires
        i <= cs.len(),
    ensures
        r == ident_end(cs@, i as nat),
        i <= r <= cs.len(),
{
    let mut j = i;
    proof {
        lemma_ident_end_bounds(cs@, i as nat);
    }
    while j < cs.len() && (is_alphanumeric(cs[j]) || cs[j] == '_' || cs[j] == '-')
        invariant
            i <= j <= cs.len(),
            ident_end(cs@, j as nat) == ident_end(cs@, i as nat),
        decreases cs.len() - j,
    {
        j += 1;
    }
    j
}

/// The characters `cs[from..to]` as a string.
pub fn slice_string(cs: &Vec<char>, from: usize, to: usize) -> (r: String)
    requires
        from <= to <= cs.len(),
    ensures
        r@ == cs@.subrange(from as int, to as int),
{
    let mut v: Vec<char> = Vec::new();
    let mut k = from;
    while k < to
        invariant
            from <= k <= to <= cs.len(),
            v@ == cs@.subrange(from as int, k as int),
        decreases to - k,
    {
        v.push(cs[k]);
        k += 1;
        assert(v@ =~= cs@.subrange(from as int, k as int));
    }
    string_of(&v)
}


/// Read the `.name` segments after position `i`, adding them to `acc`.
#[verifier::loop_isolation(false)]
fn scan_dollar_path(cs: &Vec<char>, i: usize, acc: Vec<String>) -> (r: Result<(Vec<String>, usize), RuneError>)
    requires
        i <= cs.len(),
    ensures
        match dollar_path(cs@, i as nat, texts(acc@)) {
            Ok((p, k)) => r is Ok && texts(r->Ok_0.0@) == p && r->Ok_0.1 == k && i <= k <= cs.len(),
            Err(f) => r is Err && r->Err_0.fault() == f,
        },
        r is Ok ==> r->Ok_0.0@.len() >= acc@.len(),
{
    let ghost start = texts(acc@);
    let ghost n0 = acc@.len();
    let mut acc = acc;
    let mut j = i;
    loop
        invariant
            i <= j <= cs.len(),
            dollar_path(cs@, j as nat, texts(acc@)) == dollar_path(cs@, i as nat, start),
            acc@.len() >= n0,
        decreases cs.len() - j,
    {
        if j < cs.len() && cs[j] == '.' {
            let e = scan_ident(cs, j + 1);
            if e == j + 1 {
                return Err(RuneError::syntax("Expected identifier after '.'", 0, 0, None, 210));
            }
            let seg = slice_string(cs, j + 1, e);
            proof {
                lemma_texts_push(acc@, seg);
            }
            acc.push(seg);
            j = e;
        } else {
            return Ok((acc, j));
        }
    }
}

fn clone_opt(o: &Option<String>) -> (r: Option<String>)
    ensures
        opt_text(r) == opt_text(*o),
{
    match o {
        Some(t) => Some(t.clone()),
        None => None,
    }
}

fn is_word(s: &String, w: &[char], v: &[char]) -> (r: bool)
    ensures
        r == (s@ == w@ || s@ == v@),
{
    string_is(s, w) || string_is(s, v)
}

/// The system fact named by `key`, or `None` when the key is unknown.
fn sys_fact_of(key: &String, sys: &SysInfo) -> (r: Option<Option<String>>)
    ensures
        match sys_fact(key@, *sys) {
            None => r is None,
            Some(t) => r is Some && opt_text(r->0) == t,
        },
{
    let os = ['o', 's'];
    let kv = ['k', 'e', 'r', 'n', 'e', 'l', '_', 'v', 'e', 'r', 's', 'i', 'o', 'n'];
    let kv2 = ['k', 'e', 'r', 'n', 'e', 'l', '-', 'v', 'e', 'r', 's', 'i', 'o', 'n'];
    let ov = ['o', 's', '_', 'v', 'e', 'r', 's', 'i', 'o', 'n'];
    let ov2 = ['o', 's', '-', 'v', 'e', 'r', 's', 'i', 'o', 'n'];
    let hn = ['h', 'o', 's', 't', 'n', 'a', 'm', 'e'];
    let pn = ['p', 'r', 'o', 'd', 'u', 'c', 't', '_', 'n', 'a', 'm', 'e'];
    let pn2 = ['p', 'r', 'o', 'd', 'u', 'c', 't', '-', 'n', 'a', 'm', 'e'];
    let ca = ['c', 'p', 'u', '_', 'a', 'r', 'c', 'h'];
    let ca2 = ['c', 'p', 'u', '-', 'a', 'r', 'c', 'h'];
    let cc = ['c', 'p', 'u', '_', 'c', 'o', 'u', 'n', 't'];
    let cc2 = ['c', 'p', 'u', '-', 'c', 'o', 'u', 'n', 't'];
    let mt = ['m', 'e', 'm', 'o', 'r', 'y', '_', 't', 'o', 't', 'a', 'l'];
    let mt2 = ['m', 'e', 'm', 'o', 'r', 'y', '-', 't', 'o', 't', 'a', 'l'];
    let mf = ['m', 'e', 'm', 'o', 'r', 'y', '_', 'f', 'r', 'e', 'e'];
    let mf2 = ['m', 'e', 'm', 'o', 'r', 'y', '-', 'f', 'r', 'e', 'e'];
    let mu = ['m', 'e', 'm', 'o', 'r', 'y', '_', 'u', 's', 'e', 'd'];
    let mu2 = ['m', 'e', 'm', 'o', 'r', 'y', '-', 'u', 's', 'e', 'd'];
    let up = ['u', 'p', 't', 'i', 'm', 'e'];
    assert(os@ == seq!['o', 's']);
    assert(kv@ == seq!['k', 'e', 'r', 'n', 'e', 'l', '_', 'v', 'e', 'r', 's', 'i', 'o', 'n']);
    assert(kv2@ == seq!['k', 'e', 'r', 'n', 'e', 'l', '-', 'v', 'e', 'r', 's', 'i', 'o', 'n']);
    assert(ov@ == seq!['o', 's', '_', 'v', 'e', 'r', 's', 'i', 'o', 'n']);
    assert(ov2@ == seq!['o', 's', '-', 'v', 'e', 'r', 's', 'i', 'o', 'n']);
    assert(hn@ == seq!['h', 'o', 's', 't', 'n', 'a', 'm', 'e']);
    assert(pn@ == seq!['p', 'r', 'o', 'd', 'u', 'c', 't', '_', 'n', 'a', 'm', 'e']);
    assert(pn2@ == seq!['p', 'r', 'o', 'd', 'u', 'c', 't', '-', 'n', 'a', 'm', 'e']);
    assert(ca@ == seq!['c', 'p', 'u', '_', 'a', 'r', 'c', 'h']);
    assert(ca2@ == seq!['c', 'p', 'u', '-', 'a', 'r', 'c', 'h']);
    assert(cc@ == seq!['c', 'p', 'u', '_', 'c', 'o', 'u', 'n', 't']);
    assert(cc2@ == seq!['c', 'p', 'u', '-', 'c', 'o', 'u', 'n', 't']);
    assert(mt@ == seq!['m', 'e', 'm', 'o', 'r', 'y', '_', 't', 'o', 't', 'a', 'l']);
    assert(mt2@ == seq!['m', 'e', 'm', 'o', 'r', 'y', '-', 't', 'o', 't', 'a', 'l']);
    assert(mf@ == seq!['m', 'e', 'm', 'o', 'r', 'y', '_', 'f', 'r', 'e', 'e']);
    assert(mf2@ == seq!['m', 'e', 'm', 'o', 'r', 'y', '-', 'f', 'r', 'e', 'e']);
    assert(mu@ == seq!['m', 'e', 'm', 'o', 'r', 'y', '_', 'u', 's', 'e', 'd']);
    assert(mu2@ == seq!['m', 'e', 'm', 'o', 'r', 'y', '-', 'u', 's', 'e', 'd']);
    assert(up@ == seq!['u', 'p', 't', 'i', 'm', 'e']);
    if string_is(key, &os) {
        Some(clone_opt(&sys.os))
    } else if is_word(key, &kv, &kv2) {
        Some(clone_opt(&sys.kernel_version))
    } else if is_word(key, &ov, &ov2) {
        Some(clone_opt(&sys.os_version))
    } else if string_is(key, &hn) {
        Some(clone_opt(&sys.host_name))
    } else if is_word(key, &pn, &pn2) {
        Some(clone_opt(&sys.product_name))
    } else if is_word(key, &ca, &ca2) {
        Some(clone_opt(&sys.cpu_arch))
    } else if is_word(key, &cc, &cc2) {
        Some(clone_opt(&sys.cpu_count))
    } else if is_word(key, &mt, &mt2) {
        Some(clone_opt(&sys.memory_total))
    } else if is_word(key, &mf, &mf2) {
        Some(clone_opt(&sys.memory_free))
    } else if is_word(key, &mu, &mu2) {
        Some(clone_opt(&sys.memory_used))
    } else if string_is(key, &up) {
        Some(clone_opt(&sys.uptime))
    } else {
        None
    }
}

/// `$env.<NAME>`: the variable's value, or empty when it is unset.
pub fn resolve_env(path: &Vec<String>, host: &Host) -> (r: Result<String, RuneError>)
    ensures
        match env_text(texts(path@), *host) {
            Ok(t) => r is Ok && r->Ok_0@ == t,
            Err(f) => r is Err && r->Err_0.fault() == f,
        },
{
    if path.len() != 2 {
        return Err(RuneError::syntax("Invalid $env path", 0, 0, Some("Use $env.<VAR_NAME>"), 209));
    }
    match env_var(&host.env, &path[1]) {
        Some(v) => Ok(v),
        None => Ok(String::new()),
    }
}

/// `$sys.<KEY>`: the system fact the key names.
pub fn resolve_sys(path: &Vec<String>, host: &Host) -> (r: Result<String, RuneError>)
    ensures
        match sys_text(texts(path@), *host) {
            Ok(t) => r is Ok && r->Ok_0@ == t,
            Err(f) => r is Err && r->Err_0.fault() == f,
        },
{
    if path.len() < 2 {
        return Err(RuneError::syntax("Missing key in $sys path", 0, 0, Some("Use $sys.<KEY>"), 211));
    }
    match sys_fact_of(&path[1], &host.sys) {
        None => Err(
            RuneError::syntax(
                "Unknown $sys key",
                0,
                0,
                Some(
                    "Available keys: os, kernel_version, os_version, hostname, product_name, cpu_arch, cpu_count, memory_total, memory_free, memory_used, uptime",
                ),
                212,
            ),
        ),
        Some(None) => Err(RuneError::syntax("Unable to resolve $sys key", 0, 0, None, 213)),
        Some(Some(t)) => Ok(t),
    }
}

/// Whether the first segment of a path is `word`.
fn first_is(path: &Vec<String>, word: &[char]) -> (r: bool)
    ensures
        r == (path@.len() > 0 && texts(path@)[0] == word@),
{
    path.len() > 0 && string_is(&path[0], word)
}

/// The value of a `$namespace.path` in value position: `$sys` is looked
/// up now, `$env.NAME` too when the variable is set; an unset variable and
/// `$runtime` stay references to be resolved later.
pub fn parse_dollar_reference(path: Vec<String>, host: &Host) -> (r: Result<Value, RuneError>)
    ensures
        match dollar_value(texts(path@), *host) {
            Ok(v) => r is Ok && r->Ok_0.model() == v,
            Err(f) => r is Err && r->Err_0.fault() == f,
        },
{
    let env = ['e', 'n', 'v'];
    let sys = ['s', 'y', 's'];
    assert(env@ == env_word());
    assert(sys@ == sys_word());
    if first_is(&path, &env) {
        if path.len() != 2 {
            return Err(RuneError::syntax("Invalid $env path", 0, 0, Some("Use $env.<VAR_NAME>"), 209));
        }
        match env_var(&host.env, &path[1]) {
            Some(v) => Ok(Value::String(v)),
            None => Ok(Value::Reference(path)),
        }
    } else if first_is(&path, &sys) {
        match resolve_sys(&path, host) {
            Ok(t) => Ok(Value::String(t)),
            Err(e) => Err(e),
        }
    } else {
        Ok(Value::Reference(path))
    }
}

/// The value of a string that is a single `$namespace.path`: an unset
/// variable reads as the empty string.
fn string_dollar_reference(path: Vec<String>, host: &Host) -> (r: Result<Value, RuneError>)
    ensures
        match string_dollar_value(texts(path@), *host) {
            Ok(v) => r is Ok && r->Ok_0.model() == v,
            Err(f) => r is Err && r->Err_0.fault() == f,
        },
{
    let env = ['e', 'n', 'v'];
    let sys = ['s', 'y', 's'];
    assert(env@ == env_word());
    assert(sys@ == sys_word());
    if first_is(&path, &env) {
        match resolve_env(&path, host) {
            Ok(t) => Ok(Value::String(t)),
            Err(e) => Err(e),
        }
    } else if first_is(&path, &sys) {
        match resolve_sys(&path, host) {
            Ok(t) => Ok(Value::String(t)),
            Err(e) => Err(e),
        }
    } else {
        Ok(Value::Reference(path))
    }
}

/// A reference into `$env` or `$sys` looked up as `parse_dollar_reference`
/// does; any other value is copied as it is.
pub fn resolve_reference_value(value: &Value, host: &Host) -> (r: Result<Value, RuneError>)
    ensures
        match value {
            Value::Reference(p) => match dollar_value(texts(p@), *host) {
                Ok(v) => r is Ok && r->Ok_0.model() == v,
                Err(f) => r is Err && r->Err_0.fault() == f,
            },
            _ => r is Ok && r->Ok_0.model() == value.model(),
        },
{
    match value {
        Value::Reference(p) => {
            let mut copy: Vec<String> = Vec::new();
            let mut i: usize = 0;
            while i < p.len()
                invariant
                    i <= p.len(),
                    texts(copy@) == texts(p@.take(i as int)),
                decreases p.len() - i,
            {
                proof {
                    lemma_texts_push(copy@, p@[i as int]);
                    assert(p@.take(i + 1) =~= p@.take(i as int).push(p@[i as int]));
                    lemma_texts_push(p@.take(i as int), p@[i as int]);
                }
                copy.push(p[i].clone());
                i += 1;
            }
            assert(p@.take(p.len() as int) =~= p@);
            parse_dollar_reference(copy, host)
        },
        _ => Ok(value.deep_clone()),
    }
}

/// The segments joined by dots.
pub fn join_path(path: &Vec<String>) -> (r: Vec<char>)
    ensures
        r@ == join_dots(texts(path@)),
{
    let mut out: Vec<char> = Vec::new();
    let mut i: usize = 0;
    while i < path.len()
        invariant
            i <= path.len(),
            out@ == join_dots(texts(path@.take(i as int))),
        decreases path.len() - i,
    {
        let seg = chars_of(path[i].as_str());
        if i > 0 {
            out.push('.');
        }
        let mut k: usize = 0;
        let ghost base = out@;
        while k < seg.len()
            invariant
                k <= seg.len(),
                out@ == base + seg@.take(k as int),
            decreases seg.len() - k,
        {
            out.push(seg[k]);
            k += 1;
            assert(out@ =~= base + seg@.take(k as int));
        }
        proof {
            assert(seg@.take(seg.len() as int) =~= seg@);
            let t = texts(path@.take(i + 1));
            assert(t.drop_last() =~= texts(path@.take(i as int)));
            assert(t.last() == path@[i as int]@);
            if i == 0 {
                assert(out@ =~= t[0]);
            } else {
                assert(out@ =~= join_dots(t.drop_last()) + seq!['.'] + t.last());
            }
        }
        i += 1;
    }
    assert(path@.take(path.len() as int) =~= path@);
    out
}

/// What a `$path` inside a longer string is replaced by.
fn replacement_of(path: &Vec<String>, host: &Host) -> (r: Result<Vec<char>, RuneError>)
    requires
        path@.len() > 0,
    ensures
        match replacement(texts(path@), *host) {
            Ok(t) => r is Ok && r->Ok_0@ == t,
            Err(f) => r is Err && r->Err_0.fault() == f,
        },
{
    let env = ['e', 'n', 'v'];
    let sys = ['s', 'y', 's'];
    assert(env@ == env_word());
    assert(sys@ == sys_word());
    if first_is(path, &env) {
        match resolve_env(path, host) {
            Ok(t) => Ok(chars_of(t.as_str())),
            Err(e) => Err(e),
        }
    } else if first_is(path, &sys) {
        match resolve_sys(path, host) {
            Ok(t) => Ok(chars_of(t.as_str())),
            Err(e) => Err(e),
        }
    } else {
        let mut out: Vec<char> = Vec::new();
        out.push('$');
        let mut joined = join_path(path);
        out.append(&mut joined);
        Ok(out)
    }
}

fn has_char(cs: &Vec<char>, from: usize, c: char) -> (r: bool)
    requires
        from <= cs.len(),
    ensures
        r == cs@.skip(from as int).contains(c),
{
    let mut i = from;
    while i < cs.len()
        invariant
            from <= i <= cs.len(),
            forall|k: int| from <= k < i ==> cs@[k] != c,
        decreases cs.len() - i,
    {
        if cs[i] == c {
            assert(cs@.skip(from as int)[i - from] == c);
            return true;
        }
        i += 1;
    }
    assert forall|k: int| 0 <= k < cs@.skip(from as int).len() implies cs@.skip(from as int)[k] != c by {
        assert(cs@.skip(from as int)[k] == cs@[k + from]);
    }
    false
}

/// Expand `$env`, `$sys` and `$runtime` paths inside a string literal.
/// A string without `$` stays as it is. A string that is a single `$path`
/// (no space or `/` after the `$`) becomes the value of that path, where
/// `$runtime` and unknown namespaces stay references. Otherwise each
/// `$env`/`$sys` path in the string is replaced by its value and any other
/// `$path` is kept as written.
#[verifier::loop_isolation(false)]
pub fn expand_dollar_string(s: &str, host: &Host) -> (r: Result<Value, RuneError>)
    ensures
        match expand_spec(s@, *host) {
            Ok(v) => r is Ok && r->Ok_0.model() == v,
            Err(f) => r is Err && r->Err_0.fault() == f,
        },
{
    let cs = chars_of(s);
    if !has_char(&cs, 0, '$') {
        assert(cs@.skip(0) =~= cs@);
        return Ok(Value::String(string_of(&cs)));
    }
    assert(cs@.skip(0) =~= cs@);
    if cs[0] == '$' && !has_char(&cs, 1, ' ') && !has_char(&cs, 1, '/') {
        assert(cs@.skip(1) =~= cs@.drop_first());
        let e = scan_ident(&cs, 1);
        let mut first: Vec<String> = Vec::new();
        first.push(slice_string(&cs, 1, e));
        assert(texts(first@) =~= seq![cs@.subrange(1, e as int)]);
        return match scan_dollar_path(&cs, e, first) {
            Err(err) => Err(err),
            Ok((path, _)) => string_dollar_reference(path, host),
        };
    }
    assert(!whole_reference(s@)) by {
        if cs@.len() > 0 && cs@[0] == '$' {
            assert(cs@.skip(1) =~= cs@.drop_first());
        }
    }
    let mut out: Vec<char> = Vec::new();
    let mut i: usize = 0;
    loop
        invariant
            i <= cs.len(),
            interpolate(cs@, i as nat, out@, *host) == interpolate(cs@, 0, Seq::empty(), *host),
        decreases cs.len() - i,
    {
        if i >= cs.len() {
            return Ok(Value::String(string_of(&out)));
        }
        if cs[i] == '$' {
            let e = scan_ident(&cs, i + 1);
            let mut first: Vec<String> = Vec::new();
            first.push(slice_string(&cs, i + 1, e));
            assert(texts(first@) =~= seq![cs@.subrange(i + 1, e as int)]);
            match scan_dollar_path(&cs, e, first) {
                Err(err) => {
                    return Err(err);
                },
                Ok((path, k)) => {
                    match replacement_of(&path, host) {
                        Err(err) => {
                            return Err(err);
                        },
                        Ok(mut t) => {
                            out.append(&mut t);
                            i = k;
                        },
                    }
                },
            }
        } else {
            out.push(cs[i]);
            i += 1;
        }
    }
}

} // verus!
