//! Finding the source line that defines a dotted path, to point error
//! messages at it. This reads the raw text line by line, tracking the
//! `name:` ... `end` blocks it is inside; it is a heuristic, not a parse.
use vstd::prelude::*;
use crate::ast::Text;
use crate::error::RuneError;
use crate::grammar::last_dot;
use crate::resolver::join_dots;
use vstd::string::*;
use crate::text::{chars_of, string_of};

verus! {

/// Whether a character has Unicode's White_Space property, the test that
/// `char::is_whitespace` and `str::trim` make.
pub open spec fn whitespace(c: char) -> bool {
    let u = c as u32;
    (0x9 <= u && u <= 0xD) || u == 0x20 || u == 0x85 || u == 0xA0 || u == 0x1680 || (0x2000 <= u && u <= 0x200A)
        || u == 0x2028 || u == 0x2029 || u == 0x202F || u == 0x205F || u == 0x3000
}

fn is_whitespace(c: char) -> (r: bool)
    ensures
        r == whitespace(c),
{
    let u = c as u32;
    (0x9 <= u && u <= 0xD) || u == 0x20 || u == 0x85 || u == 0xA0 || u == 0x1680 || (0x2000 <= u && u <= 0x200A)
        || u == 0x2028 || u == 0x2029 || u == 0x202F || u == 0x205F || u == 0x3000
}

/// The end of the line that starts at `i`: the next `\n`, or the end.
pub open spec fn line_end(s: Text, i: nat) -> nat
    decreases s.len() - i,
{
    if i >= s.len() || s[i as int] == '\n' {
        i
    } else {
        line_end(s, i + 1)
    }
}

/// The first index at or after `i` below `e` where `t` is not whitespace.
pub open spec fn skip_ws(t: Text, i: nat, e: nat) -> nat
    decreases e - i,
{
    if i < e && e <= t.len() && whitespace(t[i as int]) {
        skip_ws(t, i + 1, e)
    } else {
        i
    }
}

/// The last index (exclusive) at or before `e` above `b` where `t` is not whitespace.
pub open spec fn back_ws(t: Text, b: nat, e: nat) -> nat
    decreases e,
{
    if b < e && e <= t.len() && whitespace(t[e - 1]) {
        back_ws(t, b, (e - 1) as nat)
    } else {
        e
    }
}

/// `t` without whitespace at either end.
pub open spec fn trim(t: Text) -> Text {
    let b = skip_ws(t, 0, t.len());
    t.subrange(b as int, back_ws(t, b, t.len()) as int)
}

/// The first index of a character satisfying `=` (when `eq`) or whitespace.
pub open spec fn first_split(t: Text, i: nat, eq: bool) -> Option<nat>
    decreases t.len() - i,
{
    if i >= t.len() {
        None
    } else if (eq && t[i as int] == '=') || (!eq && whitespace(t[i as int])) {
        Some(i)
    } else {
        first_split(t, i + 1, eq)
    }
}

/// The key a trimmed line assigns: the text before its first `=`, or else
/// before its first whitespace, trimmed; `None` when it has neither.
pub open spec fn line_key(t: Text) -> Option<Text> {
    match first_split(t, 0, true) {
        Some(k) => Some(trim(t.take(k as int))),
        None => match first_split(t, 0, false) {
            Some(k) => Some(trim(t.take(k as int))),
            None => None,
        },
    }
}

/// `t` without the `:` characters at its end.
pub open spec fn strip_colons(t: Text) -> Text
    decreases t.len(),
{
    if t.len() > 0 && t.last() == ':' {
        strip_colons(t.drop_last())
    } else {
        t
    }
}

/// The text after the last `.` of a path.
pub open spec fn last_segment(p: Text) -> Text {
    match last_dot(p, p.len()) {
        Some(k) => p.skip(k as int + 1),
        None => p,
    }
}

pub open spec fn end_word() -> Text {
    seq!['e', 'n', 'd']
}

/// What one trimmed line does: finds the path (line `idx + 1`), or changes
/// the blocks the following lines are inside.
pub open spec fn line_step(t: Text, scope: Seq<Text>, path: Text, idx: nat) -> (Option<(nat, Text)>, Seq<Text>) {
    if t.len() == 0 || t[0] == '#' {
        (None, scope)
    } else if t.last() == ':' && t[0] != '@' {
        (None, scope.push(trim(strip_colons(t))))
    } else if t == end_word() {
        (None, if scope.len() > 0 { scope.drop_last() } else { scope })
    } else if t[0] == '@' {
        (None, scope)
    } else {
        match line_key(t) {
            Some(k) => if join_dots(scope.push(k)) == path || k == last_segment(path) {
                (Some((idx + 1, t)), scope)
            } else {
                (None, scope)
            },
            None => (None, scope),
        }
    }
}

/// From the line that starts at `start` (numbered `idx` from 0), inside the
/// blocks `scope`: the number (from 1) and trimmed text of the first line
/// that assigns `path` in full, or assigns its last segment. Blank lines,
/// comments and `@` lines are skipped; `name:` opens a block and `end`
/// closes one.
pub open spec fn find_line(s: Text, start: nat, idx: nat, scope: Seq<Text>, path: Text) -> Option<(nat, Text)>
    decreases s.len() - start,
{
    if start >= s.len() {
        None
    } else {
        let e = line_end(s, start);
        let (found, scope2) = line_step(trim(s.subrange(start as int, e as int)), scope, path, idx);
        match found {
            Some(x) => Some(x),
            None => if start <= e && e < s.len() {
                find_line(s, e + 1, idx + 1, scope2, path)
            } else {
                None
            },
        }
    }
}

proof fn lemma_line_end_bounds(s: Text, i: nat)
    ensures
        i <= line_end(s, i),
        i <= s.len() ==> line_end(s, i) <= s.len(),
    decreases s.len() - i,
{
    if i < s.len() && s[i as int] != '\n' {
        lemma_line_end_bounds(s, i + 1);
    }
}

pub(crate) fn scan_line_end(cs: &Vec<char>, i: usize) -> (r: usize)
    requires
        i <= cs.len(),
    ensures
        r == line_end(cs@, i as nat),
        i <= r <= cs.len(),
{
    let mut j = i;
    while j < cs.len() && cs[j] != '\n'
        invariant
            i <= j <= cs.len(),
            line_end(cs@, j as nat) == line_end(cs@, i as nat),
        decreases cs.len() - j,
    {
        j += 1;
    }
    j
}

pub(crate) fn copy_range(t: &Vec<char>, b: usize, e: usize) -> (r: Vec<char>)
    requires
        b <= e <= t.len(),
    ensures
        r@ == t@.subrange(b as int, e as int),
{
    let mut out: Vec<char> = Vec::new();
    let mut k = b;
    while k < e
        invariant
            b <= k <= e <= t.len(),
            out@ == t@.subrange(b as int, k as int),
        decreases e - k,
    {
        out.push(t[k]);
        k += 1;
        assert(out@ =~= t@.subrange(b as int, k as int));
    }
    out
}

/// `t` without whitespace at either end.
pub(crate) fn trim_chars(t: &Vec<char>) -> (r: Vec<char>)
    ensures
        r@ == trim(t@),
{
    let n = t.len();
    let mut b: usize = 0;
    while b < n && is_whitespace(t[b])
        invariant
            b <= n == t.len(),
            skip_ws(t@, b as nat, n as nat) == skip_ws(t@, 0, n as nat),
        decreases n - b,
    {
        b += 1;
    }
    let mut e: usize = n;
    while b < e && is_whitespace(t[e - 1])
        invariant
            b <= e <= n == t.len(),
            back_ws(t@, b as nat, e as nat) == back_ws(t@, b as nat, n as nat),
        decreases e,
    {
        e -= 1;
    }
    copy_range(t, b, e)
}

pub(crate) fn first_split_at(t: &Vec<char>, eq: bool) -> (r: Option<usize>)
    ensures
        match first_split(t@, 0, eq) {
            Some(k) => r == Some(k as usize) && k < t.len(),
            None => r is None,
        },
{
    let mut i: usize = 0;
    while i < t.len()
        invariant
            i <= t.len(),
            first_split(t@, i as nat, eq) == first_split(t@, 0, eq),
        decreases t.len() - i,
    {
        if (eq && t[i] == '=') || (!eq && is_whitespace(t[i])) {
            return Some(i);
        }
        i += 1;
    }
    None
}

fn key_of_line(t: &Vec<char>) -> (r: Option<Vec<char>>)
    ensures
        match line_key(t@) {
            Some(k) => r is Some && r->0@ == k,
            None => r is None,
        },
{
    let at = match first_split_at(t, true) {
        Some(k) => Some(k),
        None => first_split_at(t, false),
    };
    match at {
        Some(k) => {
            let head = copy_range(t, 0, k);
            assert(head@ =~= t@.take(k as int));
            Some(trim_chars(&head))
        },
        None => None,
    }
}

fn strip_colons_chars(t: &Vec<char>) -> (r: Vec<char>)
    ensures
        r@ == strip_colons(t@),
{
    let mut e = t.len();
    assert(t@.take(e as int) =~= t@);
    while e > 0 && t[e - 1] == ':'
        invariant
            e <= t.len(),
            strip_colons(t@.take(e as int)) == strip_colons(t@),
        decreases e,
    {
        assert(t@.take(e as int).drop_last() =~= t@.take(e - 1));
        e -= 1;
    }
    let r = copy_range(t, 0, e);
    assert(r@ =~= t@.take(e as int));
    r
}

fn last_segment_chars(p: &Vec<char>) -> (r: Vec<char>)
    ensures
        r@ == last_segment(p@),
{
    let n = p.len();
    let mut d = n;
    while d > 0 && p[d - 1] != '.'
        invariant
            d <= n == p.len(),
            last_dot(p@, d as nat) == last_dot(p@, n as nat),
        decreases d,
    {
        d -= 1;
    }
    if d > 0 {
        let r = copy_range(p, d, n);
        assert(r@ =~= p@.skip(d as int));
        r
    } else {
        let r = copy_range(p, 0, n);
        assert(r@ =~= p@);
        r
    }
}

fn same(a: &Vec<char>, b: &Vec<char>) -> (r: bool)
    ensures
        r == (a@ == b@),
{
    crate::text::same_chars(a.as_slice(), b.as_slice())
}

/// The number (from 1) and trimmed text of the line of `raw_content` that
/// defines `key`, or `(0, "<key not found>")`.
#[verifier::loop_isolation(false)]
pub fn find_config_line(key: &str, raw_content: &str) -> (r: (usize, String))
    requires
        raw_content@.len() < usize::MAX,
    ensures
        match find_line(raw_content@, 0, 0, Seq::empty(), key@) {
            Some((n, t)) => r.0 == n && r.1@ == t,
            None => r.0 == 0 && r.1@ == "<key not found>"@,
        },
{
    let s = chars_of(raw_content);
    let path = chars_of(key);
    let last = last_segment_chars(&path);
    let mut scope: Vec<String> = Vec::new();
    let mut start: usize = 0;
    let mut idx: usize = 0;
    assert(crate::ast::texts(scope@) =~= Seq::<Text>::empty());
    while start < s.len()
        invariant
            start <= s.len() < usize::MAX,
            idx <= start,
            find_line(s@, start as nat, idx as nat, crate::ast::texts(scope@), path@) == find_line(
                s@,
                0,
                0,
                Seq::empty(),
                path@,
            ),
        decreases s.len() - start,
    {
        let e = scan_line_end(&s, start);
        let line = copy_range(&s, start, e);
        let t = trim_chars(&line);
        let ghost sc = crate::ast::texts(scope@);
        let n = t.len();
        if n == 0 || t[0] == '#' {
        } else if t[n - 1] == ':' && t[0] != '@' {
            let name = trim_chars(&strip_colons_chars(&t));
            let name = string_of(&name);
            proof {
                crate::ast::lemma_texts_push(scope@, name);
            }
            scope.push(name);
        } else if n == 3 && t[0] == 'e' && t[1] == 'n' && t[2] == 'd' {
            assert(t@ =~= end_word());
            if scope.len() > 0 {
                let ghost before = scope@;
                scope.pop();
                assert(crate::ast::texts(scope@) =~= crate::ast::texts(before).drop_last());
            }
        } else if t[0] == '@' {
        } else {
            if n == 3 {
                assert(t@ != end_word());
            }
            match key_of_line(&t) {
                Some(k) => {
                    let mut full_scope: Vec<String> = Vec::new();
                    let mut q: usize = 0;
                    while q < scope.len()
                        invariant
                            q <= scope.len(),
                            crate::ast::texts(full_scope@) == crate::ast::texts(scope@).take(q as int),
                        decreases scope.len() - q,
                    {
                        proof {
                            crate::ast::lemma_texts_push(full_scope@, scope@[q as int]);
                        }
                        full_scope.push(scope[q].clone());
                        q += 1;
                        assert(crate::ast::texts(scope@).take(q as int) =~= crate::ast::texts(scope@).take(q - 1).push(
                            scope@[q - 1]@,
                        ));
                    }
                    let kname = string_of(&k);
                    proof {
                        crate::ast::lemma_texts_push(full_scope@, kname);
                        assert(crate::ast::texts(scope@).take(scope.len() as int) =~= crate::ast::texts(scope@));
                    }
                    full_scope.push(kname);
                    let joined = crate::resolver::join_path(&full_scope);
                    if same(&joined, &path) || same(&k, &last) {
                        return ((idx + 1) as usize, string_of(&t));
                    }
                },
                None => {},
            }
        }
        proof {
            lemma_line_end_bounds(s@, start as nat);
        }
        if e >= s.len() {
            break;
        }
        start = e + 1;
        idx = idx + 1;
    }
    proof {
        reveal_strlit("<key not found>");
    }
    (0, "<key not found>".to_string())
}

proof fn lemma_found_line_positive(s: Text, start: nat, idx: nat, scope: Seq<Text>, path: Text)
    ensures
        find_line(s, start, idx, scope, path) matches Some((n, _)) ==> n >= idx + 1,
    decreases s.len() - start,
{
    if start < s.len() {
        let e = line_end(s, start);
        let (found, scope2) = line_step(trim(s.subrange(start as int, e as int)), scope, path, idx);
        if found is None && start <= e && e < s.len() {
            lemma_found_line_positive(s, e + 1, idx + 1, scope2, path);
        }
    }
}

/// Whether `path` can be found in the text, as `find_config_line` looks.
pub fn path_exists_in_content(path: &str, raw_content: &str) -> (r: bool)
    requires
        raw_content@.len() < usize::MAX,
    ensures
        r == find_line(raw_content@, 0, 0, Seq::empty(), path@) is Some,
{
    let (line, _) = find_config_line(path, raw_content);
    proof {
        lemma_found_line_positive(raw_content@, 0, 0, Seq::empty(), path@);
    }
    line > 0
}

/// The line `find_config_line` gives for `path`, 0 when none.
pub open spec fn found_line(raw: Text, path: Text) -> nat {
    match find_line(raw, 0, 0, Seq::empty(), path) {
        Some((n, _)) => n,
        None => 0,
    }
}

/// The message of an error pointed at the line that defines `path`: the
/// message, then a new line, an arrow and that line's text; unchanged when
/// no line is found.
pub open spec fn message_with_line(message: Text, raw: Text, path: Text) -> Text {
    match find_line(raw, 0, 0, Seq::empty(), path) {
        Some((_, t)) => message + "\n  → "@ + t,
        None => message,
    }
}

/// Point a type or validation error at the line that defines `path`, with
/// that line's text after the message; other errors are returned as they are.
pub fn enhance_error_with_line_info(e: RuneError, path: &str, raw_content: &str) -> (r: RuneError)
    requires
        raw_content@.len() < usize::MAX,
    ensures
        match e {
            RuneError::TypeError { code, message, hint, .. } => r.fault() == crate::error::fault(
                crate::error::ErrorKind::Type,
                crate::error::code_or_zero(code),
                found_line(raw_content@, path@),
                0,
            ) && (r matches RuneError::TypeError { message: m2, hint: h2, .. } && m2@ == message_with_line(
                message@,
                raw_content@,
                path@,
            ) && h2 == hint),
            RuneError::ValidationError { code, message, hint, .. } => r.fault() == crate::error::fault(
                crate::error::ErrorKind::Validation,
                crate::error::code_or_zero(code),
                found_line(raw_content@, path@),
                0,
            ) && (r matches RuneError::ValidationError { message: m2, hint: h2, .. } && m2@ == message_with_line(
                message@,
                raw_content@,
                path@,
            ) && h2 == hint),
            _ => r == e,
        },
{
    match e {
        RuneError::TypeError { message, hint, code, .. } => {
            let (line, snippet) = find_config_line(path, raw_content);
            proof {
                lemma_found_line_positive(raw_content@, 0, 0, Seq::empty(), path@);
            }
            if line > 0 {
                RuneError::TypeError { message: with_snippet(&message, &snippet), line, column: 0, hint, code }
            } else {
                RuneError::TypeError { message, line: 0, column: 0, hint, code }
            }
        },
        RuneError::ValidationError { message, hint, code, .. } => {
            let (line, snippet) = find_config_line(path, raw_content);
            proof {
                lemma_found_line_positive(raw_content@, 0, 0, Seq::empty(), path@);
            }
            if line > 0 {
                RuneError::ValidationError { message: with_snippet(&message, &snippet), line, column: 0, hint, code }
            } else {
                RuneError::ValidationError { message, line: 0, column: 0, hint, code }
            }
        },
        other => other,
    }
}

fn with_snippet(message: &String, snippet: &String) -> (r: String)
    ensures
        r@ == message@ + "\n  → "@ + snippet@,
{
    let mut out: Vec<char> = Vec::new();
    crate::text::push_str(&mut out, message.as_str());
    crate::text::push_str(&mut out, "\n  → ");
    crate::text::push_str(&mut out, snippet.as_str());
    string_of(&out)
}

impl crate::config::RuneConfig {
    /// Whether `path` can be found in the text the configuration was parsed
    /// from, as `find_config_line` looks.
    pub fn path_exists_in_content(&self, path: &str) -> (r: bool)
        requires
            self.raw_content@.len() < usize::MAX,
        ensures
            r == (found_line(self.raw_content@, path@) > 0),
    {
        let (line, _) = find_config_line(path, self.raw_content.as_str());
        proof {
            lemma_found_line_positive(self.raw_content@, 0, 0, Seq::empty(), path@);
        }
        line > 0
    }
}

} // verus!
