//! A quick scan of raw text for `gather` statements, without parsing it.
use vstd::prelude::*;
use crate::ast::Text;
use crate::grammar::default_alias;
use crate::lines::{line_end, trim, whitespace};
use crate::text::{chars_of, string_of};

verus! {

/// The first index at or after `i` where `t` holds `c`.
pub open spec fn find_char(t: Text, i: nat, c: char) -> Option<nat>
    decreases t.len() - i,
{
    if i >= t.len() {
        None
    } else if t[i as int] == c {
        Some(i)
    } else {
        find_char(t, i + 1, c)
    }
}

/// The text between the quotes that `input` starts with (after blanks), for
/// `"` or `'` quotes.
pub open spec fn quoted(input: Text) -> Option<Text> {
    let u = trim(input);
    if u.len() > 0 && (u[0] == '"' || u[0] == '\'') {
        match find_char(u, 1, u[0]) {
            Some(j) => Some(u.subrange(1, j as int)),
            None => None,
        }
    } else {
        None
    }
}

pub open spec fn as_word() -> Text {
    seq![' ', 'a', 's', ' ']
}

/// The first index at or after `i` where ` as ` starts in `t`.
pub open spec fn find_as(t: Text, i: nat) -> Option<nat>
    decreases t.len() - i,
{
    if i + 4 > t.len() {
        None
    } else if t.subrange(i as int, i + 4 as int) == as_word() {
        Some(i)
    } else {
        find_as(t, i + 1)
    }
}

/// The first whitespace-free word of a trimmed text.
pub open spec fn first_word(t: Text) -> Option<Text> {
    if t.len() == 0 {
        None
    } else {
        match crate::lines::first_split(t, 0, false) {
            Some(k) => Some(t.take(k as int)),
            None => Some(t),
        }
    }
}

pub open spec fn gather_word() -> Text {
    seq!['g', 'a', 't', 'h', 'e', 'r']
}

/// The (alias, path) a trimmed line declares, if it is a `gather` line.
pub open spec fn gather_of_line(t: Text) -> Option<(Text, Text)> {
    if t.len() >= 6 && t.take(6) == gather_word() {
        let rest = trim(t.skip(6));
        match quoted(rest) {
            Some(p) => {
                let alias = match find_as(rest, 0) {
                    Some(k) => first_word(trim(rest.skip(k + 4 as int))),
                    None => None,
                };
                match alias {
                    Some(a) => Some((a, p)),
                    None => Some((default_alias(p), p)),
                }
            },
            None => None,
        }
    } else {
        None
    }
}

/// The first index at or after `i` whose key is `key`.
pub open spec fn key_index(pairs: Seq<(Text, Text)>, i: nat, key: Text) -> Option<nat>
    decreases pairs.len() - i,
{
    if i >= pairs.len() {
        None
    } else if pairs[i as int].0 == key {
        Some(i)
    } else {
        key_index(pairs, i + 1, key)
    }
}

/// `pairs` with `key` set to `value`: in place when the key is there.
pub open spec fn put(pairs: Seq<(Text, Text)>, key: Text, value: Text) -> Seq<(Text, Text)> {
    match key_index(pairs, 0, key) {
        Some(i) => pairs.update(i as int, (key, value)),
        None => pairs.push((key, value)),
    }
}

/// The `gather` lines from the line that starts at `start` on, added to `acc`.
pub open spec fn scan_gathers(s: Text, start: nat, acc: Seq<(Text, Text)>) -> Seq<(Text, Text)>
    decreases s.len() - start,
{
    if start >= s.len() {
        acc
    } else {
        let e = line_end(s, start);
        let t = trim(s.subrange(start as int, e as int));
        let acc2 = match gather_of_line(t) {
            Some((a, p)) => put(acc, a, p),
            None => acc,
        };
        if start <= e && e < s.len() {
            scan_gathers(s, e + 1, acc2)
        } else {
            acc2
        }
    }
}

fn find_char_from(t: &Vec<char>, i: usize, c: char) -> (r: Option<usize>)
    requires
        i <= t.len(),
    ensures
        match find_char(t@, i as nat, c) {
            Some(j) => r == Some(j as usize) && i <= j < t.len(),
            None => r is None,
        },
{
    let mut k = i;
    while k < t.len()
        invariant
            i <= k <= t.len(),
            find_char(t@, k as nat, c) == find_char(t@, i as nat, c),
        decreases t.len() - k,
    {
        if t[k] == c {
            return Some(k);
        }
        k += 1;
    }
    None
}

/// The text between the quotes that `input` starts with, if it does.
pub fn extract_quoted_string(input: &Vec<char>) -> (r: Option<Vec<char>>)
    ensures
        match quoted(input@) {
            Some(q) => r is Some && r->0@ == q,
            None => r is None,
        },
{
    let u = crate::lines::trim_chars(input);
    if u.len() > 0 && (u[0] == '"' || u[0] == '\'') {
        match find_char_from(&u, 1, u[0]) {
            Some(j) => Some(crate::lines::copy_range(&u, 1, j)),
            None => None,
        }
    } else {
        None
    }
}

fn find_as_from(t: &Vec<char>) -> (r: Option<usize>)
    ensures
        match find_as(t@, 0) {
            Some(k) => r == Some(k as usize) && k + 4 <= t.len(),
            None => r is None,
        },
{
    let mut i: usize = 0;
    while i <= t.len() && t.len() - i >= 4
        invariant
            i <= t.len(),
            find_as(t@, i as nat) == find_as(t@, 0),
        decreases t.len() - i,
    {
        if t[i] == ' ' && t[i + 1] == 'a' && t[i + 2] == 's' && t[i + 3] == ' ' {
            assert(t@.subrange(i as int, i + 4) =~= as_word());
            return Some(i);
        }
        assert(t@.subrange(i as int, i + 4)[0] == t@[i as int]);
        assert(t@.subrange(i as int, i + 4)[1] == t@[i + 1]);
        assert(t@.subrange(i as int, i + 4)[2] == t@[i + 2]);
        assert(t@.subrange(i as int, i + 4)[3] == t@[i + 3]);
        i += 1;
    }
    None
}

fn first_word_of(t: &Vec<char>) -> (r: Option<Vec<char>>)
    ensures
        match first_word(t@) {
            Some(w) => r is Some && r->0@ == w,
            None => r is None,
        },
{
    if t.len() == 0 {
        return None;
    }
    match crate::lines::first_split_at(t, false) {
        Some(k) => {
            let w = crate::lines::copy_range(t, 0, k);
            assert(w@ =~= t@.take(k as int));
            Some(w)
        },
        None => {
            let w = crate::lines::copy_range(t, 0, t.len());
            assert(w@ =~= t@);
            Some(w)
        },
    }
}

/// The (alias, path) that a trimmed line declares with `gather`.
fn gather_line(t: &Vec<char>) -> (r: Option<(Vec<char>, Vec<char>)>)
    ensures
        match gather_of_line(t@) {
            Some((a, p)) => r matches Some((x, y)) && x@ == a && y@ == p,
            None => r is None,
        },
{
    if !(t.len() >= 6 && t[0] == 'g' && t[1] == 'a' && t[2] == 't' && t[3] == 'h' && t[4] == 'e' && t[5] == 'r') {
        if t.len() >= 6 {
            assert(t@.take(6)[0] == t@[0]);
            assert(t@.take(6)[1] == t@[1]);
            assert(t@.take(6)[2] == t@[2]);
            assert(t@.take(6)[3] == t@[3]);
            assert(t@.take(6)[4] == t@[4]);
            assert(t@.take(6)[5] == t@[5]);
        }
        return None;
    }
    assert(t@.take(6) =~= gather_word());
    let tail = crate::lines::copy_range(t, 6, t.len());
    assert(tail@ =~= t@.skip(6));
    let rest = crate::lines::trim_chars(&tail);
    match extract_quoted_string(&rest) {
        Some(p) => {
            let alias = match find_as_from(&rest) {
                Some(k) => {
                    let after = crate::lines::copy_range(&rest, k + 4, rest.len());
                    assert(after@ =~= rest@.skip(k + 4));
                    first_word_of(&crate::lines::trim_chars(&after))
                },
                None => None,
            };
            match alias {
                Some(a) => Some((a, p)),
                None => {
                    let ps = string_of(&p);
                    let a = crate::parser::default_alias_of(&ps);
                    Some((chars_of(a.as_str()), p))
                },
            }
        },
        None => None,
    }
}

/// The `gather` statements of a text, as (alias, path), read line by line
/// without parsing: a line that starts with `gather` and a quoted path
/// declares it, under the word after ` as ` or else the file's stem. A later
/// line for the same alias replaces the path.
#[verifier::loop_isolation(false)]
pub fn parse_gather_paths(content: &str) -> (r: Vec<(String, String)>)
    ensures
        Seq::new(r@.len(), |i: int| (r@[i].0@, r@[i].1@)) == scan_gathers(content@, 0, Seq::empty()),
{
    let s = chars_of(content);
    let mut out: Vec<(String, String)> = Vec::new();
    let mut start: usize = 0;
    assert(Seq::new(out@.len(), |i: int| (out@[i].0@, out@[i].1@)) =~= Seq::<(Text, Text)>::empty());
    while start < s.len()
        invariant
            start <= s.len(),
            scan_gathers(s@, start as nat, Seq::new(out@.len(), |i: int| (out@[i].0@, out@[i].1@)))
                == scan_gathers(s@, 0, Seq::empty()),
        decreases s.len() - start,
    {
        let e = crate::lines::scan_line_end(&s, start);
        let line = crate::lines::copy_range(&s, start, e);
        let t = crate::lines::trim_chars(&line);
        match gather_line(&t) {
            Some((a, p)) => {
                let alias = string_of(&a);
                let path = string_of(&p);
                let ghost before = Seq::new(out@.len(), |i: int| (out@[i].0@, out@[i].1@));
                let mut i: usize = 0;
                let mut found = false;
                while i < out.len()
                    invariant
                        i <= out.len(),
                        before == Seq::new(out@.len(), |i: int| (out@[i].0@, out@[i].1@)),
                        key_index(before, i as nat, alias@) == key_index(before, 0, alias@),
                        !found,
                    decreases out.len() - i,
                {
                    if out[i].0 == alias {
                        found = true;
                        break;
                    }
                    i += 1;
                }
                if found {
                    out.set(i, (alias, path));
                    assert(Seq::new(out@.len(), |k: int| (out@[k].0@, out@[k].1@)) =~= put(before, a@, p@));
                } else {
                    out.push((alias, path));
                    assert(Seq::new(out@.len(), |k: int| (out@[k].0@, out@[k].1@)) =~= put(before, a@, p@));
                }
            },
            None => {},
        }
        if e >= s.len() {
            break;
        }
        start = e + 1;
    }
    out
}

} // verus!
