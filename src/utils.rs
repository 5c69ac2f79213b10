//! Human-readable forms of durations and sizes, used for `$sys` values.
use vstd::prelude::*;
use crate::text::string_of;

verus! {

/// The decimal digits of `n`.
pub open spec fn decimal(n: nat) -> Seq<char>
    decreases n,
{
    if n < 10 {
        seq![digit_char(n)]
    } else {
        decimal(n / 10) + seq![digit_char(n % 10)]
    }
}

pub open spec fn digit_char(d: nat) -> char {
    let e = d % 10;
    if e == 0 {
        '0'
    } else if e == 1 {
        '1'
    } else if e == 2 {
        '2'
    } else if e == 3 {
        '3'
    } else if e == 4 {
        '4'
    } else if e == 5 {
        '5'
    } else if e == 6 {
        '6'
    } else if e == 7 {
        '7'
    } else if e == 8 {
        '8'
    } else {
        '9'
    }
}

/// `s` when `n` is not 1, nothing otherwise.
pub open spec fn plural(n: nat) -> Seq<char> {
    if n != 1 {
        seq!['s']
    } else {
        Seq::empty()
    }
}

/// `"<n> sec(s)"` under a minute, `"<m> min(s)"` under an hour, and
/// `"<h> hr(s), <m> min(s)"` from an hour on.
pub open spec fn uptime_text(s: nat) -> Seq<char> {
    if s < 60 {
        decimal(s) + seq![' ', 's', 'e', 'c'] + plural(s)
    } else if s < 3600 {
        decimal(s / 60) + seq![' ', 'm', 'i', 'n'] + plural(s / 60)
    } else {
        let h = s / 3600;
        let m = (s % 3600) / 60;
        decimal(h) + seq![' ', 'h', 'r'] + plural(h) + seq![',', ' '] + decimal(m) + seq![' ', 'm', 'i', 'n']
            + plural(m)
    }
}

/// `b / unit` in hundredths, rounded to the nearest, ties to even.
pub open spec fn hundredths(b: nat, unit: nat) -> nat
    recommends
        unit > 0,
{
    let q = (b * 100) / unit;
    let r = (b * 100) % unit;
    if 2 * r > unit || (2 * r == unit && q % 2 == 1) {
        q + 1
    } else {
        q
    }
}

/// A number of hundredths written with two decimals.
pub open spec fn two_decimals(h: nat) -> Seq<char> {
    decimal(h / 100) + seq!['.', digit_char((h % 100) / 10), digit_char(h % 10)]
}

pub open spec fn bytes_text(b: nat) -> Seq<char> {
    let kb: nat = 1024;
    let mb: nat = kb * 1024;
    let gb: nat = mb * 1024;
    let tb: nat = gb * 1024;
    if b >= tb {
        two_decimals(hundredths(b, tb)) + seq![' ', 'T', 'B']
    } else if b >= gb {
        two_decimals(hundredths(b, gb)) + seq![' ', 'G', 'B']
    } else if b >= mb {
        two_decimals(hundredths(b, mb)) + seq![' ', 'M', 'B']
    } else if b >= kb {
        two_decimals(hundredths(b, kb)) + seq![' ', 'K', 'B']
    } else {
        decimal(b) + seq![' ', 'B']
    }
}

fn digit(d: u128) -> (r: char)
    requires
        d < 10,
    ensures
        r == digit_char(d as nat),
{
    if d == 0 {
        '0'
    } else if d == 1 {
        '1'
    } else if d == 2 {
        '2'
    } else if d == 3 {
        '3'
    } else if d == 4 {
        '4'
    } else if d == 5 {
        '5'
    } else if d == 6 {
        '6'
    } else if d == 7 {
        '7'
    } else if d == 8 {
        '8'
    } else {
        '9'
    }
}

/// Append the decimal digits of `n`.
pub fn push_decimal(out: &mut Vec<char>, n: u128)
    ensures
        final(out)@ == old(out)@ + decimal(n as nat),
    decreases n,
{
    if n >= 10 {
        push_decimal(out, n / 10);
        let ghost mid = out@;
        out.push(digit(n % 10));
        assert(out@ =~= old(out)@ + (decimal(n as nat / 10) + seq![digit_char(n as nat % 10)]));
    } else {
        out.push(digit(n));
        assert(out@ =~= old(out)@ + decimal(n as nat));
    }
}

fn push_all(out: &mut Vec<char>, s: &[char])
    ensures
        final(out)@ == old(out)@ + s@,
{
    let mut i: usize = 0;
    while i < s.len()
        invariant
            i <= s.len(),
            out@ == old(out)@ + s@.take(i as int),
        decreases s.len() - i,
    {
        out.push(s[i]);
        i += 1;
        assert(out@ =~= old(out)@ + s@.take(i as int));
    }
    assert(s@.take(s.len() as int) =~= s@);
}

fn push_plural(out: &mut Vec<char>, n: u128)
    ensures
        final(out)@ == old(out)@ + plural(n as nat),
{
    if n != 1 {
        out.push('s');
        assert(out@ =~= old(out)@ + seq!['s']);
    } else {
        assert(out@ =~= old(out)@ + Seq::<char>::empty());
    }
}

/// A duration in seconds, as seconds, minutes, or hours and minutes.
pub fn format_uptime(seconds: u64) -> (r: String)
    ensures
        r@ == uptime_text(seconds as nat),
{
    let s = seconds as u128;
    let mut out: Vec<char> = Vec::new();
    if s < 60 {
        push_decimal(&mut out, s);
        let w = [' ', 's', 'e', 'c'];
        push_all(&mut out, &w);
        push_plural(&mut out, s);
        assert(w@ == seq![' ', 's', 'e', 'c']);
    } else if s < 3600 {
        push_decimal(&mut out, s / 60);
        let w = [' ', 'm', 'i', 'n'];
        push_all(&mut out, &w);
        push_plural(&mut out, s / 60);
        assert(w@ == seq![' ', 'm', 'i', 'n']);
    } else {
        let h = s / 3600;
        let m = (s % 3600) / 60;
        push_decimal(&mut out, h);
        let w1 = [' ', 'h', 'r'];
        push_all(&mut out, &w1);
        push_plural(&mut out, h);
        let w2 = [',', ' '];
        push_all(&mut out, &w2);
        push_decimal(&mut out, m);
        let w3 = [' ', 'm', 'i', 'n'];
        push_all(&mut out, &w3);
        push_plural(&mut out, m);
        assert(w1@ == seq![' ', 'h', 'r']);
        assert(w2@ == seq![',', ' ']);
        assert(w3@ == seq![' ', 'm', 'i', 'n']);
    }
    assert(out@ =~= uptime_text(seconds as nat));
    string_of(&out)
}

fn hundredths_of(b: u128, unit: u128) -> (r: u128)
    requires
        0 < unit,
        b <= u64::MAX,
        unit <= 1099511627776,
    ensures
        r == hundredths(b as nat, unit as nat),
{
    let q = (b * 100) / unit;
    let r = (b * 100) % unit;
    if 2 * r > unit || (2 * r == unit && q % 2 == 1) {
        q + 1
    } else {
        q
    }
}

fn push_two_decimals(out: &mut Vec<char>, h: u128)
    ensures
        final(out)@ == old(out)@ + two_decimals(h as nat),
{
    push_decimal(out, h / 100);
    out.push('.');
    out.push(digit((h % 100) / 10));
    out.push(digit(h % 10));
    assert(out@ =~= old(out)@ + two_decimals(h as nat));
}

/// A size in bytes, in the largest of B, KB, MB, GB and TB (powers of
/// 1024) that it reaches, with two decimals above B.
pub fn format_bytes(bytes: u64) -> (r: String)
    ensures
        r@ == bytes_text(bytes as nat),
{
    let b = bytes as u128;
    let kb: u128 = 1024;
    let mb: u128 = kb * 1024;
    let gb: u128 = mb * 1024;
    let tb: u128 = gb * 1024;
    let mut out: Vec<char> = Vec::new();
    if b >= tb {
        push_two_decimals(&mut out, hundredths_of(b, tb));
        let w = [' ', 'T', 'B'];
        push_all(&mut out, &w);
        assert(w@ == seq![' ', 'T', 'B']);
    } else if b >= gb {
        push_two_decimals(&mut out, hundredths_of(b, gb));
        let w = [' ', 'G', 'B'];
        push_all(&mut out, &w);
        assert(w@ == seq![' ', 'G', 'B']);
    } else if b >= mb {
        push_two_decimals(&mut out, hundredths_of(b, mb));
        let w = [' ', 'M', 'B'];
        push_all(&mut out, &w);
        assert(w@ == seq![' ', 'M', 'B']);
    } else if b >= kb {
        push_two_decimals(&mut out, hundredths_of(b, kb));
        let w = [' ', 'K', 'B'];
        push_all(&mut out, &w);
        assert(w@ == seq![' ', 'K', 'B']);
    } else {
        push_decimal(&mut out, b);
        let w = [' ', 'B'];
        push_all(&mut out, &w);
        assert(w@ == seq![' ', 'B']);
    }
    assert(out@ =~= bytes_text(bytes as nat));
    string_of(&out)
}

} // verus!
