//! Turning resolved values into the types callers ask for.
use vstd::prelude::*;
use vstd::string::*;
use crate::ast::{Text, VModel, Value};
use crate::error::{fault, ErrorKind, RuneError};
use crate::number::{digits_value, Number};

verus! {

pub open spec fn fraction_is_zero(f: Seq<u8>) -> bool {
    forall|i: int| 0 <= i < f.len() ==> #[trigger] f[i] == 0
}

/// Whether the number `w.f` is at most `max`.
pub open spec fn at_most(w: Seq<u8>, f: Seq<u8>, max: nat) -> bool {
    digits_value(w) < max || (digits_value(w) == max && fraction_is_zero(f))
}

pub open spec fn type_fault(code: u32) -> crate::error::Fault {
    fault(ErrorKind::Type, code, 0, 0)
}

/// What converting a number to an unsigned integer type with largest value
/// `max` gives: its whole part when it is in range, the error `code` when it
/// is not, and error 402 for a value that is not a number.
pub open spec fn unsigned_result(v: VModel, max: nat, code: u32, r: Result<nat, crate::error::Fault>) -> bool {
    match v {
        VModel::Num(w, f) => if at_most(w, f, max) {
            r == Ok::<nat, crate::error::Fault>(digits_value(w))
        } else {
            r == Err::<nat, crate::error::Fault>(type_fault(code))
        },
        _ => r == Err::<nat, crate::error::Fault>(type_fault(402)),
    }
}

pub open spec fn as_nat_result<T>(r: Result<T, RuneError>, f: spec_fn(T) -> nat) -> Result<nat, crate::error::Fault> {
    match r {
        Ok(x) => Ok(f(x)),
        Err(e) => Err(e.fault()),
    }
}

/// A type that a resolved value can be converted to.
pub trait FromValue: Sized {
    /// Whether `r` is what converting a value with model `v` gives.
    spec fn converts(v: VModel, r: Result<Self, RuneError>) -> bool;

    fn from_value(v: Value) -> (r: Result<Self, RuneError>)
        ensures
            Self::converts(v.model(), r),
    ;

    /// A value that converts to something does not also fail to convert.
    proof fn lemma_ok_excludes_err(m: VModel, x: Self, e: RuneError)
        requires
            Self::converts(m, Ok(x)),
        ensures
            !Self::converts(m, Err(e)),
    ;
}

proof fn lemma_prefix_value(ds: Seq<u8>, j: int)
    requires
        0 <= j <= ds.len(),
    ensures
        digits_value(ds.take(j)) <= digits_value(ds),
    decreases ds.len() - j,
{
    if j < ds.len() {
        lemma_prefix_value(ds, j + 1);
        assert(ds.take(j + 1).drop_last() =~= ds.take(j));
    } else {
        assert(ds.take(j) =~= ds);
    }
}

/// The whole part of a number, when it is at most `max`.
fn whole_at_most(n: &Number, max: u64) -> (r: Option<u64>)
    ensures
        r is Some <==> digits_value(n.whole@) <= max,
        r is Some ==> r->0 == digits_value(n.whole@),
{
    let mut acc: u64 = 0;
    let mut i: usize = 0;
    assert(n.whole@.take(0) =~= Seq::<u8>::empty());
    while i < n.whole.len()
        invariant
            i <= n.whole.len(),
            acc == digits_value(n.whole@.take(i as int)),
            acc <= max,
        decreases n.whole.len() - i,
    {
        let d = n.whole[i] as u64;
        assert(n.whole@.take(i + 1).drop_last() =~= n.whole@.take(i as int));
        if d > max || acc > (max - d) / 10 {
            proof {
                assert(digits_value(n.whole@.take(i + 1)) == acc * 10 + d);
                assert(acc * 10 + d > max) by (nonlinear_arith)
                    requires
                        d > max || acc > (max - d) / 10,
                        d <= max ==> (max - d) / 10 * 10 <= max - d,
                ;
                lemma_prefix_value(n.whole@, i + 1);
            }
            return None;
        }
        assert(acc * 10 + d <= max) by (nonlinear_arith)
            requires
                acc <= (max - d) / 10,
                d <= max,
        ;
        acc = acc * 10 + d;
        i += 1;
    }
    assert(n.whole@.take(i as int) =~= n.whole@);
    Some(acc)
}

fn fraction_zero(n: &Number) -> (r: bool)
    ensures
        r == fraction_is_zero(n.fraction@),
{
    let mut i: usize = 0;
    while i < n.fraction.len()
        invariant
            i <= n.fraction.len(),
            forall|k: int| 0 <= k < i ==> n.fraction@[k] == 0,
        decreases n.fraction.len() - i,
    {
        if n.fraction[i] != 0 {
            return false;
        }
        i += 1;
    }
    true
}

/// The whole part of the number in `v` when it is at most `max`; error
/// `code` when it is larger, 402 when `v` is not a number.
pub fn to_unsigned(v: &Value, max: u64, code: u32) -> (r: Result<u64, RuneError>)
    ensures
        unsigned_result(v.model(), max as nat, code, as_nat_result(r, |x: u64| x as nat)),
{
    match v {
        Value::Number(n) => match whole_at_most(n, max) {
            Some(w) => {
                if w < max || fraction_zero(n) {
                    Ok(w)
                } else {
                    Err(RuneError::type_error("Number out of range".to_string(), 0, 0, None, code))
                }
            },
            None => Err(RuneError::type_error("Number out of range".to_string(), 0, 0, None, code)),
        },
        _ => Err(
            RuneError::type_error("Expected number".to_string(), 0, 0, Some("Use a number value in your config"), 402),
        ),
    }
}

impl FromValue for u8 {
    open spec fn converts(v: VModel, r: Result<u8, RuneError>) -> bool {
        unsigned_result(v, 255, 407, as_nat_result(r, |x: u8| x as nat))
    }

    fn from_value(v: Value) -> (r: Result<u8, RuneError>) {
        match to_unsigned(&v, 255, 407) {
            Ok(x) => Ok(x as u8),
            Err(e) => Err(e),
        }
    }

    proof fn lemma_ok_excludes_err(m: VModel, x: Self, e: RuneError) {
    }
}

impl FromValue for u16 {
    open spec fn converts(v: VModel, r: Result<u16, RuneError>) -> bool {
        unsigned_result(v, 65535, 403, as_nat_result(r, |x: u16| x as nat))
    }

    fn from_value(v: Value) -> (r: Result<u16, RuneError>) {
        match to_unsigned(&v, 65535, 403) {
            Ok(x) => Ok(x as u16),
            Err(e) => Err(e),
        }
    }

    proof fn lemma_ok_excludes_err(m: VModel, x: Self, e: RuneError) {
    }
}

impl FromValue for u64 {
    open spec fn converts(v: VModel, r: Result<u64, RuneError>) -> bool {
        unsigned_result(v, u64::MAX as nat, 406, as_nat_result(r, |x: u64| x as nat))
    }

    fn from_value(v: Value) -> (r: Result<u64, RuneError>) {
        to_unsigned(&v, u64::MAX, 406)
    }

    proof fn lemma_ok_excludes_err(m: VModel, x: Self, e: RuneError) {
    }
}

impl FromValue for i32 {
    /// The whole part, saturated at `i32::MAX`.
    open spec fn converts(v: VModel, r: Result<i32, RuneError>) -> bool {
        match v {
            VModel::Num(w, _) => r is Ok && r->Ok_0 as nat == if digits_value(w) <= i32::MAX as nat {
                digits_value(w)
            } else {
                i32::MAX as nat
            },
            _ => r is Err && r->Err_0.fault() == type_fault(402),
        }
    }

    fn from_value(v: Value) -> (r: Result<i32, RuneError>) {
        match &v {
            Value::Number(n) => match whole_at_most(n, 2147483647) {
                Some(w) => Ok(w as i32),
                None => Ok(i32::MAX),
            },
            _ => Err(
                RuneError::type_error("Expected number".to_string(), 0, 0, Some("Use a number value in your config"), 402),
            ),
        }
    }

    proof fn lemma_ok_excludes_err(m: VModel, x: Self, e: RuneError) {
    }
}

/// Whether a lower-cased name looks like a misspelt `true` or `false`.
pub open spec fn looks_boolean(lowered: Text) -> bool {
    lowered.len() >= 3 && (lowered.take(3) == seq!['t', 'r', 'u'] || lowered.take(3) == seq!['f', 'a', 'l'])
}

/// The message for a reference that looks like a misspelt boolean.
pub open spec fn did_you_mean(name: Text) -> Text {
    "Invalid boolean value '"@ + name + "'. Did you mean 'true' or 'false'?"@
}

/// Whether a lower-cased name starts with `tru` or `fal`.
pub fn looks_like_boolean(lowered: &String) -> (r: bool)
    ensures
        r == looks_boolean(lowered@),
{
    let cs = crate::text::chars_of(lowered.as_str());
    if cs.len() < 3 {
        return false;
    }
    let r = (cs[0] == 't' && cs[1] == 'r' && cs[2] == 'u') || (cs[0] == 'f' && cs[1] == 'a' && cs[2] == 'l');
    assert(cs@.take(3) =~= seq![cs@[0], cs@[1], cs@[2]]);
    r
}

impl FromValue for bool {
    /// `true` and `false` as they are; for a one-segment reference whose
    /// lower-cased name starts with `tru` or `fal`, error 404 asking whether
    /// `true` or `false` was meant; error 404 for anything else.
    open spec fn converts(v: VModel, r: Result<bool, RuneError>) -> bool {
        match v {
            VModel::Bool(b) => r == Ok::<bool, RuneError>(b),
            VModel::Reference(p) => if p.len() == 1 && looks_boolean(crate::text::lower_of(p[0])) {
                r is Err && r->Err_0.fault() == type_fault(404) && (r->Err_0 matches RuneError::TypeError {
                    message: m,
                    ..
                } && m@ == did_you_mean(p[0]))
            } else {
                r is Err && r->Err_0.fault() == type_fault(404)
            },
            _ => r is Err && r->Err_0.fault() == type_fault(404),
        }
    }

    fn from_value(v: Value) -> (r: Result<bool, RuneError>) {
        match v {
            Value::Bool(b) => Ok(b),
            Value::Reference(p) => {
                proof {
                    assert(crate::ast::texts(p@).len() == p@.len());
                }
                if p.len() == 1 && looks_like_boolean(&crate::text::lowercase(p[0].as_str())) {
                    assert(crate::ast::texts(p@)[0] == p@[0]@);
                    let mut m: Vec<char> = Vec::new();
                    crate::text::push_str(&mut m, "Invalid boolean value '");
                    crate::text::push_str(&mut m, p[0].as_str());
                    crate::text::push_str(&mut m, "'. Did you mean 'true' or 'false'?");
                    Err(RuneError::type_error(crate::text::string_of(&m), 0, 0, None, 404))
                } else {
                    Err(RuneError::type_error("Expected boolean (true/false)".to_string(), 0, 0, None, 404))
                }
            },
            _ => Err(RuneError::type_error("Expected boolean".to_string(), 0, 0, None, 404)),
        }
    }

    proof fn lemma_ok_excludes_err(m: VModel, x: Self, e: RuneError) {
    }
}

impl FromValue for String {
    open spec fn converts(v: VModel, r: Result<String, RuneError>) -> bool {
        match v {
            VModel::Str(s) => r is Ok && r->Ok_0@ == s,
            _ => r is Err && r->Err_0.fault() == type_fault(401),
        }
    }

    fn from_value(v: Value) -> (r: Result<String, RuneError>) {
        match v {
            Value::String(s) => Ok(s),
            _ => Err(
                RuneError::type_error("Expected string".to_string(), 0, 0, Some("Use a string value in your config"), 401),
            ),
        }
    }

    proof fn lemma_ok_excludes_err(m: VModel, x: Self, e: RuneError) {
    }
}

/// Some element of `s` fails to convert with `e`, and every element before
/// it converts.
pub open spec fn element_fails<T: FromValue>(s: Seq<VModel>, e: RuneError) -> bool {
    exists|i: int|
        0 <= i < s.len() && #[trigger] T::converts(s[i], Err(e)) && forall|k: int|
            0 <= k < i ==> #[trigger] element_converts::<T>(s[k])
}

/// Some value of `T` is what `m` converts to.
pub open spec fn element_converts<T: FromValue>(m: VModel) -> bool {
    exists|x: T| #[trigger] T::converts(m, Ok(x))
}

impl<T: FromValue> FromValue for Vec<T> {
    /// Each element converted in order; when one fails, its error, after
    /// elements that all convert; error 405 for a value that is not an array.
    open spec fn converts(v: VModel, r: Result<Vec<T>, RuneError>) -> bool {
        match v {
            VModel::Array(s) => match r {
                Ok(xs) => xs@.len() == s.len() && forall|i: int|
                    0 <= i < s.len() ==> T::converts(s[i], Ok(#[trigger] xs@[i])),
                Err(e) => element_fails::<T>(s, e),
            },
            _ => r is Err && r->Err_0.fault() == type_fault(405),
        }
    }

    #[verifier::loop_isolation(false)]
    fn from_value(v: Value) -> (r: Result<Vec<T>, RuneError>) {
        match v {
            Value::Array(items) => {
                let mut out: Vec<T> = Vec::new();
                let mut i: usize = 0;
                while i < items.len()
                    invariant
                        i <= items.len(),
                        out@.len() == i,
                        forall|k: int|
                            0 <= k < i ==> T::converts(#[trigger] crate::ast::values_model(items@)[k], Ok(out@[k])),
                    decreases items.len() - i,
                {
                    let x = items[i].deep_clone();
                    match T::from_value(x) {
                        Ok(y) => {
                            out.push(y);
                        },
                        Err(e) => {
                            let ghost s = crate::ast::values_model(items@);
                            assert(v.model() == VModel::Array(s));
                            assert(T::converts(s[i as int], Err(e)));
                            assert forall|k: int| 0 <= k < i implies #[trigger] element_converts::<T>(s[k]) by {
                                assert(T::converts(s[k], Ok(out@[k])));
                            }
                            assert(element_fails::<T>(s, e));
                            return Err(e);
                        },
                    }
                    i += 1;
                }
                assert(crate::ast::values_model(items@).len() == out@.len());
                Ok(out)
            },
            _ => Err(
                RuneError::type_error("Expected array".to_string(), 0, 0, Some("Use an array [...] in your config"), 405),
            ),
        }
    }

    proof fn lemma_ok_excludes_err(m: VModel, x: Self, e: RuneError) {
        match m {
            VModel::Array(s) => {
                if Self::converts(m, Err(e)) {
                    let i = choose|i: int|
                        0 <= i < s.len() && #[trigger] T::converts(s[i], Err(e)) && forall|k: int|
                            0 <= k < i ==> #[trigger] element_converts::<T>(s[k]);
                    assert(T::converts(s[i], Ok(x@[i])));
                    T::lemma_ok_excludes_err(s[i], x@[i], e);
                }
            },
            _ => {},
        }
    }
}

} // verus!
