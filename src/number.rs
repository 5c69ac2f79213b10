//! Numbers as the lexer reads them: an exact decimal with no sign.
use vstd::prelude::*;

verus! {

/// A non-negative decimal number, kept exactly as written: the digits before
/// the point (no leading zeros) and the digits after it (no trailing zeros).
/// Two numbers are equal exactly when their values are.
#[derive(Debug, Clone, PartialEq, Eq)]
pub struct Number {
    pub whole: Vec<u8>,
    pub fraction: Vec<u8>,
}

/// The value of a run of decimal digits, most significant first.
pub open spec fn digits_value(ds: Seq<u8>) -> nat
    decreases ds.len(),
{
    if ds.len() == 0 {
        0
    } else {
        digits_value(ds.drop_last()) * 10 + ds.last() as nat
    }
}

pub open spec fn all_digits(ds: Seq<u8>) -> bool {
    forall|i: int| 0 <= i < ds.len() ==> #[trigger] ds[i] < 10
}

pub open spec fn strip_leading_zeros(ds: Seq<u8>) -> Seq<u8>
    decreases ds.len(),
{
    if ds.len() > 0 && ds[0] == 0 {
        strip_leading_zeros(ds.drop_first())
    } else {
        ds
    }
}

pub open spec fn strip_trailing_zeros(ds: Seq<u8>) -> Seq<u8>
    decreases ds.len(),
{
    if ds.len() > 0 && ds.last() == 0 {
        strip_trailing_zeros(ds.drop_last())
    } else {
        ds
    }
}

impl Number {
    /// The number with the given digits before and after the point.
    pub fn from_digits(whole: Vec<u8>, fraction: Vec<u8>) -> (r: Number)
        requires
            all_digits(whole@),
            all_digits(fraction@),
        ensures
            r.wf(),
            r.whole@ == strip_leading_zeros(whole@),
            r.fraction@ == strip_trailing_zeros(fraction@),
    {
        let mut start: usize = 0;
        assert(whole@.skip(0) =~= whole@);
        while start < whole.len() && whole[start] == 0
            invariant
                start <= whole.len(),
                strip_leading_zeros(whole@.skip(start as int)) == strip_leading_zeros(whole@),
            decreases whole.len() - start,
        {
            assert(whole@.skip(start as int).drop_first() =~= whole@.skip(start + 1));
            start += 1;
        }
        let mut end: usize = fraction.len();
        assert(fraction@.take(fraction.len() as int) =~= fraction@);
        while end > 0 && fraction[end - 1] == 0
            invariant
                end <= fraction.len(),
                strip_trailing_zeros(fraction@.take(end as int)) == strip_trailing_zeros(fraction@),
            decreases end,
        {
            assert(fraction@.take(end as int).drop_last() =~= fraction@.take(end - 1));
            end -= 1;
        }
        let mut w: Vec<u8> = Vec::new();
        let mut i: usize = start;
        while i < whole.len()
            invariant
                start <= i <= whole.len(),
                w@ == whole@.subrange(start as int, i as int),
            decreases whole.len() - i,
        {
            w.push(whole[i]);
            i += 1;
            assert(w@ =~= whole@.subrange(start as int, i as int));
        }
        let mut f: Vec<u8> = Vec::new();
        let mut j: usize = 0;
        while j < end
            invariant
                j <= end <= fraction.len(),
                f@ == fraction@.take(j as int),
            decreases end - j,
        {
            f.push(fraction[j]);
            j += 1;
            assert(f@ =~= fraction@.take(j as int));
        }
        proof {
            assert(whole@.skip(start as int) =~= w@);
            assert(fraction@.take(end as int) =~= f@);
            assert(fraction@.take(fraction.len() as int) =~= fraction@);
            assert(whole@.skip(0) =~= whole@);
            lemma_strip_wf(w@, f@);
        }
        Number { whole: w, fraction: f }
    }


    /// Digits only, no leading zero before the point, no trailing zero after it.
    pub open spec fn wf(&self) -> bool {
        &&& all_digits(self.whole@)
        &&& all_digits(self.fraction@)
        &&& (self.whole@.len() > 0 ==> self.whole@[0] != 0)
        &&& (self.fraction@.len() > 0 ==> self.fraction@.last() != 0)
    }
}

proof fn lemma_strip_wf(w: Seq<u8>, f: Seq<u8>)
    requires
        all_digits(w),
        all_digits(f),
        w.len() > 0 ==> w[0] != 0,
        f.len() > 0 ==> f.last() != 0,
    ensures
        strip_leading_zeros(w) == w,
        strip_trailing_zeros(f) == f,
{
}

} // verus!
