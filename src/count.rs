use vstd::prelude::*;

use crate::error::SubmitError;

verus! {

/// ASCII white space, as `char::is_whitespace` classifies it.
pub open spec fn is_space(b: u8) -> bool {
    b == 32 || (9 <= b && b <= 13)
}

pub open spec fn is_digit(b: u8) -> bool {
    48 <= b && b <= 57
}

pub open spec fn trim_front(s: Seq<u8>) -> Seq<u8>
    decreases s.len(),
{
    if s.len() > 0 && is_space(s[0]) {
        trim_front(s.drop_first())
    } else {
        s
    }
}

pub open spec fn trim_back(s: Seq<u8>) -> Seq<u8>
    decreases s.len(),
{
    if s.len() > 0 && is_space(s.last()) {
        trim_back(s.drop_last())
    } else {
        s
    }
}

/// `s` without leading and trailing white space.
pub open spec fn trim(s: Seq<u8>) -> Seq<u8> {
    trim_back(trim_front(s))
}

/// The digits of an unsigned number, after the optional `+` sign.
pub open spec fn unsigned_digits(t: Seq<u8>) -> Seq<u8> {
    if t.len() > 0 && t[0] == 43 {
        t.drop_first()
    } else {
        t
    }
}

pub open spec fn all_digits(s: Seq<u8>) -> bool {
    forall|k: int| 0 <= k < s.len() ==> is_digit(#[trigger] s[k])
}

/// The value of a string of decimal digits.
pub open spec fn digits_value(s: Seq<u8>) -> nat
    decreases s.len(),
{
    if s.len() == 0 {
        0
    } else {
        digits_value(s.drop_last()) * 10 + (s.last() - 48) as nat
    }
}

/// Whether the trimmed output is a number that fits a `usize`.
pub open spec fn is_count(out: Seq<u8>) -> bool {
    let d = unsigned_digits(trim(out));
    d.len() > 0 && all_digits(d) && digits_value(d) <= usize::MAX
}

/// The number that `out` reads as, once trimmed.
pub open spec fn count_value(out: Seq<u8>) -> nat {
    digits_value(unsigned_digits(trim(out)))
}

proof fn lemma_value_grows(d: Seq<u8>, k: int)
    requires
        all_digits(d),
        0 <= k <= d.len(),
    ensures
        digits_value(d.subrange(0, k)) <= digits_value(d),
    decreases d.len() - k,
{
    if k < d.len() {
        lemma_value_grows(d, k + 1);
        assert(d.subrange(0, k + 1).drop_last() =~= d.subrange(0, k));
    } else {
        assert(d.subrange(0, k) =~= d);
    }
}

/// Reads the commit count that the version-control tool printed: white space
/// around it is ignored, the rest must be an unsigned decimal that fits a `usize`.
pub fn parse_count(out: &[u8]) -> (r: Result<usize, SubmitError>)
    ensures
        is_count(out@) <==> r is Ok,
        r is Ok ==> r->Ok_0 == count_value(out@),
        r is Err ==> r->Err_0 == SubmitError::MalformedCountOutput,
{
    let n: usize = out.len();
    let mut i: usize = 0;
    assert(out@.subrange(0, n as int) =~= out@);
    while i < n && (out[i] == 32 || (9 <= out[i] && out[i] <= 13))
        invariant
            n == out@.len(),
            i <= n,
            trim_front(out@.subrange(i as int, n as int)) == trim_front(out@),
        decreases n - i,
    {
        assert(out@.subrange(i as int, n as int).drop_first() =~= out@.subrange(i + 1, n as int));
        i += 1;
    }
    assert(out@.subrange(0, n as int) =~= out@);
    assert(trim_front(out@) == out@.subrange(i as int, n as int));
    let mut j: usize = n;
    while j > i && (out[j - 1] == 32 || (9 <= out[j - 1] && out[j - 1] <= 13))
        invariant
            n == out@.len(),
            i <= j <= n,
            trim_back(out@.subrange(i as int, j as int)) == trim(out@),
        decreases j - i,
    {
        assert(out@.subrange(i as int, j as int).drop_last() =~= out@.subrange(i as int, j - 1));
        j -= 1;
    }
    assert(trim(out@) == out@.subrange(i as int, j as int));
    if i < j && out[i] == 43 {
        assert(out@.subrange(i as int, j as int).drop_first() =~= out@.subrange(i + 1, j as int));
        i += 1;
    }
    let ghost d = unsigned_digits(trim(out@));
    assert(d == out@.subrange(i as int, j as int));
    if i == j {
        return Err(SubmitError::MalformedCountOutput);
    }
    let mut acc: usize = 0;
    let mut k: usize = i;
    while k < j
        invariant
            n == out@.len(),
            i <= k <= j <= n,
            d == out@.subrange(i as int, j as int),
            d == unsigned_digits(trim(out@)),
            all_digits(out@.subrange(i as int, k as int)),
            acc == digits_value(out@.subrange(i as int, k as int)),
        decreases j - k,
    {
        let b = out[k];
        assert(out@.subrange(i as int, k + 1).drop_last() =~= out@.subrange(i as int, k as int));
        if !(48 <= b && b <= 57) {
            assert(d[k - i] == b);
            assert(!is_digit(d[k - i]));
            return Err(SubmitError::MalformedCountOutput);
        }
        let next = match acc.checked_mul(10) {
            Some(m) => m.checked_add((b - 48) as usize),
            None => None,
        };
        match next {
            Some(v) => {
                acc = v;
            },
            None => {
                proof {
                    assert(digits_value(out@.subrange(i as int, k + 1)) == acc * 10 + (b - 48) as nat);
                    assert(acc * 10 + (b - 48) as nat > usize::MAX);
                    if all_digits(d) {
                        lemma_value_grows(d, k + 1 - i);
                        assert(d.subrange(0, k + 1 - i) =~= out@.subrange(i as int, k + 1));
                    }
                }
                return Err(SubmitError::MalformedCountOutput);
            },
        }
        assert(all_digits(out@.subrange(i as int, k + 1)));
        k += 1;
    }
    assert(out@.subrange(i as int, j as int) == d);
    Ok(acc)
}

} // verus!
