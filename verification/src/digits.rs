//! Decimal text of unsigned integers: formatting with an exact spec, and
//! parsing that mirrors the standard library's accepted shape (an optional
//! leading plus sign, then decimal digits, rejected on overflow).

use vstd::prelude::*;

verus! {

/// The decimal digits of `n`, most significant first, as ASCII bytes.
pub open spec fn spec_dec_digits(n: nat) -> Seq<u8>
    decreases n,
{
    if n < 10 {
        seq![(48 + n) as u8]
    } else {
        spec_dec_digits(n / 10).push((48 + n % 10) as u8)
    }
}

/// Writes `n` in decimal, most significant digit first.
pub fn u64_to_dec(n: u64) -> (r: Vec<u8>)
    ensures
        r@ == spec_dec_digits(n as nat),
    decreases n,
{
    if n < 10 {
        let mut v: Vec<u8> = Vec::new();
        v.push(48 + n as u8);
        proof {
            assert(v@ =~= spec_dec_digits(n as nat));
        }
        v
    } else {
        let mut v = u64_to_dec(n / 10);
        v.push(48 + (n % 10) as u8);
        proof {
            assert(v@ =~= spec_dec_digits(n as nat));
        }
        v
    }
}

/// An ASCII decimal digit.
pub open spec fn is_dec_digit(c: char) -> bool {
    48 <= c as u32 <= 57
}

/// Every character of `s` is a decimal digit.
pub open spec fn all_dec_digits(s: Seq<char>) -> bool {
    forall|i: int| 0 <= i < s.len() ==> is_dec_digit(#[trigger] s[i])
}

/// The value of a digit string, most significant digit first.
pub open spec fn spec_dec_val(s: Seq<char>) -> int
    decreases s.len(),
{
    if s.len() == 0 {
        0
    } else {
        spec_dec_val(s.drop_last()) * 10 + (s.last() as u32 - 48)
    }
}

/// A digit string has a value that is not negative.
pub proof fn lemma_dec_val_nonneg(s: Seq<char>)
    requires
        all_dec_digits(s),
    ensures
        spec_dec_val(s) >= 0,
    decreases s.len(),
{
    if s.len() > 0 {
        assert(all_dec_digits(s.drop_last()));
        lemma_dec_val_nonneg(s.drop_last());
    }
}

/// Reading more digits never shrinks the value.
pub proof fn lemma_dec_val_take_grows(s: Seq<char>, i: int, j: int)
    requires
        all_dec_digits(s),
        0 <= i <= j <= s.len(),
    ensures
        spec_dec_val(s.take(i)) <= spec_dec_val(s.take(j)),
    decreases j - i,
{
    if i < j {
        lemma_dec_val_take_grows(s, i, j - 1);
        assert(s.take(j).drop_last() =~= s.take(j - 1));
        assert(all_dec_digits(s.take(j - 1)));
        lemma_dec_val_nonneg(s.take(j - 1));
        assert(is_dec_digit(s[j - 1]));
        assert(s.take(j).last() == s[j - 1]);
    }
}

/// The digit part of a candidate number: everything after one optional
/// leading plus sign.
pub open spec fn spec_digits_part(s: Seq<char>) -> Seq<char> {
    if s.len() > 0 && s[0] == '+' {
        s.skip(1)
    } else {
        s
    }
}

/// What parsing `s` as an unsigned 64-bit number yields: its value when the
/// digit part is one or more decimal digits whose value fits, nothing
/// otherwise.
pub open spec fn spec_parse_u64(s: Seq<char>) -> Option<u64> {
    let d = spec_digits_part(s);
    if d.len() == 0 || !all_dec_digits(d) {
        None
    } else if spec_dec_val(d) > u64::MAX {
        None
    } else {
        Some(spec_dec_val(d) as u64)
    }
}

/// Parses `s` as an unsigned 64-bit decimal number.
pub fn parse_u64(s: &str) -> (r: Option<u64>)
    ensures
        r == spec_parse_u64(s@),
{
    let len = s.unicode_len();
    let start: usize = if len > 0 && s.get_char(0) == '+' {
        1
    } else {
        0
    };
    let ghost d = spec_digits_part(s@);
    proof {
        assert(d =~= s@.skip(start as int));
    }
    if start >= len {
        return None;
    }
    let mut acc: u64 = 0;
    let mut k: usize = start;
    while k < len
        invariant
            start <= k <= len,
            len == s@.len(),
            start <= 1,
            d == spec_digits_part(s@),
            d == s@.skip(start as int),
            d.len() == len - start,
            all_dec_digits(d.take(k - start)),
            acc as int == spec_dec_val(d.take(k - start)),
        decreases len - k,
    {
        let c = s.get_char(k);
        let u = c as u32;
        proof {
            assert(d[k - start] == s@[k as int]);
        }
        if u < 48 || u > 57 {
            proof {
                assert(!is_dec_digit(d[k - start]));
                assert(!all_dec_digits(d));
            }
            return None;
        }
        let wide: u128 = acc as u128 * 10 + (u - 48) as u128;
        proof {
            assert(d.take(k - start + 1).drop_last() =~= d.take(k - start));
            assert(d.take(k - start + 1).last() == d[k - start]);
            assert(spec_dec_val(d.take(k - start + 1)) == wide as int);
        }
        if wide > u64::MAX as u128 {
            proof {
                if all_dec_digits(d) {
                    lemma_dec_val_take_grows(d, k - start + 1, d.len() as int);
                    assert(d.take(d.len() as int) =~= d);
                    assert(spec_dec_val(d) > u64::MAX);
                }
            }
            return None;
        }
        acc = wide as u64;
        k = k + 1;
    }
    proof {
        assert(d.take(d.len() as int) =~= d);
    }
    Some(acc)
}

} // verus!
