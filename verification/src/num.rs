//! Decimal rendering and tolerant decimal parsing of 64-bit values, used by
//! the staging scheme and the persisted cache format.

use vstd::prelude::*;

verus! {

pub const DEC_DIGITS: [char; 10] = ['0', '1', '2', '3', '4', '5', '6', '7', '8', '9'];

/// The decimal rendering of `n`, most significant digit first, no sign and
/// no leading zeros (`0` itself renders as "0").
pub open spec fn spec_u64_dec(n: int) -> Seq<char>
    decreases n,
{
    if n < 10 {
        seq![DEC_DIGITS@[if 0 <= n { n } else { 0 }]]
    } else {
        spec_u64_dec(n / 10) + seq![DEC_DIGITS@[n % 10]]
    }
}

/// Render `n` in decimal.
pub fn u64_to_dec(n: u64) -> (r: Vec<char>)
    ensures
        r@ == spec_u64_dec(n as int),
    decreases n,
{
    if n < 10 {
        let mut v: Vec<char> = Vec::new();
        v.push(DEC_DIGITS[n as usize]);
        proof {
            assert(v@ =~= spec_u64_dec(n as int));
        }
        v
    } else {
        let mut r = u64_to_dec(n / 10);
        r.push(DEC_DIGITS[(n % 10) as usize]);
        proof {
            assert(spec_u64_dec((n / 10) as int) + seq![DEC_DIGITS@[n as int % 10]] =~= spec_u64_dec(
                (n / 10) as int,
            ).push(DEC_DIGITS@[n as int % 10]));
        }
        r
    }
}

/// A decimal rendering is never empty, holds only digits, and never starts
/// with a slash-like character.
pub proof fn lemma_u64_dec_digits(n: int)
    requires
        n >= 0,
    ensures
        spec_u64_dec(n).len() > 0,
        all_dec_digits(spec_u64_dec(n)),
    decreases n,
{
    assert(DEC_DIGITS@[0] == '0' && DEC_DIGITS@[1] == '1' && DEC_DIGITS@[2] == '2' && DEC_DIGITS@[3]
        == '3' && DEC_DIGITS@[4] == '4' && DEC_DIGITS@[5] == '5' && DEC_DIGITS@[6] == '6'
        && DEC_DIGITS@[7] == '7' && DEC_DIGITS@[8] == '8' && DEC_DIGITS@[9] == '9');
    if n < 10 {
        assert(is_dec_digit(spec_u64_dec(n)[0]));
    } else {
        lemma_u64_dec_digits(n / 10);
        let pre = spec_u64_dec(n / 10);
        let whole = spec_u64_dec(n);
        assert(whole == pre + seq![DEC_DIGITS@[n % 10]]);
        assert(is_dec_digit(DEC_DIGITS@[n % 10]));
        assert(forall|i: int| 0 <= i < pre.len() ==> whole[i] == pre[i]);
    }
}

/// Rendering and evaluating are inverse: the value of the decimal rendering
/// of `n` is `n` itself.
pub proof fn lemma_dec_val_of_dec(n: int)
    requires
        n >= 0,
    ensures
        spec_dec_val(spec_u64_dec(n)) == n,
    decreases n,
{
    assert(digit_val(DEC_DIGITS@[0]) == 0 && digit_val(DEC_DIGITS@[1]) == 1 && digit_val(
        DEC_DIGITS@[2],
    ) == 2 && digit_val(DEC_DIGITS@[3]) == 3 && digit_val(DEC_DIGITS@[4]) == 4 && digit_val(
        DEC_DIGITS@[5],
    ) == 5 && digit_val(DEC_DIGITS@[6]) == 6 && digit_val(DEC_DIGITS@[7]) == 7 && digit_val(
        DEC_DIGITS@[8],
    ) == 8 && digit_val(DEC_DIGITS@[9]) == 9);
    if n < 10 {
        let s = spec_u64_dec(n);
        assert(s.len() == 1);
        assert(s.last() == DEC_DIGITS@[n]);
        assert(s.drop_last() =~= Seq::<char>::empty());
        assert(spec_dec_val(Seq::<char>::empty()) == 0);
        assert(spec_dec_val(s) == spec_dec_val(s.drop_last()) * 10 + digit_val(s.last()));
        assert(spec_dec_val(s) == digit_val(DEC_DIGITS@[n]));
    } else {
        lemma_dec_val_of_dec(n / 10);
        let pre = spec_u64_dec(n / 10);
        let whole = spec_u64_dec(n);
        assert(whole.drop_last() =~= pre);
        assert(whole.last() == DEC_DIGITS@[n % 10]);
        assert(spec_dec_val(whole) == spec_dec_val(pre) * 10 + digit_val(DEC_DIGITS@[n % 10]));
    }
}

/// Distinct values render to distinct decimal strings.
pub proof fn lemma_dec_injective(n1: int, n2: int)
    requires
        n1 >= 0,
        n2 >= 0,
        n1 != n2,
    ensures
        spec_u64_dec(n1) != spec_u64_dec(n2),
{
    lemma_dec_val_of_dec(n1);
    lemma_dec_val_of_dec(n2);
}

/// `c` is a decimal digit.
pub open spec fn is_dec_digit(c: char) -> bool {
    '0' <= c && c <= '9'
}

/// The numeric value of the digit `c`.
pub open spec fn digit_val(c: char) -> int {
    c as u32 - '0' as u32
}

/// Every character of `s` is a decimal digit.
pub open spec fn all_dec_digits(s: Seq<char>) -> bool {
    forall|i: int| 0 <= i < s.len() ==> is_dec_digit(s[i])
}

/// The value of the digit string `s`.
pub open spec fn spec_dec_val(s: Seq<char>) -> int
    decreases s.len(),
{
    if s.len() == 0 {
        0
    } else {
        spec_dec_val(s.drop_last()) * 10 + digit_val(s.last())
    }
}

/// The value of a digit string is non-negative.
pub proof fn lemma_dec_val_nonneg(s: Seq<char>)
    requires
        all_dec_digits(s),
    ensures
        spec_dec_val(s) >= 0,
    decreases s.len(),
{
    if s.len() > 0 {
        assert(all_dec_digits(s.drop_last()));
        lemma_dec_val_nonneg(s.drop_last());
        assert(spec_dec_val(s.drop_last()) * 10 >= 0) by (nonlinear_arith)
            requires
                spec_dec_val(s.drop_last()) >= 0,
        ;
        assert(is_dec_digit(s.last()));
    }
}

/// Extending a digit string does not decrease its value.
pub proof fn lemma_dec_val_prefix(s: Seq<char>, i: int)
    requires
        all_dec_digits(s),
        0 <= i <= s.len(),
    ensures
        spec_dec_val(s.subrange(0, i)) <= spec_dec_val(s),
    decreases s.len() - i,
{
    if i < s.len() {
        let p = s.subrange(0, i);
        let q = s.subrange(0, i + 1);
        assert(q.drop_last() =~= p);
        assert(all_dec_digits(p));
        lemma_dec_val_nonneg(p);
        assert(spec_dec_val(p) * 10 >= spec_dec_val(p)) by (nonlinear_arith)
            requires
                spec_dec_val(p) >= 0,
        ;
        assert(is_dec_digit(s[i]));
        assert(spec_dec_val(q) >= spec_dec_val(p));
        lemma_dec_val_prefix(s, i + 1);
    } else {
        assert(s.subrange(0, i) =~= s);
    }
}

/// The value of the digit string `s`, if `s` is a non-empty run of decimal
/// digits whose value fits in 64 bits; `None` otherwise.
pub open spec fn spec_parse_u64(s: Seq<char>) -> Option<u64> {
    if s.len() > 0 && all_dec_digits(s) && spec_dec_val(s) <= u64::MAX {
        Some(spec_dec_val(s) as u64)
    } else {
        None
    }
}

/// Parse a digit string.
pub fn parse_u64(s: &Vec<char>) -> (r: Option<u64>)
    ensures
        r == spec_parse_u64(s@),
{
    if s.len() == 0 {
        return None;
    }
    let mut v: u64 = 0;
    let mut i: usize = 0;
    proof {
        assert(s@.subrange(0, 0) =~= Seq::<char>::empty());
    }
    while i < s.len()
        invariant
            i <= s@.len(),
            all_dec_digits(s@.subrange(0, i as int)),
            v == spec_dec_val(s@.subrange(0, i as int)),
        decreases s@.len() - i,
    {
        let c = s[i];
        if !('0' <= c && c <= '9') {
            proof {
                assert(!is_dec_digit(s@[i as int]));
            }
            return None;
        }
        let d: u64 = (c as u32 - '0' as u32) as u64;
        let ghost p = s@.subrange(0, i as int);
        let ghost q = s@.subrange(0, i + 1);
        proof {
            assert(q.drop_last() =~= p);
            assert(q.last() == s@[i as int]);
            assert(all_dec_digits(q));
        }
        proof {
            assert(digit_val(s@[i as int]) == d);
            assert(spec_dec_val(q) == v * 10 + d);
        }
        let overflowed: bool = match v.checked_mul(10) {
            Some(x) => match x.checked_add(d) {
                Some(y) => {
                    v = y;
                    false
                },
                None => true,
            },
            None => true,
        };
        if overflowed {
            proof {
                assert(spec_dec_val(q) > u64::MAX);
                if all_dec_digits(s@) {
                    lemma_dec_val_prefix(s@, i + 1);
                    assert(s@.subrange(0, s@.len() as int) =~= s@);
                    assert(spec_dec_val(s@) > u64::MAX);
                }
            }
            return None;
        }
        i = i + 1;
    }
    proof {
        assert(s@.subrange(0, i as int) =~= s@);
    }
    Some(v)
}

} // verus!
