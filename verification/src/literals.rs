//! Recognizers for the literal forms that data-type inference tries on a
//! sample value: a decimal integer within the 64-bit signed range, a
//! floating-point literal, and a boolean word.
//!
//! Each recognizer is proved against a direct statement of the literal's
//! grammar (and, for integers, its range).

use vstd::prelude::*;
use vstd::string::StrSliceExecFns;

use crate::text::is_digit;
use crate::text::spec_is_digit;

verus! {

/// One or more decimal digits.
pub open spec fn spec_all_digits(s: Seq<char>) -> bool {
    s.len() > 0 && forall|i: int| 0 <= i < s.len() ==> spec_is_digit(#[trigger] s[i])
}

/// The numeric value of a digit character.
pub open spec fn spec_digit_val(c: char) -> int {
    (c as u32) - 48
}

/// The value of a digit string, most significant digit first.
pub open spec fn spec_digits_val(s: Seq<char>) -> int
    decreases s.len(),
{
    if s.len() == 0 {
        0
    } else {
        spec_digits_val(s.drop_last()) * 10 + spec_digit_val(s.last())
    }
}

/// `s` without its leading sign, if any.
pub open spec fn spec_unsigned_body(s: Seq<char>) -> Seq<char> {
    if s.len() > 0 && (s[0] == '+' || s[0] == '-') {
        s.drop_first()
    } else {
        s
    }
}

/// Whether `s` carries a minus sign.
pub open spec fn spec_is_negative(s: Seq<char>) -> bool {
    s.len() > 0 && s[0] == '-'
}

/// A decimal integer literal within the 64-bit signed range: an optional
/// sign, then digits, with a value no greater than `2^63 - 1` (or `2^63`
/// when negative).
pub open spec fn spec_is_i64_literal(s: Seq<char>) -> bool {
    let body = spec_unsigned_body(s);
    spec_all_digits(body) && (if spec_is_negative(s) {
        spec_digits_val(body) <= 0x8000000000000000
    } else {
        spec_digits_val(body) < 0x8000000000000000
    })
}

/// Recognize a decimal integer literal within the 64-bit signed range.
pub fn is_i64_literal(s: &str) -> (r: bool)
    ensures
        r == spec_is_i64_literal(s@),
{
    let len = s.unicode_len();
    if len == 0 {
        return false;
    }
    let first = s.get_char(0);
    let negative = first == '-';
    let start: usize = if first == '+' || first == '-' {
        1
    } else {
        0
    };
    proof {
        assert(spec_unsigned_body(s@) =~= s@.subrange(start as int, len as int));
    }
    if start == len {
        return false;
    }
    // The largest admissible value is 2^63 when negative, 2^63 - 1
    // otherwise; both have the digits 922337203685477580 followed by a
    // final 8 or 7.
    let last_max: u64 = if negative {
        8
    } else {
        7
    };
    let mut acc: u64 = 0;
    let mut over = false;
    let mut i: usize = start;
    while i < len
        invariant
            start <= i <= len,
            len == s@.len(),
            start == 0 || start == 1,
            spec_unsigned_body(s@) == s@.subrange(start as int, len as int),
            negative == spec_is_negative(s@),
            last_max == (if negative {
                8u64
            } else {
                7u64
            }),
            forall|j: int| start <= j < i ==> spec_is_digit(#[trigger] s@[j]),
            !over ==> acc == spec_digits_val(s@.subrange(start as int, i as int)),
            !over ==> acc <= 0x8000000000000000u64 - 8 + last_max,
            over ==> spec_digits_val(s@.subrange(start as int, i as int))
                > 0x8000000000000000u64 - 8 + last_max,
        decreases len - i,
    {
        let c = s.get_char(i);
        if !is_digit(c) {
            proof {
                assert(spec_unsigned_body(s@)[i - start] == s@[i as int]);
                assert(!spec_all_digits(spec_unsigned_body(s@)));
            }
            return false;
        }
        let d: u64 = ((c as u32) - 48) as u64;
        proof {
            assert(s@.subrange(start as int, i + 1).drop_last() =~= s@.subrange(
                start as int,
                i as int,
            ));
            assert(s@.subrange(start as int, i + 1).last() == s@[i as int]);
            assert(d == spec_digit_val(s@[i as int]));
            assert(d <= 9);
        }
        if !over {
            if acc > 922337203685477580u64 || (acc == 922337203685477580u64 && d > last_max) {
                over = true;
            } else {
                acc = acc * 10 + d;
            }
        }
        i += 1;
    }
    proof {
        assert(s@.subrange(start as int, len as int) =~= spec_unsigned_body(s@));
    }
    !over
}

/// The ASCII-lowercased code of a character, the comparison key of a
/// case-insensitive match.
pub open spec fn spec_lower_code(c: char) -> int {
    if 65 <= (c as u32) <= 90 {
        (c as u32) + 32
    } else {
        (c as u32) as int
    }
}

/// Character-wise equality up to ASCII case.
pub open spec fn spec_eq_ignore_ascii_case(a: Seq<char>, b: Seq<char>) -> bool {
    a.len() == b.len() && forall|i: int|
        0 <= i < a.len() ==> spec_lower_code(#[trigger] a[i]) == spec_lower_code(b[i])
}

/// Compare two strings up to ASCII case.
pub fn eq_ignore_ascii_case(a: &str, b: &str) -> (r: bool)
    ensures
        r == spec_eq_ignore_ascii_case(a@, b@),
{
    let alen = a.unicode_len();
    let blen = b.unicode_len();
    if alen != blen {
        return false;
    }
    let mut i: usize = 0;
    while i < alen
        invariant
            i <= alen,
            alen == a@.len(),
            alen == b@.len(),
            forall|j: int| 0 <= j < i ==> spec_lower_code(#[trigger] a@[j]) == spec_lower_code(
                b@[j],
            ),
        decreases alen - i,
    {
        let ca = a.get_char(i) as u32;
        let cb = b.get_char(i) as u32;
        let la = if 65 <= ca && ca <= 90 {
            ca + 32
        } else {
            ca
        };
        let lb = if 65 <= cb && cb <= 90 {
            cb + 32
        } else {
            cb
        };
        if la != lb {
            return false;
        }
        i += 1;
    }
    true
}

/// The mantissa of a floating-point literal: digits, or digits around a
/// single dot with at least one digit in all.
pub open spec fn spec_mantissa(s: Seq<char>) -> bool {
    ||| spec_all_digits(s)
    ||| exists|k: int|
        0 <= k < s.len() && s.len() >= 2 && (#[trigger] s[k]) == '.' && (forall|j: int|
            0 <= j < k ==> spec_is_digit(#[trigger] s[j])) && (forall|j: int|
            k < j < s.len() ==> spec_is_digit(#[trigger] s[j]))
}

/// The exponent body of a floating-point literal: an optional sign, then
/// digits.
pub open spec fn spec_exponent(s: Seq<char>) -> bool {
    spec_all_digits(spec_unsigned_body(s))
}

/// An unsigned floating-point number: a mantissa, optionally followed by
/// `e` or `E` and an exponent.
pub open spec fn spec_number(s: Seq<char>) -> bool {
    ||| spec_mantissa(s)
    ||| exists|k: int|
        0 <= k < s.len() && ((#[trigger] s[k]) == 'e' || s[k] == 'E') && spec_mantissa(s.take(k))
            && spec_exponent(s.skip(k + 1))
}

/// One of the special floating-point words, compared without regard to
/// case.
pub open spec fn spec_special_float(s: Seq<char>) -> bool {
    ||| spec_eq_ignore_ascii_case(s, "inf"@)
    ||| spec_eq_ignore_ascii_case(s, "infinity"@)
    ||| spec_eq_ignore_ascii_case(s, "nan"@)
}

/// A floating-point literal: an optional sign, then a special word or a
/// number. Every string of this form converts (overflow gives an
/// infinity), and no other does.
pub open spec fn spec_is_f64_literal(s: Seq<char>) -> bool {
    let body = spec_unsigned_body(s);
    spec_special_float(body) || spec_number(body)
}

/// A mantissa holds only digits and at most one dot, so never an `e`.
proof fn lemma_mantissa_has_no_exponent_mark(s: Seq<char>)
    requires
        spec_mantissa(s),
    ensures
        forall|j: int| 0 <= j < s.len() ==> (#[trigger] s[j]) != 'e' && s[j] != 'E',
{
    assert forall|j: int| 0 <= j < s.len() implies (#[trigger] s[j]) != 'e' && s[j] != 'E' by {
        if spec_all_digits(s) {
            assert(spec_is_digit(s[j]));
        } else {
            let k = choose|k: int|
                0 <= k < s.len() && s.len() >= 2 && (#[trigger] s[k]) == '.' && (forall|j: int|
                    0 <= j < k ==> spec_is_digit(#[trigger] s[j])) && (forall|j: int|
                    k < j < s.len() ==> spec_is_digit(#[trigger] s[j]));
            if j != k {
                assert(spec_is_digit(s[j]));
            }
        }
    }
}

/// Recognize the mantissa of a floating-point literal.
fn is_mantissa(m: &str) -> (r: bool)
    ensures
        r == spec_mantissa(m@),
{
    let len = m.unicode_len();
    if len == 0 {
        return false;
    }
    // The index of the dot seen so far, `len` when none was seen.
    let mut dot: usize = len;
    let mut i: usize = 0;
    while i < len
        invariant
            i <= len,
            len == m@.len(),
            dot == len || (dot < i && m@[dot as int] == '.'),
            forall|j: int| 0 <= j < i && j != dot ==> spec_is_digit(#[trigger] m@[j]),
        decreases len - i,
    {
        let c = m.get_char(i);
        if is_digit(c) {
        } else if c == '.' {
            if dot != len {
                // A second dot: no split can put both dots among digits.
                proof {
                    let d1 = dot as int;
                    let d2 = i as int;
                    assert(!spec_all_digits(m@));
                    assert forall|k: int| 0 <= k < m@.len() implies !(m@.len() >= 2 && (
                    #[trigger] m@[k]) == '.' && (forall|j: int|
                        0 <= j < k ==> spec_is_digit(#[trigger] m@[j])) && (forall|j: int|
                        k < j < m@.len() ==> spec_is_digit(#[trigger] m@[j]))) by {
                        if k != d1 && 0 <= d1 < k {
                            assert(!spec_is_digit(m@[d1]));
                        } else if k != d2 {
                            assert(k <= d1 || k == d1);
                            assert(!spec_is_digit(m@[d2]));
                        }
                    }
                }
                return false;
            }
            dot = i;
        } else {
            // Neither digit nor dot: no form of the mantissa admits it.
            proof {
                let bad = i as int;
                assert(!spec_is_digit(m@[bad]));
                assert(!spec_all_digits(m@));
                assert forall|k: int| 0 <= k < m@.len() implies !(m@.len() >= 2 && (
                #[trigger] m@[k]) == '.' && (forall|j: int|
                    0 <= j < k ==> spec_is_digit(#[trigger] m@[j])) && (forall|j: int|
                    k < j < m@.len() ==> spec_is_digit(#[trigger] m@[j]))) by {
                    if m@[k] == '.' {
                        assert(k != bad);
                    }
                }
            }
            return false;
        }
        i += 1;
    }
    if dot == len {
        true
    } else {
        if len >= 2 {
            proof {
                let k = dot as int;
                assert(0 <= k < m@.len() && m@.len() >= 2 && m@[k] == '.' && (forall|j: int|
                    0 <= j < k ==> spec_is_digit(#[trigger] m@[j])) && (forall|j: int|
                    k < j < m@.len() ==> spec_is_digit(#[trigger] m@[j])));
            }
            true
        } else {
            // A lone dot: too short for either form.
            proof {
                assert(!spec_is_digit(m@[dot as int]));
                assert(!spec_all_digits(m@));
            }
            false
        }
    }
}

/// Recognize the exponent body: an optional sign, then digits.
fn is_exponent(x: &str) -> (r: bool)
    ensures
        r == spec_exponent(x@),
{
    let len = x.unicode_len();
    if len == 0 {
        return false;
    }
    let first = x.get_char(0);
    let start: usize = if first == '+' || first == '-' {
        1
    } else {
        0
    };
    proof {
        assert(spec_unsigned_body(x@) =~= x@.subrange(start as int, len as int));
    }
    if start == len {
        return false;
    }
    let mut i: usize = start;
    while i < len
        invariant
            start <= i <= len,
            len == x@.len(),
            spec_unsigned_body(x@) == x@.subrange(start as int, len as int),
            forall|j: int| start <= j < i ==> spec_is_digit(#[trigger] x@[j]),
        decreases len - i,
    {
        if !is_digit(x.get_char(i)) {
            proof {
                assert(spec_unsigned_body(x@)[i - start] == x@[i as int]);
                assert(!spec_all_digits(spec_unsigned_body(x@)));
            }
            return false;
        }
        i += 1;
    }
    true
}

/// Whether the character at `k` is an exponent mark.
fn exp_mark_at(s: &str, k: usize) -> (r: bool)
    requires
        k < s@.len(),
    ensures
        r == (s@[k as int] == 'e' || s@[k as int] == 'E'),
{
    let c = s.get_char(k);
    c == 'e' || c == 'E'
}

/// Recognize a floating-point literal.
pub fn is_f64_literal(s: &str) -> (r: bool)
    ensures
        r == spec_is_f64_literal(s@),
{
    let len = s.unicode_len();
    let start: usize = if len > 0 && {
        let c = s.get_char(0);
        c == '+' || c == '-'
    } {
        1
    } else {
        0
    };
    let body = s.substring_char(start, len);
    proof {
        assert(body@ =~= spec_unsigned_body(s@));
    }
    if eq_ignore_ascii_case(body, "inf") || eq_ignore_ascii_case(body, "infinity")
        || eq_ignore_ascii_case(body, "nan") {
        return true;
    }
    // Split at the exponent mark, if any; a mantissa cannot hold one, so
    // only the first occurrence can match.
    let blen = body.unicode_len();
    let mut k: usize = 0;
    while k < blen && !exp_mark_at(body, k)
        invariant
            k <= blen,
            blen == body@.len(),
            forall|j: int| 0 <= j < k ==> (#[trigger] body@[j]) != 'e' && body@[j] != 'E',
        decreases blen - k,
    {
        k += 1;
    }
    if k == blen {
        // No exponent mark: the body must be a bare mantissa, and no
        // split form can apply.
        let r = is_mantissa(body);
        proof {
            if !r {
                assert(forall|kk: int|
                    0 <= kk < body@.len() ==> !((#[trigger] body@[kk]) == 'e' || body@[kk] == 'E'));
            }
        }
        return r;
    }
    let mantissa_part = body.substring_char(0, k);
    let exponent_part = body.substring_char(k + 1, blen);
    proof {
        assert(mantissa_part@ =~= body@.take(k as int));
        assert(exponent_part@ =~= body@.skip(k + 1));
    }
    let r = is_mantissa(mantissa_part) && is_exponent(exponent_part);
    proof {
        if r {
            assert(0 <= k < body@.len() && (body@[k as int] == 'e' || body@[k as int] == 'E')
                && spec_mantissa(body@.take(k as int)) && spec_exponent(body@.skip(k + 1)));
            assert(spec_number(body@));
        } else {
            // The body is not all mantissa (it holds an exponent mark),
            // and any successful split must use the first mark.
            if spec_mantissa(body@) {
                lemma_mantissa_has_no_exponent_mark(body@);
                assert(false);
            }
            if spec_number(body@) {
                let kk = choose|kk: int|
                    0 <= kk < body@.len() && ((#[trigger] body@[kk]) == 'e' || body@[kk] == 'E')
                        && spec_mantissa(body@.take(kk)) && spec_exponent(body@.skip(kk + 1));
                lemma_mantissa_has_no_exponent_mark(body@.take(kk));
                if kk > k {
                    assert(body@.take(kk)[k as int] == body@[k as int]);
                    assert(false);
                }
                assert(kk == k);
                assert(false);
            }
        }
    }
    r
}

/// A boolean word: `true` or `false`, in any case.
pub open spec fn spec_is_bool_literal(s: Seq<char>) -> bool {
    spec_eq_ignore_ascii_case(s, "true"@) || spec_eq_ignore_ascii_case(s, "false"@)
}

/// Recognize a boolean word.
pub fn is_bool_literal(s: &str) -> (r: bool)
    ensures
        r == spec_is_bool_literal(s@),
{
    eq_ignore_ascii_case(s, "true") || eq_ignore_ascii_case(s, "false")
}

} // verus!
