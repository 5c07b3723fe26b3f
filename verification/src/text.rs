//! Character classes and small string routines that the rest of the
//! library builds its contracts on.

use vstd::prelude::*;
use vstd::string::StrSliceExecFns;
use vstd::string::StringExecFns;

verus! {

/// A decimal digit `0` to `9`.
pub open spec fn spec_is_digit(c: char) -> bool {
    48 <= (c as u32) <= 57
}

/// A hexadecimal digit: `0-9`, `a-f` or `A-F`.
pub open spec fn spec_is_hex_digit(c: char) -> bool {
    ||| 48 <= (c as u32) <= 57
    ||| 97 <= (c as u32) <= 102
    ||| 65 <= (c as u32) <= 70
}

/// A character with the Unicode `White_Space` property, the class that
/// trimming removes.
pub open spec fn spec_is_space(c: char) -> bool {
    ||| 9 <= (c as u32) <= 13
    ||| c as u32 == 32
    ||| c as u32 == 0x85
    ||| c as u32 == 0xA0
    ||| c as u32 == 0x1680
    ||| 0x2000 <= (c as u32) <= 0x200A
    ||| c as u32 == 0x2028
    ||| c as u32 == 0x2029
    ||| c as u32 == 0x202F
    ||| c as u32 == 0x205F
    ||| c as u32 == 0x3000
}

#[verifier::when_used_as_spec(spec_is_digit)]
pub fn is_digit(c: char) -> (r: bool)
    ensures
        r == spec_is_digit(c),
{
    let n = c as u32;
    48 <= n && n <= 57
}

#[verifier::when_used_as_spec(spec_is_hex_digit)]
pub fn is_hex_digit(c: char) -> (r: bool)
    ensures
        r == spec_is_hex_digit(c),
{
    let n = c as u32;
    (48 <= n && n <= 57) || (97 <= n && n <= 102) || (65 <= n && n <= 70)
}

#[verifier::when_used_as_spec(spec_is_space)]
pub fn is_space(c: char) -> (r: bool)
    ensures
        r == spec_is_space(c),
{
    let n = c as u32;
    (9 <= n && n <= 13) || n == 32 || n == 0x85 || n == 0xA0 || n == 0x1680 || (0x2000 <= n && n
        <= 0x200A) || n == 0x2028 || n == 0x2029 || n == 0x202F || n == 0x205F || n == 0x3000
}

/// Character-wise string equality.
pub fn str_eq(a: &str, b: &str) -> (r: bool)
    ensures
        r == (a@ == b@),
{
    let alen = a.unicode_len();
    let blen = b.unicode_len();
    if alen != blen {
        return false;
    }
    let mut i: usize = 0;
    while i < alen
        invariant
            i <= alen,
            alen == a@.len(),
            alen == b@.len(),
            forall|j: int| 0 <= j < i ==> a@[j] == b@[j],
        decreases alen - i,
    {
        if a.get_char(i) != b.get_char(i) {
            return false;
        }
        i += 1;
    }
    proof {
        assert(a@ =~= b@);
    }
    true
}

/// What remains of `s` once every leading white-space character is removed.
pub open spec fn spec_trim_start(s: Seq<char>) -> Seq<char>
    decreases s.len(),
{
    if s.len() > 0 && spec_is_space(s[0]) {
        spec_trim_start(s.drop_first())
    } else {
        s
    }
}

/// What remains of `s` once every trailing white-space character is removed.
pub open spec fn spec_trim_end(s: Seq<char>) -> Seq<char>
    decreases s.len(),
{
    if s.len() > 0 && spec_is_space(s.last()) {
        spec_trim_end(s.drop_last())
    } else {
        s
    }
}

/// `s` with white space removed from both ends.
pub open spec fn spec_trim(s: Seq<char>) -> Seq<char> {
    spec_trim_end(spec_trim_start(s))
}

/// Remove white space from both ends of a string slice.
pub fn trim(s: &str) -> (r: &str)
    ensures
        r@ == spec_trim(s@),
{
    let len = s.unicode_len();
    proof {
        assert(s@.skip(0) =~= s@);
    }
    let mut i: usize = 0;
    while i < len && is_space(s.get_char(i))
        invariant
            i <= len,
            len == s@.len(),
            spec_trim_start(s@) == spec_trim_start(s@.skip(i as int)),
        decreases len - i,
    {
        proof {
            assert(s@.skip(i as int).drop_first() =~= s@.skip(i + 1));
        }
        i += 1;
    }
    proof {
        if i < len {
            assert(spec_trim_start(s@) == s@.skip(i as int));
        } else {
            assert(s@.skip(len as int) =~= Seq::<char>::empty());
            assert(spec_trim_start(s@) == s@.skip(i as int));
        }
    }
    let mut j: usize = len;
    while j > i && is_space(s.get_char(j - 1))
        invariant
            i <= j <= len,
            len == s@.len(),
            spec_trim_start(s@) == s@.skip(i as int),
            spec_trim_end(s@.skip(i as int)) == spec_trim_end(s@.subrange(i as int, j as int)),
        decreases j,
    {
        proof {
            assert(s@.subrange(i as int, j as int).drop_last() =~= s@.subrange(
                i as int,
                j - 1,
            ));
            assert(s@.subrange(i as int, j as int).last() == s@[j - 1]);
        }
        j -= 1;
    }
    proof {
        if j > i {
            assert(s@.subrange(i as int, j as int).last() == s@[j - 1]);
            assert(spec_trim_end(s@.subrange(i as int, j as int)) == s@.subrange(
                i as int,
                j as int,
            ));
        } else {
            assert(s@.subrange(i as int, j as int) =~= Seq::<char>::empty());
            assert(spec_trim_end(s@.subrange(i as int, j as int)) == s@.subrange(
                i as int,
                j as int,
            ));
        }
    }
    s.substring_char(i, j)
}

/// Remove white space from the end of a string slice.
pub fn trim_end(s: &str) -> (r: &str)
    ensures
        r@ == spec_trim_end(s@),
{
    let len = s.unicode_len();
    proof {
        assert(s@.take(len as int) =~= s@);
    }
    let mut j: usize = len;
    while j > 0 && is_space(s.get_char(j - 1))
        invariant
            j <= len,
            len == s@.len(),
            spec_trim_end(s@) == spec_trim_end(s@.take(j as int)),
        decreases j,
    {
        proof {
            assert(s@.take(j as int).drop_last() =~= s@.take(j - 1));
            assert(s@.take(j as int).last() == s@[j - 1]);
        }
        j -= 1;
    }
    proof {
        assert(s@.take(len as int) =~= s@);
        if j > 0 {
            assert(s@.take(j as int).last() == s@[j - 1]);
            assert(spec_trim_end(s@.take(j as int)) == s@.take(j as int));
        } else {
            assert(s@.take(0) =~= Seq::<char>::empty());
            assert(spec_trim_end(s@.take(j as int)) == s@.take(j as int));
        }
    }
    s.substring_char(0, j)
}

/// `needle` occurs contiguously somewhere in `hay`.
pub open spec fn spec_contains_seq(hay: Seq<char>, needle: Seq<char>) -> bool {
    exists|k: int|
        0 <= k && k + needle.len() <= hay.len() && #[trigger] hay.subrange(k, k + needle.len())
            == needle
}

/// What the right part of a concatenation holds, the whole holds.
pub proof fn lemma_contains_concat_left(a: Seq<char>, b: Seq<char>, needle: Seq<char>)
    requires
        spec_contains_seq(b, needle),
    ensures
        spec_contains_seq(a + b, needle),
{
    let k = choose|k: int|
        0 <= k && k + needle.len() <= b.len() && #[trigger] b.subrange(k, k + needle.len()) == needle;
    assert((a + b).subrange(a.len() + k, a.len() + k + needle.len()) =~= b.subrange(
        k,
        k + needle.len(),
    ));
}

/// What the left part of a concatenation holds, the whole holds.
pub proof fn lemma_contains_concat_right(a: Seq<char>, b: Seq<char>, needle: Seq<char>)
    requires
        spec_contains_seq(a, needle),
    ensures
        spec_contains_seq(a + b, needle),
{
    let k = choose|k: int|
        0 <= k && k + needle.len() <= a.len() && #[trigger] a.subrange(k, k + needle.len()) == needle;
    assert((a + b).subrange(k, k + needle.len()) =~= a.subrange(k, k + needle.len()));
}

/// What a piece of `hay` holds, `hay` holds.
pub proof fn lemma_contains_within(hay: Seq<char>, piece: Seq<char>, p: int, needle: Seq<char>)
    requires
        0 <= p,
        p + piece.len() <= hay.len(),
        hay.subrange(p, p + piece.len()) == piece,
        spec_contains_seq(piece, needle),
    ensures
        spec_contains_seq(hay, needle),
{
    let o = choose|o: int|
        0 <= o && o + needle.len() <= piece.len() && #[trigger] piece.subrange(o, o + needle.len()) == needle;
    assert(hay.subrange(p + o, p + o + needle.len()) =~= piece.subrange(o, o + needle.len()));
}

/// Trimming the end only shortens: the result is a prefix.
pub proof fn lemma_trim_end_prefix(s: Seq<char>)
    ensures
        spec_trim_end(s).len() <= s.len(),
        spec_trim_end(s) == s.take(spec_trim_end(s).len() as int),
    decreases s.len(),
{
    if s.len() > 0 && spec_is_space(s.last()) {
        lemma_trim_end_prefix(s.drop_last());
        assert(s.drop_last() =~= s.take(s.len() - 1));
        assert(s.drop_last().take(spec_trim_end(s).len() as int) =~= s.take(
            spec_trim_end(s).len() as int,
        ));
    } else {
        assert(s.take(s.len() as int) =~= s);
    }
}

/// Trimming the end keeps everything up to the last character that is not
/// white space.
pub proof fn lemma_trim_end_keeps(s: Seq<char>, q: int)
    requires
        0 <= q < s.len(),
        !spec_is_space(s[q]),
    ensures
        spec_trim_end(s).len() >= q + 1,
    decreases s.len(),
{
    if s.len() > 0 && spec_is_space(s.last()) {
        lemma_trim_end_keeps(s.drop_last(), q);
    }
}

/// A needle that does not end in white space survives trimming the end of
/// any string that holds it.
pub proof fn lemma_contains_trim_end(s: Seq<char>, needle: Seq<char>)
    requires
        spec_contains_seq(s, needle),
        needle.len() > 0,
        !spec_is_space(needle.last()),
    ensures
        spec_contains_seq(spec_trim_end(s), needle),
{
    let k = choose|k: int|
        0 <= k && k + needle.len() <= s.len() && #[trigger] s.subrange(k, k + needle.len()) == needle;
    assert(s[k + needle.len() - 1] == needle.last());
    lemma_trim_end_keeps(s, k + needle.len() - 1);
    lemma_trim_end_prefix(s);
    let trimmed = spec_trim_end(s);
    assert(trimmed.subrange(k, k + needle.len()) =~= s.subrange(k, k + needle.len()));
}

/// The digit character for a value below ten.
pub open spec fn spec_digit_char(d: int) -> char {
    if d == 0 {
        '0'
    } else if d == 1 {
        '1'
    } else if d == 2 {
        '2'
    } else if d == 3 {
        '3'
    } else if d == 4 {
        '4'
    } else if d == 5 {
        '5'
    } else if d == 6 {
        '6'
    } else if d == 7 {
        '7'
    } else if d == 8 {
        '8'
    } else {
        '9'
    }
}

/// The decimal rendering of a non-negative integer, most significant
/// digit first.
pub open spec fn spec_dec(n: int) -> Seq<char>
    decreases n,
{
    if n < 10 {
        seq![spec_digit_char(n)]
    } else {
        spec_dec(n / 10).push(spec_digit_char(n % 10))
    }
}

fn digit_str(d: u64) -> (r: &'static str)
    requires
        d < 10,
    ensures
        r@ == seq![spec_digit_char(d as int)],
{
    let r: &'static str = if d == 0 {
        "0"
    } else if d == 1 {
        "1"
    } else if d == 2 {
        "2"
    } else if d == 3 {
        "3"
    } else if d == 4 {
        "4"
    } else if d == 5 {
        "5"
    } else if d == 6 {
        "6"
    } else if d == 7 {
        "7"
    } else if d == 8 {
        "8"
    } else {
        "9"
    };
    proof {
        reveal_strlit("0");
        reveal_strlit("1");
        reveal_strlit("2");
        reveal_strlit("3");
        reveal_strlit("4");
        reveal_strlit("5");
        reveal_strlit("6");
        reveal_strlit("7");
        reveal_strlit("8");
        reveal_strlit("9");
        assert(r@ =~= seq![spec_digit_char(d as int)]);
    }
    r
}

/// Render an unsigned integer in decimal.
pub fn u64_to_string(n: u64) -> (r: String)
    ensures
        r@ == spec_dec(n as int),
    decreases n,
{
    if n < 10 {
        String::from_str(digit_str(n))
    } else {
        let mut r = u64_to_string(n / 10);
        r.append(digit_str(n % 10));
        proof {
            assert(r@ =~= spec_dec(n as int));
        }
        r
    }
}

} // verus!
