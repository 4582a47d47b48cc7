//! Verified helpers on strings: comparison, prefix tests, decimal
//! conversion. All of them work character by character so that their
//! contracts speak of the character sequences directly.

use vstd::prelude::*;

verus! {

/// Relies on std's `String::push`: appends the given char to the end of
/// the string.
pub assume_specification[ String::push ](s: &mut String, c: char)
    ensures
        final(s)@ == old(s)@.push(c),
;

/// `p` is a prefix of `s` (equality included).
pub open spec fn is_prefix_of(p: Seq<char>, s: Seq<char>) -> bool {
    p.len() <= s.len() && forall|i: int| 0 <= i < p.len() ==> s[i] == p[i]
}

/// Whether two strings hold the same characters.
pub fn str_eq(a: &str, b: &str) -> (r: bool)
    ensures
        r == (a@ == b@),
{
    let alen = a.unicode_len();
    let blen = b.unicode_len();
    if alen != blen {
        proof {
            assert(a@ != b@) by {
                if a@ == b@ {
                    assert(a@.len() == b@.len());
                }
            }
        }
        return false;
    }
    let mut i: usize = 0;
    while i < alen
        invariant
            i <= alen,
            alen == a@.len(),
            alen == b@.len(),
            forall|j: int| 0 <= j < i ==> a@[j] == b@[j],
        decreases alen - i,
    {
        if a.get_char(i) != b.get_char(i) {
            proof {
                assert(a@ != b@) by {
                    if a@ == b@ {
                        assert(a@[i as int] == b@[i as int]);
                    }
                }
            }
            return false;
        }
        i += 1;
    }
    proof {
        assert(a@ =~= b@);
    }
    true
}

/// Whether `p` is a prefix of `s`.
pub fn str_starts_with(s: &str, p: &str) -> (r: bool)
    ensures
        r == is_prefix_of(p@, s@),
{
    let slen = s.unicode_len();
    let plen = p.unicode_len();
    if plen > slen {
        return false;
    }
    let mut i: usize = 0;
    while i < plen
        invariant
            i <= plen,
            plen == p@.len(),
            slen == s@.len(),
            plen <= slen,
            forall|j: int| 0 <= j < i ==> s@[j] == p@[j],
        decreases plen - i,
    {
        if s.get_char(i) != p.get_char(i) {
            return false;
        }
        i += 1;
    }
    true
}

/// The code point of `c` with an ASCII capital letter mapped to its small
/// form; other characters are left as they are.
pub open spec fn lower_code(c: char) -> int {
    if 'A' <= c && c <= 'Z' {
        c as int + 32
    } else {
        c as int
    }
}

/// Character equality, optionally blind to ASCII case.
pub open spec fn char_matches(a: char, b: char, ignore_case: bool) -> bool {
    if ignore_case {
        lower_code(a) == lower_code(b)
    } else {
        a == b
    }
}

/// String equality, optionally blind to ASCII case.
pub open spec fn str_matches_spec(a: Seq<char>, b: Seq<char>, ignore_case: bool) -> bool {
    a.len() == b.len() && forall|i: int| 0 <= i < a.len() ==> char_matches(a[i], b[i], ignore_case)
}

fn char_eq_cased(a: char, b: char, ignore_case: bool) -> (r: bool)
    ensures
        r == char_matches(a, b, ignore_case),
{
    if ignore_case {
        let au = a as u32;
        let bu = b as u32;
        let al = if 65 <= au && au <= 90 { au + 32 } else { au };
        let bl = if 65 <= bu && bu <= 90 { bu + 32 } else { bu };
        al == bl
    } else {
        a == b
    }
}

/// Whether the two strings match, optionally blind to ASCII case.
pub fn str_matches(a: &str, b: &str, ignore_case: bool) -> (r: bool)
    ensures
        r == str_matches_spec(a@, b@, ignore_case),
{
    let alen = a.unicode_len();
    let blen = b.unicode_len();
    if alen != blen {
        return false;
    }
    let mut i: usize = 0;
    while i < alen
        invariant
            i <= alen,
            alen == a@.len(),
            alen == b@.len(),
            forall|j: int| 0 <= j < i ==> char_matches(a@[j], b@[j], ignore_case),
        decreases alen - i,
    {
        if !char_eq_cased(a.get_char(i), b.get_char(i), ignore_case) {
            return false;
        }
        i += 1;
    }
    true
}

/// A decimal digit.
pub open spec fn is_digit(c: char) -> bool {
    '0' <= c && c <= '9'
}

/// The value of a sequence of decimal digits, most significant first.
pub open spec fn digits_value(s: Seq<char>) -> int
    decreases s.len(),
{
    if s.len() == 0 {
        0
    } else {
        digits_value(s.drop_last()) * 10 + (s.last() as int - '0' as int)
    }
}

/// What a decimal numeral denotes: `None` unless the string is one or more
/// digits whose value fits below the given bound.
pub open spec fn parse_decimal_spec(s: Seq<char>, bound: int) -> Option<int> {
    if s.len() > 0 && (forall|i: int| 0 <= i < s.len() ==> is_digit(s[i])) && digits_value(s)
        <= bound {
        Some(digits_value(s))
    } else {
        None
    }
}

proof fn lemma_digits_value_nonneg(s: Seq<char>)
    requires
        forall|i: int| 0 <= i < s.len() ==> is_digit(s[i]),
    ensures
        digits_value(s) >= 0,
    decreases s.len(),
{
    if s.len() > 0 {
        lemma_digits_value_nonneg(s.drop_last());
    }
}

proof fn lemma_digits_value_grows(s: Seq<char>, n: int)
    requires
        0 <= n <= s.len(),
        forall|i: int| 0 <= i < s.len() ==> is_digit(s[i]),
    ensures
        digits_value(s.take(n)) <= digits_value(s),
    decreases s.len() - n,
{
    if n < s.len() {
        lemma_digits_value_grows(s, n + 1);
        let t = s.take(n + 1);
        assert(t.drop_last() =~= s.take(n));
        assert(digits_value(t) == digits_value(s.take(n)) * 10 + (t.last() as int - '0' as int));
        lemma_digits_value_nonneg(s.take(n));
        assert(is_digit(t.last()));
    } else {
        assert(s.take(n) =~= s);
    }
}

/// Reads an unsigned 32-bit decimal numeral; `None` on anything else,
/// an overflowing numeral included.
pub fn parse_u32(s: &str) -> (r: Option<u32>)
    ensures
        match r {
            Some(v) => parse_decimal_spec(s@, u32::MAX as int) == Some(v as int),
            None => parse_decimal_spec(s@, u32::MAX as int) is None,
        },
{
    let len = s.unicode_len();
    if len == 0 {
        return None;
    }
    let mut acc: u32 = 0;
    let mut i: usize = 0;
    while i < len
        invariant
            i <= len,
            len == s@.len(),
            len > 0,
            forall|j: int| 0 <= j < i ==> is_digit(s@[j]),
            acc as int == digits_value(s@.take(i as int)),
        decreases len - i,
    {
        let c = s.get_char(i);
        if !('0' <= c && c <= '9') {
            return None;
        }
        let d: u32 = (c as u32) - 48;
        if acc > (u32::MAX - d) / 10 {
            proof {
                assert(s@.take(i as int + 1).drop_last() =~= s@.take(i as int));
                assert(digits_value(s@.take(i as int + 1)) == acc as int * 10 + d);
                assert(acc as int * 10 + d > u32::MAX as int) by {
                    assert(acc as int >= (u32::MAX - d) as int / 10 + 1);
                    assert(((u32::MAX - d) as int / 10 + 1) * 10 >= (u32::MAX - d) as int + 1)
                        by (nonlinear_arith);
                    assert(acc as int * 10 >= ((u32::MAX - d) as int / 10 + 1) * 10)
                        by (nonlinear_arith)
                    requires
                        acc as int >= (u32::MAX - d) as int / 10 + 1,
                    ;
                };
                if forall|j: int| 0 <= j < s@.len() ==> is_digit(s@[j]) {
                    lemma_digits_value_grows(s@, i as int + 1);
                }
            }
            return None;
        }
        proof {
            assert(s@.take(i as int + 1).drop_last() =~= s@.take(i as int));
            assert(acc as int * 10 + d <= u32::MAX as int) by {
                assert(acc as int <= (u32::MAX - d) as int / 10);
                assert(((u32::MAX - d) as int / 10) * 10 <= (u32::MAX - d) as int)
                    by (nonlinear_arith);
                assert(acc as int * 10 <= ((u32::MAX - d) as int / 10) * 10) by (nonlinear_arith)
                    requires
                        acc as int <= (u32::MAX - d) as int / 10,
                ;
            };
        }
        acc = acc * 10 + d;
        i += 1;
    }
    proof {
        assert(s@.take(len as int) =~= s@);
    }
    Some(acc)
}

/// Reads an unsigned decimal numeral into a `usize`; `None` on anything
/// else, an overflowing numeral included.
pub fn parse_usize(s: &str) -> (r: Option<usize>)
    ensures
        match r {
            Some(v) => parse_decimal_spec(s@, usize::MAX as int) == Some(v as int),
            None => parse_decimal_spec(s@, usize::MAX as int) is None,
        },
{
    let len = s.unicode_len();
    if len == 0 {
        return None;
    }
    let mut acc: usize = 0;
    let mut i: usize = 0;
    while i < len
        invariant
            i <= len,
            len == s@.len(),
            len > 0,
            forall|j: int| 0 <= j < i ==> is_digit(s@[j]),
            acc as int == digits_value(s@.take(i as int)),
        decreases len - i,
    {
        let c = s.get_char(i);
        if !('0' <= c && c <= '9') {
            return None;
        }
        let d: usize = ((c as u32) - 48) as usize;
        if acc > (usize::MAX - d) / 10 {
            proof {
                assert(s@.take(i as int + 1).drop_last() =~= s@.take(i as int));
                assert(digits_value(s@.take(i as int + 1)) == acc as int * 10 + d);
                assert(acc as int * 10 + d > usize::MAX as int) by {
                    assert(acc as int >= (usize::MAX - d) as int / 10 + 1);
                    assert(((usize::MAX - d) as int / 10 + 1) * 10 >= (usize::MAX - d) as int + 1)
                        by (nonlinear_arith);
                    assert(acc as int * 10 >= ((usize::MAX - d) as int / 10 + 1) * 10)
                        by (nonlinear_arith)
                    requires
                        acc as int >= (usize::MAX - d) as int / 10 + 1,
                    ;
                };
                if forall|j: int| 0 <= j < s@.len() ==> is_digit(s@[j]) {
                    lemma_digits_value_grows(s@, i as int + 1);
                }
            }
            return None;
        }
        proof {
            assert(s@.take(i as int + 1).drop_last() =~= s@.take(i as int));
            assert(acc as int * 10 + d <= usize::MAX as int) by {
                assert(acc as int <= (usize::MAX - d) as int / 10);
                assert(((usize::MAX - d) as int / 10) * 10 <= (usize::MAX - d) as int)
                    by (nonlinear_arith);
                assert(acc as int * 10 <= ((usize::MAX - d) as int / 10) * 10) by (nonlinear_arith)
                    requires
                        acc as int <= (usize::MAX - d) as int / 10,
                ;
            };
        }
        acc = acc * 10 + d;
        i += 1;
    }
    proof {
        assert(s@.take(len as int) =~= s@);
    }
    Some(acc)
}

/// The digit character of a value below ten.
pub open spec fn digit_char(d: int) -> char {
    if d == 0 {
        '0'
    } else if d == 1 {
        '1'
    } else if d == 2 {
        '2'
    } else if d == 3 {
        '3'
    } else if d == 4 {
        '4'
    } else if d == 5 {
        '5'
    } else if d == 6 {
        '6'
    } else if d == 7 {
        '7'
    } else if d == 8 {
        '8'
    } else {
        '9'
    }
}

/// The decimal numeral of a nonnegative value, most significant digit
/// first.
pub open spec fn dec_str(n: int) -> Seq<char>
    decreases n,
{
    if n <= 0 {
        seq!['0']
    } else if n < 10 {
        seq![digit_char(n)]
    } else {
        dec_str(n / 10).push(digit_char(n % 10))
    }
}

fn push_digit(s: &mut String, d: u32)
    requires
        d < 10,
    ensures
        final(s)@ == old(s)@.push(digit_char(d as int)),
{
    let c: char = match d {
        0 => '0',
        1 => '1',
        2 => '2',
        3 => '3',
        4 => '4',
        5 => '5',
        6 => '6',
        7 => '7',
        8 => '8',
        _ => '9',
    };
    s.push(c);
}

fn append_u32_dec(s: &mut String, n: u32)
    ensures
        final(s)@ == old(s)@ + dec_str(n as int),
    decreases n,
{
    if n < 10 {
        push_digit(s, n);
        proof {
            assert(final(s)@ =~= old(s)@ + dec_str(n as int));
        }
    } else {
        append_u32_dec(s, n / 10);
        push_digit(s, n % 10);
        proof {
            assert(final(s)@ =~= old(s)@ + dec_str(n as int));
        }
    }
}

/// The decimal numeral of `n`.
pub fn u32_to_string(n: u32) -> (r: String)
    ensures
        r@ == dec_str(n as int),
{
    let mut s = String::new();
    append_u32_dec(&mut s, n);
    proof {
        assert(s@ =~= dec_str(n as int));
    }
    s
}

} // verus!
