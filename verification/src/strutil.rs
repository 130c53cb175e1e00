//! Small verified string utilities: equality, case folding, substring
//! search, and decimal parsing/rendering used throughout the engine.

use vstd::prelude::*;

verus! {

/// Character-for-character equality of two string slices.
pub fn str_eq(a: &str, b: &str) -> (r: bool)
    ensures
        r == (a@ == b@),
{
    let a_len = a.unicode_len();
    let b_len = b.unicode_len();
    if a_len != b_len {
        assert(a@ != b@);
        return false;
    }
    let mut i: usize = 0;
    while i < a_len
        invariant
            i <= a_len,
            a_len == a@.len(),
            a_len == b@.len(),
            forall|j: int| 0 <= j < i ==> a@[j] == b@[j],
        decreases a_len - i,
    {
        if a.get_char(i) != b.get_char(i) {
            return false;
        }
        i += 1;
    }
    proof {
        assert(a@ =~= b@);
    }
    true
}

/// The code of a character with an ASCII capital folded to its small form.
pub open spec fn lower_code(c: char) -> u32 {
    if 65 <= c as u32 && c as u32 <= 90 {
        (c as u32 + 32) as u32
    } else {
        c as u32
    }
}

/// Case-insensitive character equality (ASCII case folding).
pub open spec fn chars_eq_ci(a: char, b: char) -> bool {
    lower_code(a) == lower_code(b)
}

fn char_eq_ci(a: char, b: char) -> (r: bool)
    ensures
        r == chars_eq_ci(a, b),
{
    let ac = a as u32;
    let bc = b as u32;
    let al = if 65 <= ac && ac <= 90 {
        ac + 32
    } else {
        ac
    };
    let bl = if 65 <= bc && bc <= 90 {
        bc + 32
    } else {
        bc
    };
    al == bl
}

/// Case-insensitive equality of two character sequences.
pub open spec fn seq_eq_ci(a: Seq<char>, b: Seq<char>) -> bool {
    a.len() == b.len() && forall|i: int| 0 <= i < a.len() ==> chars_eq_ci(#[trigger] a[i], b[i])
}

/// `needle` occurs case-insensitively in `hay` starting at `k`.
pub open spec fn contains_ci_at(hay: Seq<char>, needle: Seq<char>, k: int) -> bool {
    0 <= k && k + needle.len() <= hay.len() && seq_eq_ci(
        hay.subrange(k, k + needle.len() as int),
        needle,
    )
}

/// `needle` occurs case-insensitively somewhere in `hay`.
pub open spec fn contains_ci(hay: Seq<char>, needle: Seq<char>) -> bool {
    exists|k: int| contains_ci_at(hay, needle, k)
}

/// Case-insensitive substring search.
pub fn str_contains_ci(hay: &str, needle: &str) -> (r: bool)
    ensures
        r == contains_ci(hay@, needle@),
{
    let h = hay.unicode_len();
    let n = needle.unicode_len();
    if n > h {
        assert forall|k: int| !contains_ci_at(hay@, needle@, k) by {}
        return false;
    }
    let mut k: usize = 0;
    while k <= h - n
        invariant
            n <= h,
            h == hay@.len(),
            n == needle@.len(),
            k <= h - n + 1,
            forall|k0: int| 0 <= k0 < k ==> !contains_ci_at(hay@, needle@, k0),
        decreases h + 1 - n - k,
    {
        let mut j: usize = 0;
        let mut all_match = true;
        while j < n
            invariant
                n <= h,
                h == hay@.len(),
                n == needle@.len(),
                k <= h - n,
                j <= n,
                all_match == forall|j0: int|
                    0 <= j0 < j ==> chars_eq_ci(#[trigger] hay@[k + j0], needle@[j0]),
            decreases n - j,
        {
            if !char_eq_ci(hay.get_char(k + j), needle.get_char(j)) {
                all_match = false;
                proof {
                    assert(!chars_eq_ci(hay@[k + j], needle@[j as int]));
                }
                j = n;
            } else {
                proof {
                    if all_match {
                        assert forall|j0: int|
                            0 <= j0 < j + 1 implies chars_eq_ci(
                            #[trigger] hay@[k + j0],
                            needle@[j0],
                        ) by {}
                    }
                }
                j += 1;
            }
        }
        if all_match {
            proof {
                let sub = hay@.subrange(k as int, k + n as int);
                assert forall|i: int| 0 <= i < n implies chars_eq_ci(
                    #[trigger] sub[i],
                    needle@[i],
                ) by {
                    assert(sub[i] == hay@[k + i]);
                }
                assert(contains_ci_at(hay@, needle@, k as int));
            }
            return true;
        }
        proof {
            assert(exists|j0: int|
                0 <= j0 < n && !chars_eq_ci(#[trigger] hay@[k + j0], needle@[j0]));
            let j0 = choose|j0: int|
                0 <= j0 < n && !chars_eq_ci(#[trigger] hay@[k + j0], needle@[j0]);
            assert(hay@.subrange(k as int, k + n as int)[j0] == hay@[k + j0]);
            assert(!contains_ci_at(hay@, needle@, k as int));
        }
        k += 1;
    }
    proof {
        assert forall|k0: int| !contains_ci_at(hay@, needle@, k0) by {
            if 0 <= k0 && k0 + needle@.len() <= hay@.len() {
                assert(k0 < k);
            }
        }
    }
    false
}

/// Case-insensitive equality of two string slices.
pub fn str_eq_ci(a: &str, b: &str) -> (r: bool)
    ensures
        r == seq_eq_ci(a@, b@),
{
    let a_len = a.unicode_len();
    let b_len = b.unicode_len();
    if a_len != b_len {
        return false;
    }
    let mut i: usize = 0;
    while i < a_len
        invariant
            i <= a_len,
            a_len == a@.len(),
            a_len == b@.len(),
            forall|j: int| 0 <= j < i ==> chars_eq_ci(#[trigger] a@[j], b@[j]),
        decreases a_len - i,
    {
        if !char_eq_ci(a.get_char(i), b.get_char(i)) {
            return false;
        }
        i += 1;
    }
    true
}

/// A decimal digit.
pub open spec fn is_digit(c: char) -> bool {
    48 <= c as u32 && c as u32 <= 57
}

/// A digit's numeric value.
pub open spec fn digit_val(c: char) -> int {
    c as u32 - 48
}

/// The character of one digit value.
pub open spec fn digit_char(d: int) -> char
    recommends
        0 <= d <= 9,
{
    ((48 + d) as u32) as char
}

/// The number a digit string denotes.
pub open spec fn digits_value(s: Seq<char>) -> int
    decreases s.len(),
{
    if s.len() == 0 {
        0
    } else {
        digits_value(s.drop_last()) * 10 + digit_val(s.last())
    }
}

/// The digit part of a decimal string: an optional leading plus sign is
/// stripped.
pub open spec fn decimal_digits_of(s: Seq<char>) -> Seq<char> {
    if s.len() > 0 && s[0] == '+' {
        s.subrange(1, s.len() as int)
    } else {
        s
    }
}

/// A well-formed unsigned decimal string: an optional plus sign, then at
/// least one digit.
pub open spec fn is_decimal_string(s: Seq<char>) -> bool {
    let digits = decimal_digits_of(s);
    digits.len() > 0 && forall|i: int| 0 <= i < digits.len() ==> is_digit(#[trigger] digits[i])
}

/// A digit string's value only grows as digits are appended.
proof fn lemma_digits_value_nonneg(s: Seq<char>)
    requires
        forall|i: int| 0 <= i < s.len() ==> is_digit(#[trigger] s[i]),
    ensures
        digits_value(s) >= 0,
    decreases s.len(),
{
    if s.len() > 0 {
        lemma_digits_value_nonneg(s.drop_last());
    }
}

proof fn lemma_digits_value_take_grows(s: Seq<char>, k: int)
    requires
        forall|i: int| 0 <= i < s.len() ==> is_digit(#[trigger] s[i]),
        0 <= k < s.len(),
    ensures
        digits_value(s.take(k + 1)) >= digits_value(s.take(k)),
{
    assert(s.take(k + 1).drop_last() =~= s.take(k));
    assert forall|i: int| 0 <= i < s.take(k).len() implies is_digit(#[trigger] s.take(k)[i]) by {
        assert(s.take(k)[i] == s[i]);
    }
    lemma_digits_value_nonneg(s.take(k));
    assert(digits_value(s.take(k + 1)) == digits_value(s.take(k)) * 10 + digit_val(s[k]));
}

proof fn lemma_digits_value_overflow(s: Seq<char>, k: int, bound: int)
    requires
        forall|i: int| 0 <= i < s.len() ==> is_digit(#[trigger] s[i]),
        0 <= k <= s.len(),
        digits_value(s.take(k)) > bound,
        bound >= 0,
    ensures
        digits_value(s) > bound,
    decreases s.len() - k,
{
    if k == s.len() {
        assert(s.take(k) =~= s);
    } else {
        lemma_digits_value_take_grows(s, k);
        lemma_digits_value_overflow(s, k + 1, bound);
    }
}

/// Parse an unsigned decimal timestamp string: an optional plus sign and
/// digits, rejecting anything else and any value beyond `u64::MAX`.
pub fn parse_u64(s: &str) -> (r: Option<u64>)
    ensures
        r is Some <==> (is_decimal_string(s@) && digits_value(decimal_digits_of(s@)) <= u64::MAX),
        r matches Some(v) ==> v as int == digits_value(decimal_digits_of(s@)),
{
    let len = s.unicode_len();
    let start: usize = if len > 0 && s.get_char(0) == '+' {
        1
    } else {
        0
    };
    let ghost digits = decimal_digits_of(s@);
    proof {
        assert(digits =~= s@.subrange(start as int, len as int));
    }
    if len == start {
        return None;
    }
    let mut acc: u64 = 0;
    let mut i: usize = start;
    while i < len
        invariant
            start <= i <= len,
            len == s@.len(),
            start < len,
            start == 0 || (start == 1 && s@[0] == '+'),
            digits == decimal_digits_of(s@),
            digits =~= s@.subrange(start as int, len as int),
            forall|j: int| 0 <= j < i - start ==> is_digit(#[trigger] digits[j]),
            acc as int == digits_value(digits.take(i - start)),
        decreases len - i,
    {
        let c = s.get_char(i);
        let code = c as u32;
        if code < 48 || code > 57 {
            proof {
                assert(digits[i - start] == s@[i as int]);
                assert(!is_digit(digits[i - start]));
            }
            return None;
        }
        let d = (code - 48) as u64;
        proof {
            assert(digits[i - start] == s@[i as int]);
            assert(digits.take(i - start + 1).drop_last() =~= digits.take(i - start));
        }
        if acc > (u64::MAX - d) / 10 {
            proof {
                assert(acc as int * 10 + d > u64::MAX) by {
                    let m = u64::MAX as int;
                    assert(acc as int >= (m - d) / 10 + 1);
                    assert(((m - d) / 10 + 1) * 10 > m - d) by (nonlinear_arith);
                    assert(acc as int * 10 >= ((m - d) / 10 + 1) * 10) by (nonlinear_arith)
                        requires
                            acc as int >= (m - d) / 10 + 1,
                    ;
                }
                assert(digits_value(digits.take(i - start + 1)) > u64::MAX);
                if is_decimal_string(s@) {
                    lemma_digits_value_overflow(digits, i - start + 1, u64::MAX as int);
                }
            }
            return None;
        }
        acc = acc * 10 + d;
        i += 1;
    }
    proof {
        assert(digits.take(len - start) =~= digits);
    }
    Some(acc)
}

/// The decimal rendering of a non-negative number.
pub open spec fn decimal_of(n: int) -> Seq<char>
    recommends
        n >= 0,
    decreases n,
{
    if n < 0 {
        Seq::empty()
    } else if n < 10 {
        seq![digit_char(n)]
    } else {
        decimal_of(n / 10).push(digit_char(n % 10))
    }
}

/// The decimal rendering of a signed number: a minus sign, then the digits.
pub open spec fn decimal_int_of(n: int) -> Seq<char> {
    if n < 0 {
        seq!['-'] + decimal_of(-n)
    } else {
        decimal_of(n)
    }
}

/// Relies on `u64`'s `Display` implementation: it renders the value's
/// decimal digits, most significant first, with no sign or padding.
#[verifier::external_body]
pub(crate) fn fmt_u64(n: u64) -> (r: String)
    ensures
        r@ == decimal_of(n as int),
{
    n.to_string()
}

/// Relies on `i64`'s `Display` implementation: a minus sign for a negative
/// value, then the decimal digits of its magnitude.
#[verifier::external_body]
pub(crate) fn fmt_i64(n: i64) -> (r: String)
    ensures
        r@ == decimal_int_of(n as int),
{
    n.to_string()
}

} // verus!
