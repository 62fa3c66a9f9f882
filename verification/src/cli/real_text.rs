//! The text of a real number, in the syntax that `f64`'s `FromStr` accepts.
//!
//! The standard library documents that syntax as a grammar: an optional sign,
//! then `inf`, `infinity`, `nan` or a decimal number with an optional
//! exponent, letters in any case. The value itself is computed by the caller;
//! here the text is checked.

use crate::cli::parser::{all_digits, is_ascii_digit};
use vstd::prelude::*;

verus! {

/// `c` is the letter or sign `lower`, or the upper-case form of a lower-case
/// ASCII letter `lower`.
pub open spec fn same_letter(c: char, lower: char) -> bool {
    c == lower || ('a' <= lower && lower <= 'z' && c as u32 == lower as u32 - 32)
}

/// `s` spells `word` (written in lower case), each letter in either case.
pub open spec fn spells(s: Seq<char>, word: Seq<char>) -> bool {
    s.len() == word.len() && forall|k: int| 0 <= k < s.len() ==> same_letter(#[trigger] s[k], word[k])
}

/// A sign in front of a number or an exponent.
pub open spec fn is_sign(c: char) -> bool {
    c == '+' || c == '-'
}

/// `s` without its leading sign, if it has one.
pub open spec fn unsigned_part(s: Seq<char>) -> Seq<char> {
    if s.len() > 0 && is_sign(s[0]) {
        s.drop_first()
    } else {
        s
    }
}

/// The letter that starts an exponent.
pub open spec fn is_exponent_mark(c: char) -> bool {
    c == 'e' || c == 'E'
}

/// The position of the first exponent mark in `s`, or its length when there
/// is none.
pub open spec fn mark_pos(s: Seq<char>) -> nat
    decreases s.len(),
{
    if s.len() == 0 {
        0
    } else if is_exponent_mark(s[0]) {
        0
    } else {
        1 + mark_pos(s.drop_first())
    }
}

/// Digits with at most one decimal point, and at least one digit.
pub open spec fn is_mantissa(m: Seq<char>) -> bool {
    &&& forall|k: int| 0 <= k < m.len() ==> is_ascii_digit(#[trigger] m[k]) || m[k] == '.'
    &&& forall|j: int, k: int| 0 <= j < k < m.len() && #[trigger] m[j] == '.' ==> #[trigger] m[k] != '.'
    &&& exists|k: int| 0 <= k < m.len() && is_ascii_digit(#[trigger] m[k])
}

/// An exponent after its mark: an optional sign, then one or more digits.
pub open spec fn is_exponent(x: Seq<char>) -> bool {
    unsigned_part(x).len() > 0 && all_digits(unsigned_part(x))
}

/// A decimal number without sign: a mantissa, then optionally an exponent
/// mark and an exponent.
pub open spec fn is_decimal(u: Seq<char>) -> bool {
    let p = mark_pos(u) as int;
    is_mantissa(u.take(p)) && (p == u.len() || is_exponent(u.skip(p + 1)))
}

/// `u` is infinity, written `inf` or `infinity`.
pub open spec fn is_infinity(u: Seq<char>) -> bool {
    spells(u, "inf"@) || spells(u, "infinity"@)
}

/// `u` is not-a-number, written `nan`.
pub open spec fn is_nan(u: Seq<char>) -> bool {
    spells(u, "nan"@)
}

/// The text of a real number, as `f64`'s `FromStr` accepts it: an optional
/// sign, then infinity, not-a-number or a decimal number.
pub open spec fn is_real_text(s: Seq<char>) -> bool {
    let u = unsigned_part(s);
    is_infinity(u) || is_nan(u) || is_decimal(u)
}

/// A digit other than zero.
pub open spec fn is_nonzero_digit(c: char) -> bool {
    is_ascii_digit(c) && c as u32 != 0x30
}

/// The text of a real number that is greater than zero: no minus sign, not
/// not-a-number, and infinity or a mantissa with a digit other than zero.
pub open spec fn is_positive_real_text(s: Seq<char>) -> bool {
    let u = unsigned_part(s);
    &&& is_real_text(s)
    &&& !(s.len() > 0 && s[0] == '-')
    &&& is_infinity(u) || (is_decimal(u) && exists|k: int|
        0 <= k < mark_pos(u) && is_nonzero_digit(#[trigger] u[k]))
}

/// The value of the digits of a mantissa, its decimal point left out.
pub open spec fn mantissa_digits_value(m: Seq<char>) -> nat
    decreases m.len(),
{
    if m.len() == 0 {
        0
    } else if m.last() == '.' {
        mantissa_digits_value(m.drop_last())
    } else {
        mantissa_digits_value(m.drop_last()) * 10 + (m.last() as u32 - 0x30) as nat
    }
}

/// A plain decimal numeral without sign or exponent: ASCII digits with at
/// most one decimal point, and at least one digit.
pub open spec fn is_plain_decimal(u: Seq<char>) -> bool {
    &&& forall|k: int| 0 <= k < u.len() ==> is_ascii_digit(#[trigger] u[k]) || u[k] == '.'
    &&& forall|j: int, k: int| 0 <= j < k < u.len() && #[trigger] u[j] == '.' ==> #[trigger] u[k] != '.'
    &&& exists|k: int| 0 <= k < u.len() && is_ascii_digit(#[trigger] u[k])
}

/// Digits and points make a positive value exactly when one digit is not
/// zero.
proof fn lemma_mantissa_value_positive(m: Seq<char>)
    requires
        forall|k: int| 0 <= k < m.len() ==> is_ascii_digit(#[trigger] m[k]) || m[k] == '.',
    ensures
        mantissa_digits_value(m) > 0 <==> exists|k: int|
            0 <= k < m.len() && is_nonzero_digit(#[trigger] m[k]),
    decreases m.len(),
{
    if m.len() > 0 {
        let d = m.drop_last();
        assert forall|k: int| 0 <= k < d.len() implies is_ascii_digit(#[trigger] d[k]) || d[k] == '.' by {
            assert(d[k] == m[k]);
        }
        lemma_mantissa_value_positive(d);
        if exists|k: int| 0 <= k < d.len() && is_nonzero_digit(#[trigger] d[k]) {
            let k = choose|k: int| 0 <= k < d.len() && is_nonzero_digit(#[trigger] d[k]);
            assert(m[k] == d[k]);
        }
        if exists|k: int| 0 <= k < m.len() && is_nonzero_digit(#[trigger] m[k]) {
            let k = choose|k: int| 0 <= k < m.len() && is_nonzero_digit(#[trigger] m[k]);
            if k < d.len() {
                assert(d[k] == m[k]);
            }
        }
        let last = m.last();
        assert(is_ascii_digit(m[m.len() - 1]) || m[m.len() - 1] == '.');
        let v = mantissa_digits_value(d);
        if last != '.' {
            if last as u32 == 0x30 {
                assert(mantissa_digits_value(m) == v * 10);
                assert(!is_nonzero_digit(m[m.len() - 1]));
                assert(v > 0 ==> v * 10 > 0);
                if exists|k: int| 0 <= k < m.len() && is_nonzero_digit(#[trigger] m[k]) {
                    let k = choose|k: int| 0 <= k < m.len() && is_nonzero_digit(#[trigger] m[k]);
                    assert(k < d.len());
                    assert(d[k] == m[k]);
                }
            } else {
                assert(is_nonzero_digit(m[m.len() - 1]));
                assert(mantissa_digits_value(m) >= 1);
            }
        } else {
            assert(!is_nonzero_digit(m[m.len() - 1]));
            if exists|k: int| 0 <= k < m.len() && is_nonzero_digit(#[trigger] m[k]) {
                let k = choose|k: int| 0 <= k < m.len() && is_nonzero_digit(#[trigger] m[k]);
                assert(k < d.len());
                assert(d[k] == m[k]);
            }
        }
    }
}

/// A plain decimal numeral is the text of a real number, with or without a
/// sign. It is greater than zero exactly when the value of its digits is,
/// wherever its non-zero digit stands, and it has no minus sign.
pub proof fn lemma_plain_decimal_positive(u: Seq<char>)
    requires
        is_plain_decimal(u),
    ensures
        is_real_text(u),
        is_real_text(seq!['+'] + u),
        is_real_text(seq!['-'] + u),
        is_positive_real_text(u) <==> mantissa_digits_value(u) > 0,
        is_positive_real_text(seq!['+'] + u) <==> mantissa_digits_value(u) > 0,
        !is_positive_real_text(seq!['-'] + u),
{
    reveal_strlit("inf");
    reveal_strlit("infinity");
    reveal_strlit("nan");
    let k0 = choose|k: int| 0 <= k < u.len() && is_ascii_digit(#[trigger] u[k]);
    assert(u.len() > 0);
    assert(is_ascii_digit(u[0]) || u[0] == '.');
    assert(!same_letter(u[0], 'i') && !same_letter(u[0], 'n'));
    assert(!is_infinity(u) && !is_nan(u));
    assert(!is_sign(u[0]));
    assert(unsigned_part(u) == u);
    assert forall|k: int| 0 <= k < u.len() implies !is_exponent_mark(#[trigger] u[k]) by {
        assert(is_ascii_digit(u[k]) || u[k] == '.');
    }
    lemma_mark_pos_unique(u, u.len() as int);
    assert(u.take(u.len() as int) =~= u);
    assert(is_decimal(u));
    lemma_mantissa_value_positive(u);
    let plus = seq!['+'] + u;
    let minus = seq!['-'] + u;
    assert(unsigned_part(plus) =~= u);
    assert(unsigned_part(minus) =~= u);
    assert(plus[0] == '+' && minus[0] == '-');
}

/// A plain decimal numeral followed by an exponent (`e` or `E`, an optional
/// sign and one or more digits) is the text of a real number; whatever the
/// exponent, it is greater than zero exactly when the value of the digits
/// before the exponent is.
pub proof fn lemma_plain_decimal_with_exponent(u: Seq<char>, mark: char, sign: Seq<char>, x: Seq<char>)
    requires
        is_plain_decimal(u),
        mark == 'e' || mark == 'E',
        sign == Seq::<char>::empty() || sign == seq!['+'] || sign == seq!['-'],
        x.len() > 0,
        all_digits(x),
    ensures
        is_real_text(u + seq![mark] + sign + x),
        is_positive_real_text(u + seq![mark] + sign + x) <==> mantissa_digits_value(u) > 0,
{
    reveal_strlit("inf");
    reveal_strlit("infinity");
    reveal_strlit("nan");
    let v = u + seq![mark] + sign + x;
    let k0 = choose|k: int| 0 <= k < u.len() && is_ascii_digit(#[trigger] u[k]);
    assert(u.len() > 0);
    assert(v[0] == u[0]);
    assert(is_ascii_digit(u[0]) || u[0] == '.');
    assert(!same_letter(v[0], 'i') && !same_letter(v[0], 'n'));
    assert(!is_infinity(v) && !is_nan(v));
    assert(!is_sign(v[0]));
    assert(unsigned_part(v) == v);
    assert forall|k: int| 0 <= k < u.len() implies !is_exponent_mark(#[trigger] v[k]) by {
        assert(v[k] == u[k]);
        assert(is_ascii_digit(u[k]) || u[k] == '.');
    }
    assert(v[u.len() as int] == mark);
    lemma_mark_pos_unique(v, u.len() as int);
    assert(v.take(u.len() as int) =~= u);
    let e = v.skip(u.len() as int + 1);
    assert(e =~= sign + x);
    if sign.len() == 0 {
        assert(e =~= x);
        assert(!is_sign(x[0]));
        assert(unsigned_part(e) == x);
    } else {
        assert(is_sign(e[0]));
        assert(unsigned_part(e) =~= x);
    }
    assert(is_exponent(e));
    assert(is_decimal(v));
    lemma_mantissa_value_positive(u);
    if exists|k: int| 0 <= k < u.len() && is_nonzero_digit(#[trigger] u[k]) {
        let k = choose|k: int| 0 <= k < u.len() && is_nonzero_digit(#[trigger] u[k]);
        assert(v[k] == u[k]);
    }
    if exists|k: int| 0 <= k < mark_pos(v) && is_nonzero_digit(#[trigger] v[k]) {
        let k = choose|k: int| 0 <= k < mark_pos(v) && is_nonzero_digit(#[trigger] v[k]);
        assert(v[k] == u[k]);
    }
}

/// The first exponent mark is at `mark_pos`, and none is before it.
proof fn lemma_mark_pos(s: Seq<char>)
    ensures
        mark_pos(s) <= s.len(),
        forall|k: int| 0 <= k < mark_pos(s) ==> !is_exponent_mark(#[trigger] s[k]),
        mark_pos(s) < s.len() ==> is_exponent_mark(s[mark_pos(s) as int]),
    decreases s.len(),
{
    if s.len() > 0 && !is_exponent_mark(s[0]) {
        lemma_mark_pos(s.drop_first());
        assert forall|k: int| 0 <= k < mark_pos(s) implies !is_exponent_mark(#[trigger] s[k]) by {
            if k > 0 {
                assert(s[k] == s.drop_first()[k - 1]);
            }
        }
    }
}

/// A position with no exponent mark before it, and a mark or the end at it,
/// is `mark_pos`.
proof fn lemma_mark_pos_unique(s: Seq<char>, p: int)
    requires
        0 <= p <= s.len(),
        forall|k: int| 0 <= k < p ==> !is_exponent_mark(#[trigger] s[k]),
        p < s.len() ==> is_exponent_mark(s[p]),
    ensures
        mark_pos(s) == p,
{
    lemma_mark_pos(s);
    if mark_pos(s) < p {
        assert(!is_exponent_mark(s[mark_pos(s) as int]));
    } else if mark_pos(s) > p {
        assert(!is_exponent_mark(s[p]));
    }
}

/// Whether `s[start..]` spells `word`.
fn spells_from(s: &Vec<char>, start: usize, word: &str) -> (r: bool)
    requires
        start <= s.len(),
    ensures
        r == spells(s@.skip(start as int), word@),
{
    let w = crate::cli::parser::chars_of(word);
    if s.len() - start != w.len() {
        return false;
    }
    let mut i: usize = 0;
    while i < w.len()
        invariant
            start <= s.len(),
            w@ == word@,
            s.len() - start == w.len(),
            i <= w.len(),
            forall|k: int| 0 <= k < i ==> same_letter(#[trigger] s@.skip(start as int)[k], w@[k]),
        decreases w.len() - i,
    {
        let c = s[start + i];
        let l = w[i];
        let same = c == l || ('a' <= l && l <= 'z' && (c as u32) == (l as u32) - 32);
        if !same {
            assert(!same_letter(s@.skip(start as int)[i as int], w@[i as int]));
            return false;
        }
        assert(same_letter(s@.skip(start as int)[i as int], w@[i as int]));
        i += 1;
    }
    true
}

/// Whether `c` is an ASCII decimal digit.
fn is_digit_char(c: char) -> (r: bool)
    ensures
        r == is_ascii_digit(c),
{
    '0' <= c && c <= '9'
}

/// Whether `s[start..end]` is a mantissa, and whether it holds a digit other
/// than zero.
fn check_mantissa(s: &Vec<char>, start: usize, end: usize) -> (r: (bool, bool))
    requires
        start <= end <= s.len(),
    ensures
        r.0 == is_mantissa(s@.subrange(start as int, end as int)),
        r.0 ==> (r.1 <==> exists|k: int|
            start <= k < end && is_nonzero_digit(#[trigger] s@[k])),
{
    let ghost m = s@.subrange(start as int, end as int);
    let mut dot = false;
    let mut digit = false;
    let mut nonzero = false;
    let mut i = start;
    while i < end
        invariant
            start <= i <= end <= s.len(),
            m == s@.subrange(start as int, end as int),
            forall|k: int| start <= k < i ==> is_ascii_digit(#[trigger] s@[k]) || s@[k] == '.',
            dot <==> exists|k: int| start <= k < i && #[trigger] s@[k] == '.',
            forall|j: int, k: int| start <= j < k < i && #[trigger] s@[j] == '.' ==> #[trigger] s@[k] != '.',
            digit <==> exists|k: int| start <= k < i && is_ascii_digit(#[trigger] s@[k]),
            nonzero <==> exists|k: int| start <= k < i && is_nonzero_digit(#[trigger] s@[k]),
        decreases end - i,
    {
        let c = s[i];
        if c == '.' {
            if dot {
                let ghost j = choose|j: int| start <= j < i && #[trigger] s@[j] == '.';
                assert(m[j - start] == '.' && m[i - start] == '.');
                return (false, false);
            }
            dot = true;
        } else if is_digit_char(c) {
            digit = true;
            if (c as u32) != 0x30 {
                nonzero = true;
            }
        } else {
            assert(!(is_ascii_digit(m[i - start]) || m[i - start] == '.'));
            return (false, false);
        }
        i += 1;
    }
    proof {
        assert forall|k: int| 0 <= k < m.len() implies is_ascii_digit(#[trigger] m[k]) || m[k] == '.' by {
            assert(m[k] == s@[start + k]);
        }
        assert forall|j: int, k: int| 0 <= j < k < m.len() && #[trigger] m[j] == '.' implies #[trigger] m[k] != '.' by {
            assert(m[j] == s@[start + j] && m[k] == s@[start + k]);
        }
        if digit {
            let k = choose|k: int| start <= k < i && is_ascii_digit(#[trigger] s@[k]);
            assert(m[k - start] == s@[k]);
        } else {
            assert forall|k: int| 0 <= k < m.len() implies !is_ascii_digit(#[trigger] m[k]) by {
                assert(m[k] == s@[start + k]);
            }
        }
    }
    (digit, nonzero)
}

/// Whether `s[start..]` is an exponent.
fn check_exponent(s: &Vec<char>, start: usize) -> (r: bool)
    requires
        start <= s.len(),
    ensures
        r == is_exponent(s@.skip(start as int)),
{
    let ghost x = s@.skip(start as int);
    let mut i = start;
    if i < s.len() && (s[i] == '+' || s[i] == '-') {
        i += 1;
    }
    let ghost u = unsigned_part(x);
    assert(u =~= s@.skip(i as int));
    if i == s.len() {
        assert(u.len() == 0);
        return false;
    }
    let first = i;
    while i < s.len()
        invariant
            first <= i <= s.len(),
            u == s@.skip(first as int),
            u == unsigned_part(x),
            x == s@.skip(start as int),
            forall|k: int| first <= k < i ==> is_ascii_digit(#[trigger] s@[k]),
        decreases s.len() - i,
    {
        if !is_digit_char(s[i]) {
            assert(u[i - first] == s@[i as int]);
            assert(!is_ascii_digit(u[i - first]));
            assert(!all_digits(u));
            return false;
        }
        i += 1;
    }
    assert forall|k: int| 0 <= k < u.len() implies is_ascii_digit(#[trigger] u[k]) by {
        assert(u[k] == s@[first + k]);
    }
    true
}

/// What the text `s` is, as a real number: `None` when it is not the text of
/// a real number; otherwise whether that number is greater than zero, by
/// [`is_positive_real_text`].
pub fn real_text_kind(s: &Vec<char>) -> (r: Option<bool>)
    ensures
        match r {
            Some(positive) => is_real_text(s@) && positive == is_positive_real_text(s@),
            None => !is_real_text(s@),
        },
{
    let negative = s.len() > 0 && s[0] == '-';
    let start: usize = if s.len() > 0 && (s[0] == '+' || s[0] == '-') {
        1
    } else {
        0
    };
    let ghost u = unsigned_part(s@);
    assert(u =~= s@.skip(start as int));
    if spells_from(s, start, "inf") || spells_from(s, start, "infinity") {
        return Some(!negative);
    }
    if spells_from(s, start, "nan") {
        proof {
            reveal_strlit("nan");
            reveal_strlit("inf");
            reveal_strlit("infinity");
            assert(same_letter(u[0], 'n'));
            assert(!same_letter(u[0], 'i'));
            assert(!is_ascii_digit(u[0]) && u[0] != '.');
            lemma_mark_pos(u);
            if mark_pos(u) > 0 {
                assert(!is_mantissa(u.take(mark_pos(u) as int)));
            } else {
                assert(!is_mantissa(u.take(0)));
            }
        }
        return Some(false);
    }
    let mut p = start;
    while p < s.len() && !(s[p] == 'e' || s[p] == 'E')
        invariant
            start <= p <= s.len(),
            forall|k: int| start <= k < p ==> !is_exponent_mark(#[trigger] s@[k]),
        decreases s.len() - p,
    {
        p += 1;
    }
    proof {
        assert forall|k: int| 0 <= k < p - start implies !is_exponent_mark(#[trigger] u[k]) by {
            assert(u[k] == s@[start + k]);
        }
        if p < s.len() {
            assert(u[p - start] == s@[p as int]);
        }
        lemma_mark_pos_unique(u, p - start);
        assert(u.take(p - start) =~= s@.subrange(start as int, p as int));
    }
    let (mantissa, nonzero) = check_mantissa(s, start, p);
    if !mantissa {
        return None;
    }
    if p < s.len() {
        let exponent = check_exponent(s, p + 1);
        assert(u.skip(p - start + 1) =~= s@.skip(p + 1));
        if !exponent {
            return None;
        }
    }
    proof {
        if nonzero {
            let k = choose|k: int| start <= k < p && is_nonzero_digit(#[trigger] s@[k]);
            assert(u[k - start] == s@[k]);
        } else {
            assert forall|k: int| 0 <= k < mark_pos(u) implies !is_nonzero_digit(#[trigger] u[k]) by {
                assert(u[k] == s@[start + k]);
            }
        }
    }
    Some(nonzero && !negative)
}

} // verus!
