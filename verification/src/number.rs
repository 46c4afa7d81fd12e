//! Numbers and clock times in texts, read in millionths.

use vstd::prelude::*;
use crate::json::{self, saturate_i64};
use crate::normalize;
use crate::quantity::{self, Quantity};
use crate::text;

verus! {

/// The value of a digit.
pub open spec fn digit_value(c: char) -> int {
    c as int - '0' as int
}

/// The number that some digits stand for.
pub open spec fn digits_value(s: Seq<char>) -> int
    decreases s.len(),
{
    if s.len() == 0 {
        0
    } else {
        digits_value(s.drop_last()) * 10 + digit_value(s.last())
    }
}

/// `v` followed by `k` zeros.
pub open spec fn shifted(v: int, k: nat) -> int
    decreases k,
{
    if k == 0 {
        v
    } else {
        shifted(v * 10, (k - 1) as nat)
    }
}

/// The nearest whole number to digits with a point behind the first `p` of
/// them; a half goes up. Zeros stand for digits that are not there.
pub open spec fn rounded_at(digits: Seq<char>, p: int) -> int {
    if p < 0 {
        0
    } else if p <= digits.len() {
        digits_value(digits.take(p)) + if p < digits.len() && digit_value(digits[p]) >= 5 {
            1int
        } else {
            0
        }
    } else {
        shifted(digits_value(digits), (p - digits.len()) as nat)
    }
}

/// Where `c` stands first in `s`; the length of `s` where it does not.
pub open spec fn index_of_char(s: Seq<char>, c: char) -> int
    decreases s.len(),
{
    if s.len() == 0 || s[0] == c {
        0
    } else {
        1 + index_of_char(s.drop_first(), c)
    }
}

/// The largest exponent that counts; a larger one is taken for it.
pub const MAX_EXPONENT: i64 = 1_000_000_000;

/// An exponent brought into the range that counts.
pub open spec fn exponent_clamp(n: int) -> int {
    if n > MAX_EXPONENT {
        MAX_EXPONENT as int
    } else if n < -MAX_EXPONENT {
        -MAX_EXPONENT as int
    } else {
        n
    }
}

/// Whether a text begins with a sign, and what is behind it.
pub open spec fn unsigned(s: Seq<char>) -> Seq<char> {
    if s.len() > 0 && (s[0] == '+' || s[0] == '-') {
        s.drop_first()
    } else {
        s
    }
}

pub open spec fn negative(s: Seq<char>) -> bool {
    s.len() > 0 && s[0] == '-'
}

/// An exponent: digits behind an optional sign.
pub open spec fn exponent_of(s: Seq<char>) -> Option<int> {
    let d = unsigned(s);
    if d.len() > 0 && normalize::digits_from(d, 0) {
        Some(
            exponent_clamp(
                if negative(s) {
                    -digits_value(d)
                } else {
                    digits_value(d)
                },
            ),
        )
    } else {
        None
    }
}

/// Where the exponent of a number begins.
pub open spec fn exponent_at(s: Seq<char>) -> int {
    let a = index_of_char(s, 'e');
    let b = index_of_char(s, 'E');
    if a < b {
        a
    } else {
        b
    }
}

/// The whole part of digits with a point behind the first `p` of them. Zeros
/// stand for digits that are not there.
pub open spec fn whole_at(digits: Seq<char>, p: int) -> int {
    if p <= 0 {
        0
    } else if p <= digits.len() {
        digits_value(digits.take(p))
    } else {
        shifted(digits_value(digits), (p - digits.len()) as nat)
    }
}

/// The digits of the least number that is beyond a double-precision number, which
/// is the 1024th power of two less its 970th: halfway from the greatest such
/// number to the next power of two.
pub const LIMIT_DIGITS: &'static str =
    "179769313486231580793728971405303415079934132710037826936173778980444968292764750946649017977587207096330286416692887910946555547851940402630657488671505820681908902000708383676273854845817711531764475730270069855571366959622842914819860834936475292719074168444365510704342711559699508093042880177904174497792";

/// The least number that is taken for infinite.
pub open spec fn infinite_from() -> int {
    digits_value(LIMIT_DIGITS@)
}

/// The digits of a decimal number without a sign, and behind how many of them its
/// point stands: digits with an optional point among them and an optional
/// exponent.
pub open spec fn number_parts(s: Seq<char>) -> Option<(Seq<char>, int)> {
    let x = exponent_at(s);
    let mantissa = s.take(x);
    let exponent = if x < s.len() {
        exponent_of(s.skip(x + 1))
    } else {
        Some(0int)
    };
    let point = index_of_char(mantissa, '.');
    let whole = mantissa.take(point);
    let part = if point < mantissa.len() {
        mantissa.skip(point + 1)
    } else {
        Seq::empty()
    };
    let digits = whole + part;
    if digits.len() > 0 && normalize::digits_from(digits, 0) && exponent is Some {
        Some((digits, whole.len() + exponent->0))
    } else {
        None
    }
}

/// A decimal number without a sign, in millionths, before it is brought into
/// range.
pub open spec fn number_of(s: Seq<char>) -> Option<int> {
    match number_parts(s) {
        Some((digits, p)) => Some(rounded_at(digits, p + 6)),
        None => None,
    }
}

/// Whether a decimal number without a sign is beyond a double-precision number.
pub open spec fn beyond_range(s: Seq<char>) -> bool {
    number_parts(s) matches Some((digits, p)) && whole_at(digits, p) >= infinite_from()
}

/// The number that a text stands for: a decimal number, an infinity or no
/// number at all by name, with an optional sign. A number beyond the range of
/// double precision is infinite.
pub open spec fn quantity_of(s: Seq<char>) -> Option<Quantity> {
    let body = unsigned(s);
    let name = text::lower_seq(body);
    if name == "inf"@ || name == "infinity"@ {
        if negative(s) {
            Some(Quantity::NegativeInfinite)
        } else {
            Some(Quantity::Infinite)
        }
    } else if name == "nan"@ {
        Some(Quantity::NotANumber)
    } else if beyond_range(body) {
        if negative(s) {
            Some(Quantity::NegativeInfinite)
        } else {
            Some(Quantity::Infinite)
        }
    } else {
        match number_of(body) {
            Some(n) => Some(
                Quantity::Micros(
                    json::clamp_i64(
                        if negative(s) {
                            -n
                        } else {
                            n
                        },
                    ),
                ),
            ),
            None => None,
        }
    }
}

/// What a sum of digits is cut to; it is beyond every number that counts.
const CEILING: i128 = 10_000_000_000_000_000_000;

spec fn cut(n: int) -> int {
    if n > CEILING {
        CEILING as int
    } else {
        n
    }
}

proof fn lemma_digits_nonnegative(s: Seq<char>)
    requires
        normalize::digits_from(s, 0),
    ensures
        digits_value(s) >= 0,
    decreases s.len(),
{
    if s.len() > 0 {
        assert(normalize::digits_from(s.drop_last(), 0)) by {
            assert forall|i: int| 0 <= i < s.drop_last().len() implies normalize::ascii_digit(
                #[trigger] s.drop_last()[i],
            ) by {
                assert(s.drop_last()[i] == s[i]);
            }
        }
        lemma_digits_nonnegative(s.drop_last());
        assert(normalize::ascii_digit(s[s.len() - 1]));
    }
}

proof fn lemma_shifted_grows(v: int, k: nat)
    requires
        v >= 0,
    ensures
        shifted(v, k) >= v,
        v == 0 ==> shifted(v, k) == 0,
    decreases k,
{
    if k > 0 {
        lemma_shifted_grows(v * 10, (k - 1) as nat);
    }
}

fn digit_number(c: char) -> (d: i128)
    requires
        normalize::ascii_digit(c),
    ensures
        d == digit_value(c),
        0 <= d <= 9,
{
    let b: u32 = c as u32;
    (b - 48) as i128
}

/// The value of the first `n` digits, cut to the ceiling.
fn cut_value(v: &Vec<char>, n: usize) -> (r: i128)
    requires
        n <= v@.len(),
        normalize::digits_from(v@, 0),
    ensures
        r == cut(digits_value(v@.take(n as int))),
        0 <= r <= CEILING,
{
    let mut acc: i128 = 0;
    let mut i: usize = 0;
    proof {
        assert(v@.take(0) =~= Seq::empty());
    }
    while i < n
        invariant
            i <= n <= v@.len(),
            normalize::digits_from(v@, 0),
            acc == cut(digits_value(v@.take(i as int))),
            0 <= acc <= CEILING,
            digits_value(v@.take(i as int)) >= 0,
        decreases n - i,
    {
        assert(normalize::ascii_digit(v@[i as int]));
        let d: i128 = digit_number(v[i]);
        proof {
            assert(v@.take(i + 1).drop_last() =~= v@.take(i as int));
            assert(v@.take(i + 1).last() == v@[i as int]);
        }
        let grown: i128 = acc * 10 + d;
        acc = if grown > 10_000_000_000_000_000_000i128 {
            10_000_000_000_000_000_000i128
        } else {
            grown
        };
        i += 1;
    }
    acc
}

/// `v` followed by `k` zeros, cut to the ceiling.
fn cut_shift(v: i128, k: i64, Ghost(exact): Ghost<int>) -> (r: i128)
    requires
        0 <= v <= CEILING,
        v == cut(exact),
        exact >= 0,
        k >= 0,
    ensures
        r == cut(shifted(exact, k as nat)),
        0 <= r <= CEILING,
{
    let mut acc: i128 = v;
    let mut left: i64 = k;
    let ghost mut now: int = exact;
    while left > 0 && acc != 0 && acc < 10_000_000_000_000_000_000i128
        invariant
            0 <= left,
            0 <= acc <= CEILING,
            acc == cut(now),
            now >= 0,
            shifted(exact, k as nat) == shifted(now, left as nat),
        decreases left,
    {
        let grown: i128 = acc * 10;
        acc = if grown > 10_000_000_000_000_000_000i128 {
            10_000_000_000_000_000_000i128
        } else {
            grown
        };
        proof {
            now = now * 10;
        }
        left -= 1;
    }
    proof {
        lemma_shifted_grows(now, left as nat);
    }
    acc
}

fn find_char(v: &Vec<char>, from: usize, to: usize, c: char) -> (r: usize)
    requires
        from <= to <= v@.len(),
    ensures
        from <= r <= to,
        r - from == index_of_char(v@.subrange(from as int, to as int), c),
{
    let ghost s = v@.subrange(from as int, to as int);
    let mut i: usize = from;
    proof {
        assert(s.skip(0) =~= s);
    }
    while i < to && v[i] != c
        invariant
            from <= i <= to <= v@.len(),
            s == v@.subrange(from as int, to as int),
            index_of_char(s, c) == (i - from) + index_of_char(s.skip(i - from), c),
        decreases to - i,
    {
        proof {
            let rest = s.skip(i - from);
            assert(rest[0] == v@[i as int]);
            assert(rest.drop_first() =~= s.skip(i + 1 - from));
        }
        i += 1;
    }
    proof {
        let rest = s.skip(i - from);
        if i < to {
            assert(rest[0] == v@[i as int]);
        }
    }
    i
}

fn digits_between(v: &Vec<char>, from: usize, to: usize) -> (r: bool)
    requires
        from <= to <= v@.len(),
    ensures
        r == normalize::digits_from(v@.subrange(from as int, to as int), 0),
{
    let ghost s = v@.subrange(from as int, to as int);
    let mut i: usize = from;
    while i < to
        invariant
            from <= i <= to <= v@.len(),
            s == v@.subrange(from as int, to as int),
            forall|j: int| 0 <= j < i - from ==> normalize::ascii_digit(#[trigger] s[j]),
        decreases to - i,
    {
        assert(s[i - from] == v@[i as int]);
        if !('0' <= v[i] && v[i] <= '9') {
            return false;
        }
        i += 1;
    }
    true
}

fn copy_range(out: &mut Vec<char>, v: &Vec<char>, from: usize, to: usize)
    requires
        from <= to <= v@.len(),
    ensures
        final(out)@ == old(out)@ + v@.subrange(from as int, to as int),
{
    let ghost before = out@;
    let mut i: usize = from;
    while i < to
        invariant
            from <= i <= to <= v@.len(),
            out@ == before + v@.subrange(from as int, i as int),
        decreases to - i,
    {
        out.push(v[i]);
        i += 1;
        proof {
            assert(out@ =~= before + v@.subrange(from as int, i as int));
        }
    }
}

/// The exponent in `v[from..]`.
fn read_exponent(v: &Vec<char>, from: usize) -> (r: Option<i64>)
    requires
        from <= v@.len(),
    ensures
        r is Some <==> exponent_of(v@.skip(from as int)) is Some,
        r is Some ==> r->0 == exponent_of(v@.skip(from as int))->0,
        r is Some ==> -MAX_EXPONENT <= r->0 <= MAX_EXPONENT,
{
    let ghost s = v@.skip(from as int);
    let n: usize = v.len();
    let minus = from < n && v[from] == '-';
    let signed = from < n && (v[from] == '-' || v[from] == '+');
    let start: usize = if signed {
        from + 1
    } else {
        from
    };
    proof {
        if from < n {
            assert(s[0] == v@[from as int]);
        }
        assert(unsigned(s) =~= v@.subrange(start as int, n as int));
    }
    if start >= n || !digits_between(v, start, n) {
        return None;
    }
    let mut digits: Vec<char> = Vec::new();
    copy_range(&mut digits, v, start, n);
    proof {
        assert(digits@ =~= unsigned(s));
        assert(digits@.take(digits@.len() as int) =~= digits@);
        lemma_digits_nonnegative(digits@);
    }
    let value: i128 = cut_value(&digits, digits.len());
    let bounded: i64 = if value > MAX_EXPONENT as i128 {
        MAX_EXPONENT
    } else {
        value as i64
    };
    if minus {
        Some(-bounded)
    } else {
        Some(bounded)
    }
}

/// The digits rounded at `p`, cut beyond what counts.
fn read_rounded(digits: &Vec<char>, p: i128) -> (r: i128)
    requires
        normalize::digits_from(digits@, 0),
        -2_000_000_000 <= p <= digits@.len() + 2_000_000_000,
    ensures
        0 <= r <= CEILING + 1,
        r == rounded_at(digits@, p as int) || (r >= CEILING && rounded_at(digits@, p as int)
            >= CEILING),
        rounded_at(digits@, p as int) >= 0,
{
    let len: usize = digits.len();
    proof {
        lemma_digits_nonnegative(digits@);
    }
    if p < 0 {
        0
    } else if p <= len as i128 {
        let n: usize = p as usize;
        proof {
            assert forall|i: int| 0 <= i < digits@.take(n as int).len() implies normalize::ascii_digit(
                #[trigger] digits@.take(n as int)[i],
            ) by {
                assert(normalize::ascii_digit(digits@[i]));
            }
            lemma_digits_nonnegative(digits@.take(n as int));
        }
        let value: i128 = cut_value(digits, n);
        if n < len {
            assert(normalize::ascii_digit(digits@[n as int]));
            if digit_number(digits[n]) >= 5 {
                return value + 1;
            }
        }
        value
    } else {
        proof {
            assert(digits@.take(len as int) =~= digits@);
        }
        let value: i128 = cut_value(digits, len);
        let zeros: i128 = p - len as i128;
        let bounded: i64 = zeros as i64;
        proof {
            lemma_shifted_grows(digits_value(digits@), zeros as nat);
        }
        cut_shift(value, bounded, Ghost(digits_value(digits@)))
    }
}

proof fn lemma_shifted_step(v: int, k: nat)
    ensures
        shifted(v, k + 1) == shifted(v, k) * 10,
    decreases k,
{
    reveal_with_fuel(shifted, 2);
    if k > 0 {
        lemma_shifted_step(v * 10, (k - 1) as nat);
    }
}

proof fn lemma_shifted_monotonic(a: int, b: int, j: nat, k: nat)
    requires
        0 <= a <= b,
        j <= k,
    ensures
        shifted(a, j) <= shifted(b, k),
    decreases k,
{
    if j > 0 {
        lemma_shifted_monotonic(a * 10, b * 10, (j - 1) as nat, (k - 1) as nat);
    } else {
        lemma_shifted_grows(b, k);
    }
}

/// Digits stand for less than one with as many zeros.
proof fn lemma_digits_bounded(s: Seq<char>)
    requires
        normalize::digits_from(s, 0),
    ensures
        0 <= digits_value(s) < shifted(1, s.len()),
    decreases s.len(),
{
    lemma_digits_nonnegative(s);
    if s.len() > 0 {
        let t = s.drop_last();
        assert forall|i: int| 0 <= i < t.len() implies normalize::ascii_digit(#[trigger] t[i]) by {
            assert(normalize::ascii_digit(s[i]));
        }
        lemma_digits_bounded(t);
        lemma_shifted_step(1, t.len());
        assert(normalize::ascii_digit(s[s.len() - 1]));
    }
}

/// The whole part grows by one digit with each place of the point.
proof fn lemma_whole_step(digits: Seq<char>, p: int)
    requires
        p >= 0,
    ensures
        whole_at(digits, p + 1) == whole_at(digits, p) * 10 + if p < digits.len() {
            digit_value(digits[p])
        } else {
            0
        },
{
    if p < digits.len() {
        assert(digits.take(p + 1).drop_last() =~= digits.take(p));
        assert(digits.take(p + 1).last() == digits[p]);
        if p == 0 {
            assert(digits.take(0) =~= Seq::empty());
        }
        assert(whole_at(digits, p) == digits_value(digits.take(p)));
    } else {
        let k = (p - digits.len()) as nat;
        assert(digits.take(digits.len() as int) =~= digits);
        lemma_shifted_step(digits_value(digits), k);
        assert((p + 1 - digits.len()) as nat == k + 1);
        if p == 0 {
            assert(digits =~= Seq::empty());
        }
        assert(whole_at(digits, p) == shifted(digits_value(digits), k));
        assert(whole_at(digits, p + 1) == shifted(digits_value(digits), k + 1));
    }
}

proof fn lemma_limit_digits()
    ensures
        LIMIT_DIGITS@.len() == 309,
        normalize::digits_from(LIMIT_DIGITS@, 0),
{
    reveal_strlit(
        "179769313486231580793728971405303415079934132710037826936173778980444968292764750946649017977587207096330286416692887910946555547851940402630657488671505820681908902000708383676273854845817711531764475730270069855571366959622842914819860834936475292719074168444365510704342711559699508093042880177904174497792",
    );
}

proof fn lemma_limit_positive()
    ensures
        infinite_from() > 0,
{
    lemma_limit_digits();
    let s = LIMIT_DIGITS@;
    assert(s[0] == '1') by {
        reveal_strlit(
            "179769313486231580793728971405303415079934132710037826936173778980444968292764750946649017977587207096330286416692887910946555547851940402630657488671505820681908902000708383676273854845817711531764475730270069855571366959622842914819860834936475292719074168444365510704342711559699508093042880177904174497792",
        );
    }
    lemma_leading_digit(s);
}

/// Digits that begin with another than zero do not stand for zero.
proof fn lemma_leading_digit(s: Seq<char>)
    requires
        normalize::digits_from(s, 0),
        s.len() > 0,
        s[0] != '0',
    ensures
        digits_value(s) > 0,
    decreases s.len(),
{
    let t = s.drop_last();
    assert(normalize::ascii_digit(s[0]));
    assert(normalize::ascii_digit(s[s.len() - 1]));
    if s.len() == 1 {
        assert(t =~= Seq::empty());
    } else {
        assert forall|i: int| 0 <= i < t.len() implies normalize::ascii_digit(#[trigger] t[i]) by {
            assert(normalize::ascii_digit(s[i]));
        }
        lemma_leading_digit(t);
    }
}

/// Where digits stand for zero, so does every whole part of theirs.
proof fn lemma_whole_of_zeros(digits: Seq<char>, p: int)
    requires
        normalize::digits_from(digits, 0),
        digits_value(digits) == 0,
    ensures
        whole_at(digits, p) == 0,
    decreases digits.len(),
{
    if p > digits.len() {
        lemma_shifted_grows(0, (p - digits.len()) as nat);
    } else if 0 < p {
        if p == digits.len() {
            assert(digits.take(p) =~= digits);
        } else {
            let t = digits.drop_last();
            assert forall|i: int| 0 <= i < t.len() implies normalize::ascii_digit(
                #[trigger] t[i],
            ) by {
                assert(normalize::ascii_digit(digits[i]));
            }
            lemma_digits_nonnegative(t);
            assert(normalize::ascii_digit(digits[digits.len() - 1]));
            lemma_whole_of_zeros(t, p);
            assert(t.take(p) =~= digits.take(p));
        }
    }
}

/// Whether every one of some digits is zero.
fn all_zeros(digits: &Vec<char>) -> (r: bool)
    requires
        normalize::digits_from(digits@, 0),
    ensures
        r == (digits_value(digits@) == 0),
{
    let value: i128 = cut_value(digits, digits.len());
    proof {
        assert(digits@.take(digits@.len() as int) =~= digits@);
        lemma_digits_nonnegative(digits@);
    }
    value == 0
}

spec fn sign_of(n: int) -> int {
    if n > 0 {
        1
    } else if n < 0 {
        -1
    } else {
        0
    }
}

/// How many places a point may stand behind the digits before the number is
/// taken for infinite whatever its digits are.
const FAR_PLACES: i128 = 400;

/// Whether the whole part of digits with a point behind the first `p` of them is
/// beyond the range.
fn reaches_limit(digits: &Vec<char>, p: i128) -> (r: bool)
    requires
        normalize::digits_from(digits@, 0),
        digits@.len() <= 0x1_0000_0000_0000_0000,
    ensures
        r == (whole_at(digits@, p as int) >= infinite_from()),
{
    proof {
        lemma_limit_digits();
        lemma_digits_bounded(LIMIT_DIGITS@);
        lemma_digits_nonnegative(digits@);
    }
    if all_zeros(digits) {
        proof {
            lemma_limit_positive();
            lemma_whole_of_zeros(digits@, p as int);
        }
        return false;
    }
    let len: usize = digits.len();
    if p > len as i128 + FAR_PLACES {
        proof {
            lemma_shifted_monotonic(1, digits_value(digits@), 309, (p - len) as nat);
        }
        return true;
    }
    let limit = text::chars_of(LIMIT_DIGITS);
    let m: i128 = if p < 0 {
        0
    } else {
        p
    };
    let n: i128 = if m < 309 {
        309
    } else {
        m
    };
    let mut sign: i128 = 0;
    let mut i: i128 = 0;
    let ghost mut ours: int = 0;
    let ghost mut theirs: int = 0;
    proof {
        assert(limit@.take(0) =~= Seq::empty());
    }
    while i < n
        invariant
            0 <= i <= n,
            n == if m < 309 {
                309
            } else {
                m as int
            },
            m == if p < 0 {
                0
            } else {
                p as int
            },
            n <= len + 0x1_0000,
            len == digits@.len(),
            len <= 0x1_0000_0000_0000_0000,
            normalize::digits_from(digits@, 0),
            limit@ == LIMIT_DIGITS@,
            limit@.len() == 309,
            normalize::digits_from(limit@, 0),
            ours == whole_at(digits@, i - (n - m)),
            theirs == if i < n - 309 {
                0
            } else {
                digits_value(limit@.take(i - (n - 309)))
            },
            sign == sign_of(ours - theirs),
        decreases n - i,
    {
        let at: i128 = i - (n - m);
        let a: i128 = if 0 <= at && at < len as i128 {
            assert(normalize::ascii_digit(digits@[at as int]));
            digit_number(digits[at as usize])
        } else {
            0
        };
        let there: i128 = i - (n - 309);
        let b: i128 = if 0 <= there {
            assert(normalize::ascii_digit(limit@[there as int]));
            digit_number(limit[there as usize])
        } else {
            0
        };
        proof {
            if at >= 0 {
                lemma_whole_step(digits@, at as int);
            }
            if there >= 0 {
                assert(limit@.take(there + 1).drop_last() =~= limit@.take(there as int));
            } else if there == -1 {
                assert(limit@.take(0) =~= Seq::empty());
            }
            ours = ours * 10 + a;
            theirs = theirs * 10 + b;
        }
        let grown: i128 = sign * 10 + a - b;
        sign = if grown > 0 {
            1
        } else if grown < 0 {
            -1
        } else {
            0
        };
        i += 1;
    }
    proof {
        assert(limit@.take(309) =~= limit@);
    }
    sign >= 0
}

/// A decimal number without a sign in `v[from..]`, in millionths, and whether it is
/// beyond the range; one beyond what counts is cut.
fn read_number(v: &Vec<char>, from: usize) -> (r: Option<(i128, bool)>)
    requires
        from <= v@.len(),
    ensures
        r is Some <==> number_of(v@.skip(from as int)) is Some,
        r is Some ==> {
            let n = number_of(v@.skip(from as int))->0;
            let read = (r->0).0;
            n >= 0 && 0 <= read <= CEILING + 1 && (read == n || (read >= CEILING && n >= CEILING))
        },
        r is Some ==> (r->0).1 == beyond_range(v@.skip(from as int)),
        r is None ==> !beyond_range(v@.skip(from as int)),
{
    let ghost s = v@.skip(from as int);
    let n: usize = v.len();
    proof {
        assert(s =~= v@.subrange(from as int, n as int));
    }
    let small: usize = find_char(v, from, n, 'e');
    let large: usize = find_char(v, from, n, 'E');
    let x: usize = if small < large {
        small
    } else {
        large
    };
    let exponent: i64 = if x < n {
        match read_exponent(v, x + 1) {
            Some(e) => {
                proof {
                    assert(v@.skip(x + 1) =~= s.skip(x + 1 - from));
                }
                e
            },
            None => {
                proof {
                    assert(v@.skip(x + 1) =~= s.skip(x + 1 - from));
                }
                return None;
            },
        }
    } else {
        0
    };
    let point: usize = find_char(v, from, x, '.');
    let mut digits: Vec<char> = Vec::new();
    copy_range(&mut digits, v, from, point);
    if point < x {
        copy_range(&mut digits, v, point + 1, x);
    }
    proof {
        let mantissa = s.take(x - from);
        assert(mantissa =~= v@.subrange(from as int, x as int));
        assert(mantissa.take(point - from) =~= v@.subrange(from as int, point as int));
        if point < x {
            assert(mantissa.skip(point + 1 - from) =~= v@.subrange(point + 1, x as int));
        }
        let part = if point < x {
            mantissa.skip(point + 1 - from)
        } else {
            Seq::empty()
        };
        assert(digits@ =~= mantissa.take(point - from) + part);
        assert(digits@.subrange(0, digits@.len() as int) =~= digits@);
    }
    let len: usize = digits.len();
    if len == 0 || !digits_between(&digits, 0, len) {
        return None;
    }
    let p: i128 = (point - from) as i128 + exponent as i128;
    Some((read_rounded(&digits, p + 6), reaches_limit(&digits, p)))
}

/// The number that a text stands for.
pub fn parse_quantity(s: &str) -> (r: Option<Quantity>)
    ensures
        r == quantity_of(s@),
{
    let v = text::chars_of(s);
    let n: usize = v.len();
    let minus = n > 0 && v[0] == '-';
    let signed = n > 0 && (v[0] == '-' || v[0] == '+');
    let start: usize = if signed {
        1
    } else {
        0
    };
    proof {
        assert(unsigned(s@) =~= v@.skip(start as int));
        assert(unsigned(s@) =~= v@.subrange(start as int, n as int));
    }
    let body = text::string_of(&v, start, n);
    let lowered = text::to_lower(body.as_str());
    let name = lowered.as_str();
    if text::str_eq(name, "inf") || text::str_eq(name, "infinity") {
        if minus {
            return Some(Quantity::NegativeInfinite);
        } else {
            return Some(Quantity::Infinite);
        }
    }
    if text::str_eq(name, "nan") {
        return Some(Quantity::NotANumber);
    }
    match read_number(&v, start) {
        Some((m, beyond)) => if beyond {
            if minus {
                Some(Quantity::NegativeInfinite)
            } else {
                Some(Quantity::Infinite)
            }
        } else if minus {
            Some(Quantity::Micros(saturate_i64(-m)))
        } else {
            Some(Quantity::Micros(saturate_i64(m)))
        },
        None => None,
    }
}

/// The finite number that a text stands for, in millionths.
pub open spec fn finite_of(s: Seq<char>) -> Option<i64> {
    match quantity_of(s) {
        Some(q) => quantity::finite(q),
        None => None,
    }
}

/// The finite number that a text stands for, in millionths.
pub fn parse_finite(s: &str) -> (r: Option<i64>)
    ensures
        r == finite_of(s@),
{
    match parse_quantity(s) {
        Some(q) => q.as_finite(),
        None => None,
    }
}

/// The parts of `s` between the places where `c` stands.
pub open spec fn split_seq(s: Seq<char>, c: char) -> Seq<Seq<char>>
    decreases s.len(),
{
    if s.len() == 0 {
        seq![Seq::empty()]
    } else {
        let parts = split_seq(s.drop_last(), c);
        if s.last() == c {
            parts.push(Seq::empty())
        } else {
            parts.drop_last().push(parts.last().push(s.last()))
        }
    }
}

pub proof fn lemma_split_nonempty(s: Seq<char>, c: char)
    ensures
        split_seq(s, c).len() > 0,
    decreases s.len(),
{
    if s.len() > 0 {
        lemma_split_nonempty(s.drop_last(), c);
    }
}

/// The parts of a text, as texts.
pub open spec fn texts(v: Seq<String>) -> Seq<Seq<char>> {
    v.map_values(|t: String| t@)
}

/// The parts of `s` between the places where `c` stands.
pub fn split(s: &str, c: char) -> (r: Vec<String>)
    ensures
        texts(r@) == split_seq(s@, c),
{
    let v = text::chars_of(s);
    let n: usize = v.len();
    let mut parts: Vec<String> = Vec::new();
    let mut current: String = String::new();
    let mut i: usize = 0;
    proof {
        assert(v@.take(0) =~= Seq::empty());
        assert(texts(parts@).push(current@) =~= split_seq(v@.take(0), c));
    }
    while i < n
        invariant
            i <= n == v@.len(),
            v@ == s@,
            texts(parts@).push(current@) == split_seq(s@.take(i as int), c),
        decreases n - i,
    {
        proof {
            let next = s@.take(i + 1);
            assert(next.drop_last() =~= s@.take(i as int));
            assert(next.last() == v@[i as int]);
            lemma_split_nonempty(s@.take(i as int), c);
            let before = split_seq(s@.take(i as int), c);
            assert(before.last() == current@);
            assert(before.drop_last() =~= texts(parts@));
        }
        let ghost old_parts = texts(parts@);
        let ghost old_current = current@;
        if v[i] == c {
            parts.push(current);
            current = String::new();
            proof {
                assert(texts(parts@) =~= old_parts.push(old_current));
                assert(current@ =~= Seq::empty());
            }
        } else {
            current.push(v[i]);
        }
        i += 1;
    }
    proof {
        assert(s@.take(n as int) =~= s@);
    }
    let ghost before = texts(parts@);
    let ghost last = current@;
    parts.push(current);
    proof {
        assert(texts(parts@) =~= before.push(last));
    }
    parts
}

/// The time that the parts of a clock stand for, in millionths: each part
/// counts sixty of the next. `None` where a part is no finite number.
pub open spec fn clock_total(parts: Seq<Seq<char>>) -> Option<int>
    decreases parts.len(),
{
    if parts.len() == 0 {
        Some(0)
    } else {
        match (clock_total(parts.drop_last()), finite_of(text::trim_seq(parts.last()))) {
            (Some(total), Some(part)) => Some(total * 60 + part),
            _ => None,
        }
    }
}

/// The time that a text stands for, in microseconds: a number of seconds, or
/// a clock of two or three parts.
pub open spec fn clock_or_seconds(s: Seq<char>) -> Option<i64> {
    match quantity_of(s) {
        Some(q) => quantity::finite(q),
        None => {
            let parts = split_seq(s, ':');
            if 2 <= parts.len() <= 3 {
                match clock_total(parts) {
                    Some(total) => Some(json::clamp_i64(total)),
                    None => None,
                }
            } else {
                None
            }
        },
    }
}

proof fn lemma_clock_prefix(parts: Seq<Seq<char>>, i: int)
    requires
        0 <= i <= parts.len(),
        clock_total(parts.take(i)) is None,
    ensures
        clock_total(parts) is None,
    decreases parts.len() - i,
{
    if i < parts.len() {
        assert(parts.take(i + 1).drop_last() =~= parts.take(i));
        lemma_clock_prefix(parts, i + 1);
    } else {
        assert(parts.take(i) =~= parts);
    }
}

/// The time that a text stands for, in microseconds.
pub fn parse_clock_or_seconds(value: &str) -> (r: Option<i64>)
    ensures
        r == clock_or_seconds(value@),
{
    match parse_quantity(value) {
        Some(q) => {
            return q.as_finite();
        },
        None => {},
    }
    let parts = split(value, ':');
    let n: usize = parts.len();
    let ghost all = texts(parts@);
    if n < 2 || n > 3 {
        return None;
    }
    let mut total: i128 = 0;
    let mut i: usize = 0;
    proof {
        assert(all.take(0) =~= Seq::empty());
    }
    while i < n
        invariant
            i <= n <= 3,
            2 <= n == parts@.len(),
            quantity_of(value@) is None,
            all == split_seq(value@, ':'),
            all == texts(parts@),
            clock_total(all.take(i as int)) == Some(total as int),
            i == 0 ==> total == 0,
            i == 1 ==> -0x8000_0000_0000_0000 <= total <= 0x8000_0000_0000_0000,
            i == 2 ==> -0x8000_0000_0000_0000 * 61 <= total <= 0x8000_0000_0000_0000 * 61,
            i == 3 ==> -0x8000_0000_0000_0000 * 3661 <= total <= 0x8000_0000_0000_0000 * 3661,
        decreases n - i,
    {
        let part = text::trim(parts[i].as_str());
        proof {
            assert(all.take(i + 1).drop_last() =~= all.take(i as int));
            assert(all.take(i + 1).last() == parts@[i as int]@);
        }
        match parse_finite(part.as_str()) {
            Some(number) => {
                total = total * 60 + number as i128;
            },
            None => {
                proof {
                    lemma_clock_prefix(all, i + 1);
                }
                return None;
            },
        }
        i += 1;
    }
    proof {
        assert(all.take(n as int) =~= all);
    }
    Some(saturate_i64(total))
}

/// The time of a chapter, in microseconds.
pub fn parse_chapter_seconds(value: &str) -> (r: Option<i64>)
    ensures
        r == finite_of(text::trim_seq(value@)),
{
    let t = text::trim(value);
    parse_finite(t.as_str())
}

proof fn lemma_absent_char(s: Seq<char>, c: char)
    requires
        forall|i: int| 0 <= i < s.len() ==> #[trigger] s[i] != c,
    ensures
        index_of_char(s, c) == s.len(),
    decreases s.len(),
{
    if s.len() > 0 {
        assert(s[0] != c);
        assert forall|i: int| 0 <= i < s.drop_first().len() implies #[trigger] s.drop_first()[i]
            != c by {
            assert(s[i + 1] != c);
        }
        lemma_absent_char(s.drop_first(), c);
    }
}

proof fn lemma_first_char(a: Seq<char>, c: char, b: Seq<char>)
    requires
        forall|i: int| 0 <= i < a.len() ==> #[trigger] a[i] != c,
    ensures
        index_of_char(a + seq![c] + b, c) == a.len(),
    decreases a.len(),
{
    let s = a + seq![c] + b;
    if a.len() == 0 {
        assert(s[0] == c);
    } else {
        assert(s[0] == a[0]);
        assert forall|i: int| 0 <= i < a.drop_first().len() implies #[trigger] a.drop_first()[i]
            != c by {
            assert(a[i + 1] != c);
        }
        lemma_first_char(a.drop_first(), c, b);
        assert(s.drop_first() =~= a.drop_first() + seq![c] + b);
    }
}

proof fn lemma_digits_joined(a: Seq<char>, b: Seq<char>)
    ensures
        digits_value(a + b) == shifted(digits_value(a), b.len()) + digits_value(b),
    decreases b.len(),
{
    if b.len() == 0 {
        assert(a + b =~= a);
    } else {
        let t = b.drop_last();
        lemma_digits_joined(a, t);
        assert((a + b).drop_last() =~= a + t);
        assert((a + b).last() == b.last());
        lemma_shifted_step(digits_value(a), t.len());
    }
}

proof fn lemma_digits_fold(s: Seq<char>)
    ensures
        digits_value(s) == s.fold_left(0int, |v: int, c: char| v * 10 + (c as int - '0' as int)),
    decreases s.len(),
{
    if s.len() > 0 {
        lemma_digits_fold(s.drop_last());
    }
}

proof fn lemma_leading_place(s: Seq<char>)
    requires
        normalize::digits_from(s, 0),
        s.len() > 0,
        s[0] != '0',
    ensures
        digits_value(s) >= shifted(1, (s.len() - 1) as nat),
    decreases s.len(),
{
    let t = s.drop_last();
    assert(normalize::ascii_digit(s[0]));
    assert(normalize::ascii_digit(s[s.len() - 1]));
    if s.len() == 1 {
        assert(t =~= Seq::empty());
        assert(digits_value(t) == 0);
    } else {
        assert forall|i: int| 0 <= i < t.len() implies normalize::ascii_digit(#[trigger] t[i]) by {
            assert(normalize::ascii_digit(s[i]));
        }
        lemma_leading_place(t);
        lemma_shifted_step(1, (t.len() - 1) as nat);
    }
}

/// Twelve digits are not beyond the range.
proof fn lemma_in_range(s: Seq<char>)
    requires
        normalize::digits_from(s, 0),
        s.len() <= 12,
    ensures
        0 <= digits_value(s) < infinite_from(),
        digits_value(s) < 1_000_000_000_000,
{
    lemma_limit_digits();
    let l = LIMIT_DIGITS@;
    assert(l[0] == '1') by {
        reveal_strlit(
            "179769313486231580793728971405303415079934132710037826936173778980444968292764750946649017977587207096330286416692887910946555547851940402630657488671505820681908902000708383676273854845817711531764475730270069855571366959622842914819860834936475292719074168444365510704342711559699508093042880177904174497792",
        );
    }
    lemma_leading_place(l);
    lemma_digits_bounded(s);
    lemma_shifted_monotonic(1, 1, s.len(), 12);
    lemma_shifted_monotonic(1, 1, 12, 308);
    reveal_with_fuel(shifted, 14);
    assert(shifted(1, 12) == 1_000_000_000_000);
}

/// A decimal number is read as it is written, in millionths: the digits before the
/// point count seconds, and each place behind it a tenth of the one before.
#[verifier::spinoff_prover]
#[verifier::rlimit(40)]
pub proof fn decimals_are_read(w: Seq<char>, f: Seq<char>)
    requires
        0 < w.len() <= 12,
        f.len() <= 6,
        forall|i: int| 0 <= i < w.len() ==> '0' <= #[trigger] w[i] <= '9',
        forall|i: int| 0 <= i < f.len() ==> '0' <= #[trigger] f[i] <= '9',
    ensures
        ({
            let place = |v: int, c: char| v * 10 + (c as int - '0' as int);
            let scale = if f.len() == 0 {
                1_000_000int
            } else if f.len() == 1 {
                100_000
            } else if f.len() == 2 {
                10_000
            } else if f.len() == 3 {
                1_000
            } else if f.len() == 4 {
                100
            } else if f.len() == 5 {
                10
            } else {
                1
            };
            let n = w.fold_left(0int, place) * 1_000_000 + f.fold_left(0int, place) * scale;
            &&& 0 <= n < 1_000_000_000_000_000_000
            &&& quantity_of(w + seq!['.'] + f) == Some(Quantity::Micros(n as i64))
        }),
{
    let s = w + seq!['.'] + f;
    assert forall|i: int| 0 <= i < s.len() implies #[trigger] s[i] == '.' || '0' <= s[i] <= '9' by {
        if i < w.len() {
            assert(s[i] == w[i]);
        } else if i > w.len() {
            assert(s[i] == f[i - w.len() - 1]);
        }
    }
    assert(s[0] == w[0]);
    lemma_number_is_read(s);
    lemma_first_char(w, '.', f);
    assert(s.take(w.len() as int) =~= w);
    assert(s.skip(w.len() as int + 1) =~= f);
    let digits = w + f;
    assert forall|i: int| 0 <= i < digits.len() implies normalize::ascii_digit(
        #[trigger] digits[i],
    ) by {
        if i < w.len() {
            assert(digits[i] == w[i]);
        } else {
            assert(digits[i] == f[i - w.len()]);
        }
    }
    assert forall|i: int| 0 <= i < w.len() implies normalize::ascii_digit(#[trigger] w[i]) by {}
    assert forall|i: int| 0 <= i < f.len() implies normalize::ascii_digit(#[trigger] f[i]) by {}
    assert(number_parts(s) == Some((digits, w.len() as int)));
    lemma_in_range(w);
    lemma_digits_bounded(f);
    assert(digits.take(w.len() as int) =~= w);
    assert(!beyond_range(s));
    lemma_digits_joined(w, f);
    lemma_digits_fold(w);
    lemma_digits_fold(f);
    assert(digits.take(digits.len() as int) =~= digits);
    reveal_with_fuel(shifted, 8);
    let a = digits_value(w);
    let b = digits_value(f);
    assert(number_of(s) == Some(rounded_at(digits, w.len() as int + 6)));
    assert(rounded_at(digits, w.len() as int + 6) == shifted(
        shifted(a, f.len()) + b,
        (6 - f.len()) as nat,
    ));
}

/// A text of digits and points has no exponent, no sign and no name.
proof fn lemma_number_is_read(s: Seq<char>)
    requires
        s.len() > 0,
        forall|i: int| 0 <= i < s.len() ==> #[trigger] s[i] == '.' || '0' <= s[i] <= '9',
    ensures
        exponent_at(s) == s.len(),
        s.take(exponent_at(s)) == s,
        unsigned(s) == s,
        !negative(s),
        text::lower_seq(s) != "inf"@,
        text::lower_seq(s) != "infinity"@,
        text::lower_seq(s) != "nan"@,
{
    assert forall|i: int| 0 <= i < s.len() implies #[trigger] s[i] != 'e' && s[i] != 'E' by {}
    lemma_absent_char(s, 'e');
    lemma_absent_char(s, 'E');
    assert(s.take(s.len() as int) =~= s);
    assert(s[0] == '.' || '0' <= s[0] <= '9');
    reveal_strlit("inf");
    reveal_strlit("infinity");
    reveal_strlit("nan");
    assert("inf"@[0] == 'i' && "infinity"@[0] == 'i' && "nan"@[0] == 'n');
    assert(text::lower_seq(s)[0] == s[0]);
}

/// A minus sign before a number negates it, and a plus sign leaves it as it is.
pub proof fn signs_are_read(t: Seq<char>)
    requires
        t.len() > 0,
        t[0] != '+',
        t[0] != '-',
    ensures
        quantity_of(seq!['+'] + t) == quantity_of(t),
        match quantity_of(t) {
            Some(Quantity::Micros(n)) => n < i64::MAX ==> quantity_of(seq!['-'] + t) == Some(
                Quantity::Micros((-n) as i64),
            ),
            Some(Quantity::Infinite) => quantity_of(seq!['-'] + t) == Some(
                Quantity::NegativeInfinite,
            ),
            Some(Quantity::NotANumber) => quantity_of(seq!['-'] + t) == Some(Quantity::NotANumber),
            Some(Quantity::NegativeInfinite) => false,
            None => quantity_of(seq!['-'] + t) is None,
        },
{
    let plus = seq!['+'] + t;
    let minus = seq!['-'] + t;
    assert(plus.drop_first() =~= t);
    assert(minus.drop_first() =~= t);
    assert(plus[0] == '+' && minus[0] == '-');
    if number_of(t) is Some {
        lemma_number_positive(t);
    }
}

proof fn lemma_number_positive(t: Seq<char>)
    requires
        number_of(t) is Some,
    ensures
        number_of(t)->0 >= 0,
{
    let (digits, p) = number_parts(t)->0;
    let q = p + 6;
    if 0 <= q <= digits.len() {
        let head = digits.take(q);
        assert forall|i: int| 0 <= i < head.len() implies normalize::ascii_digit(
            #[trigger] head[i],
        ) by {
            assert(normalize::ascii_digit(digits[i]));
        }
        lemma_digits_nonnegative(head);
    } else if q > digits.len() {
        lemma_digits_nonnegative(digits);
        lemma_shifted_grows(digits_value(digits), (q - digits.len()) as nat);
    }
}

proof fn lemma_split_plain(s: Seq<char>, c: char)
    requires
        forall|i: int| 0 <= i < s.len() ==> #[trigger] s[i] != c,
    ensures
        split_seq(s, c) =~= seq![s],
    decreases s.len(),
{
    if s.len() > 0 {
        let t = s.drop_last();
        assert forall|i: int| 0 <= i < t.len() implies #[trigger] t[i] != c by {
            assert(s[i] != c);
        }
        lemma_split_plain(t, c);
        assert(s[s.len() - 1] != c);
        assert(t.push(s.last()) =~= s);
    } else {
        assert(s =~= Seq::empty());
    }
}

/// A text of two with a separator between them has the parts of the first and the
/// second, where the second has no separator.
pub proof fn separators_split(a: Seq<char>, c: char, b: Seq<char>)
    requires
        forall|i: int| 0 <= i < b.len() ==> #[trigger] b[i] != c,
    ensures
        split_seq(a + seq![c] + b, c) == split_seq(a, c).push(b),
        split_seq(b, c) == seq![b],
    decreases b.len(),
{
    lemma_split_plain(b, c);
    let s = a + seq![c] + b;
    if b.len() == 0 {
        assert(s.last() == c);
        assert(s.drop_last() =~= a);
        assert(b =~= Seq::empty());
    } else {
        let t = b.drop_last();
        assert forall|i: int| 0 <= i < t.len() implies #[trigger] t[i] != c by {
            assert(b[i] != c);
        }
        separators_split(a, c, t);
        assert(b[b.len() - 1] != c);
        assert(s.last() == b.last());
        assert(s.drop_last() =~= a + seq![c] + t);
        assert(split_seq(a, c).push(t).drop_last() =~= split_seq(a, c));
        assert(t.push(b.last()) =~= b);
    }
}

/// A text with a colon is no plain number.
proof fn lemma_colon_is_no_number(s: Seq<char>, k: int)
    requires
        0 <= k < s.len(),
        s[k] == ':',
    ensures
        quantity_of(s) is None,
{
    let body = unsigned(s);
    let j = if body.len() < s.len() {
        k - 1
    } else {
        k
    };
    assert(body[j] == ':');
    reveal_strlit("inf");
    reveal_strlit("infinity");
    reveal_strlit("nan");
    let name = text::lower_seq(body);
    assert(name[j] == ':');
    assert forall|i: int| 0 <= i < 3 implies #[trigger] "inf"@[i] != ':' by {}
    assert forall|i: int| 0 <= i < 8 implies #[trigger] "infinity"@[i] != ':' by {}
    assert forall|i: int| 0 <= i < 3 implies #[trigger] "nan"@[i] != ':' by {}
    assert("inf"@.len() == 3 && "infinity"@.len() == 8 && "nan"@.len() == 3);
    if name == "inf"@ {
        assert("inf"@[j] != ':');
    }
    if name == "infinity"@ {
        assert("infinity"@[j] != ':');
    }
    if name == "nan"@ {
        assert("nan"@[j] != ':');
    }
    lemma_index_bound(body, 'e');
    lemma_index_bound(body, 'E');
    let x = exponent_at(body);
    let mantissa = body.take(x);
    lemma_index_bound(mantissa, '.');
    let point = index_of_char(mantissa, '.');
    let whole = mantissa.take(point);
    let part = if point < mantissa.len() {
        mantissa.skip(point + 1)
    } else {
        Seq::empty()
    };
    let digits = whole + part;
    if j < x {
        assert(mantissa[j] == ':');
        if j < point {
            assert(digits[j] == ':');
            assert(!normalize::ascii_digit(digits[j]));
        } else {
            assert(j > point);
            assert(part[j - point - 1] == ':');
            assert(digits[whole.len() + (j - point - 1)] == ':');
            assert(!normalize::ascii_digit(digits[whole.len() + (j - point - 1)]));
        }
    } else {
        assert(j > x);
        let e = body.skip(x + 1);
        assert(e[j - x - 1] == ':');
        let d = unsigned(e);
        let q = if d.len() < e.len() {
            j - x - 2
        } else {
            j - x - 1
        };
        assert(d[q] == ':');
        assert(!normalize::ascii_digit(d[q]));
    }
    assert(number_parts(body) is None);
}

proof fn lemma_index_bound(s: Seq<char>, c: char)
    ensures
        0 <= index_of_char(s, c) <= s.len(),
        index_of_char(s, c) < s.len() ==> s[index_of_char(s, c)] == c,
    decreases s.len(),
{
    if s.len() > 0 && s[0] != c {
        lemma_index_bound(s.drop_first(), c);
    }
}

/// A clock of minutes and seconds, or of hours, minutes and seconds, is read as its
/// time: each part counts sixty of the next.
pub proof fn clocks_are_read(h: Seq<char>, m: Seq<char>, s: Seq<char>, x: i64, y: i64, z: i64)
    requires
        forall|i: int| 0 <= i < h.len() ==> #[trigger] h[i] != ':',
        forall|i: int| 0 <= i < m.len() ==> #[trigger] m[i] != ':',
        forall|i: int| 0 <= i < s.len() ==> #[trigger] s[i] != ':',
        finite_of(text::trim_seq(h)) == Some(x),
        finite_of(text::trim_seq(m)) == Some(y),
        finite_of(text::trim_seq(s)) == Some(z),
        0 <= x <= 1_000_000_000_000,
        0 <= y <= 1_000_000_000_000,
        0 <= z <= 1_000_000_000_000,
    ensures
        clock_or_seconds(m + seq![':'] + s) == Some((60 * y + z) as i64),
        clock_or_seconds(h + seq![':'] + m + seq![':'] + s) == Some(
            (3600 * x + 60 * y + z) as i64,
        ),
{
    let two = m + seq![':'] + s;
    let first = h + seq![':'] + m;
    let three = first + seq![':'] + s;
    assert(two[m.len() as int] == ':');
    assert(three[h.len() as int] == ':');
    lemma_colon_is_no_number(two, m.len() as int);
    lemma_colon_is_no_number(three, h.len() as int);
    separators_split(m, ':', s);
    separators_split(Seq::empty(), ':', m);
    separators_split(Seq::empty(), ':', h);
    separators_split(h, ':', m);
    separators_split(first, ':', s);
    let p2 = seq![m].push(s);
    let p3 = seq![h].push(m).push(s);
    assert(split_seq(two, ':') == p2);
    assert(split_seq(three, ':') == p3);
    assert(p2.drop_last() =~= seq![m]);
    assert(p3.drop_last() =~= seq![h].push(m));
    assert(seq![h].push(m).drop_last() =~= seq![h]);
    assert(seq![m].drop_last() =~= Seq::empty());
    assert(seq![h].drop_last() =~= Seq::empty());
    assert(clock_total(Seq::empty()) == Some(0int));
    assert(seq![m].last() == m && seq![h].last() == h);
    assert(clock_total(seq![m]) == Some(y as int));
    assert(clock_total(seq![h]) == Some(x as int));
    assert(clock_total(seq![h].push(m)) == Some(x * 60 + y));
    assert(clock_total(p2) == Some(y * 60 + z));
    assert(clock_total(p3) == Some((x * 60 + y) * 60 + z));
}

/// An infinity and what is no number are read by their names, whatever the case.
pub proof fn other_numbers_are_read_by_name(s: Seq<char>)
    requires
        s.len() > 0,
        s[0] != '+',
        s[0] != '-',
    ensures
        text::lower_seq(s) == "inf"@ || text::lower_seq(s) == "infinity"@ ==> quantity_of(s)
            == Some(Quantity::Infinite),
        text::lower_seq(s) == "nan"@ ==> quantity_of(s) == Some(Quantity::NotANumber),
        finite_of(s) is Some <==> quantity_of(s) is Some && quantity_of(s)->0 is Micros,
{
    reveal_strlit("inf");
    reveal_strlit("infinity");
    reveal_strlit("nan");
    assert("inf"@[0] == 'i' && "infinity"@[0] == 'i' && "nan"@[0] == 'n');
}

/// A decimal number with a seventh place is read to the nearest millionth; a half goes up.
#[verifier::spinoff_prover]
#[verifier::rlimit(40)]
pub proof fn decimals_are_rounded(w: Seq<char>, f: Seq<char>, d: char)
    requires
        0 < w.len() <= 12,
        f.len() == 6,
        forall|i: int| 0 <= i < w.len() ==> '0' <= #[trigger] w[i] <= '9',
        forall|i: int| 0 <= i < f.len() ==> '0' <= #[trigger] f[i] <= '9',
        '0' <= d <= '9',
    ensures
        ({
            let place = |v: int, c: char| v * 10 + (c as int - '0' as int);
            let n = w.fold_left(0int, place) * 1_000_000 + f.fold_left(0int, place);
            quantity_of(w + seq!['.'] + f.push(d)) == Some(
                Quantity::Micros(
                    if d >= '5' {
                        n + 1
                    } else {
                        n
                    } as i64,
                ),
            )
        }),
{
    let g = f.push(d);
    let s = w + seq!['.'] + g;
    assert forall|i: int| 0 <= i < s.len() implies #[trigger] s[i] == '.' || '0' <= s[i] <= '9' by {
        if i < w.len() {
            assert(s[i] == w[i]);
        } else if i > w.len() {
            assert(s[i] == g[i - w.len() - 1]);
            if i - w.len() - 1 < 6 {
                assert(g[i - w.len() - 1] == f[i - w.len() - 1]);
            }
        }
    }
    assert(s[0] == w[0]);
    lemma_number_is_read(s);
    lemma_first_char(w, '.', g);
    assert(s.take(w.len() as int) =~= w);
    assert(s.skip(w.len() as int + 1) =~= g);
    let digits = w + g;
    assert forall|i: int| 0 <= i < digits.len() implies normalize::ascii_digit(
        #[trigger] digits[i],
    ) by {
        if i < w.len() {
            assert(digits[i] == w[i]);
        } else if i - w.len() < 6 {
            assert(digits[i] == f[i - w.len()]);
        }
    }
    assert forall|i: int| 0 <= i < w.len() implies normalize::ascii_digit(#[trigger] w[i]) by {}
    assert forall|i: int| 0 <= i < f.len() implies normalize::ascii_digit(#[trigger] f[i]) by {}
    assert(number_parts(s) == Some((digits, w.len() as int)));
    lemma_in_range(w);
    lemma_digits_bounded(f);
    assert(digits.take(w.len() as int) =~= w);
    assert(!beyond_range(s));
    assert(digits.take(w.len() as int + 6) =~= w + f);
    assert(digits[w.len() as int + 6] == d);
    lemma_digits_joined(w, f);
    lemma_digits_fold(w);
    lemma_digits_fold(f);
    reveal_with_fuel(shifted, 8);
    assert(number_of(s) == Some(rounded_at(digits, w.len() as int + 6)));
}

/// Digits without a point are read as so many whole ones.
pub proof fn whole_numbers_are_read(w: Seq<char>)
    requires
        0 < w.len() <= 12,
        forall|i: int| 0 <= i < w.len() ==> '0' <= #[trigger] w[i] <= '9',
    ensures
        quantity_of(w) == Some(
            Quantity::Micros(
                (w.fold_left(0int, |v: int, c: char| v * 10 + (c as int - '0' as int))
                    * 1_000_000) as i64,
            ),
        ),
{
    assert forall|i: int| 0 <= i < w.len() implies #[trigger] w[i] == '.' || '0' <= w[i]
        <= '9' by {}
    lemma_number_is_read(w);
    lemma_absent_char(w, '.');
    assert(w.take(w.len() as int) =~= w);
    let none = Seq::<char>::empty();
    assert(w + none =~= w);
    assert forall|i: int| 0 <= i < w.len() implies normalize::ascii_digit(#[trigger] w[i]) by {}
    assert(number_parts(w) == Some((w, w.len() as int)));
    lemma_in_range(w);
    lemma_digits_fold(w);
    assert(!beyond_range(w));
    reveal_with_fuel(shifted, 8);
    assert(rounded_at(w, w.len() as int + 6) == shifted(digits_value(w), 6));
}

} // verus!
