//! Times and ratios: whole numbers of microseconds or of millionths, and what a
//! caller hands in that may not be a finite number.

use vstd::prelude::*;
use vstd::string::*;
use crate::json::{self, saturate_i64};
use crate::text;

verus! {

/// A number as a caller hands it in, in millionths of its unit.
#[derive(Debug, Clone, Copy, PartialEq, Eq, Structural)]
pub enum Quantity {
    Micros(i64),
    Infinite,
    NegativeInfinite,
    NotANumber,
}

/// The finite number, where it is one.
pub open spec fn finite(q: Quantity) -> Option<i64> {
    match q {
        Quantity::Micros(n) => Some(n),
        _ => None,
    }
}

impl Quantity {
    /// The finite number, where it is one.
    pub fn as_finite(&self) -> (r: Option<i64>)
        ensures
            r == finite(*self),
    {
        match self {
            Quantity::Micros(n) => Some(*n),
            _ => None,
        }
    }
}

/// The distance of `n` from zero.
pub open spec fn magnitude(n: int) -> int {
    if n < 0 {
        -n
    } else {
        n
    }
}

/// `micros` in thousandths of its unit, to the nearest; a half goes away from
/// zero.
pub open spec fn nearest_millis(micros: int) -> int {
    if micros < 0 {
        -((-micros + 500) / 1000)
    } else {
        (micros + 500) / 1000
    }
}

/// A number of thousandths between 0 and 999 with all its three digits.
pub open spec fn three_digits(n: int) -> Seq<char> {
    seq![
        text::digit_char(n / 100),
        text::digit_char((n / 10) % 10),
        text::digit_char(n % 10),
    ]
}

/// The decimal text of a number of millionths, with three places.
pub open spec fn millis_text(micros: int) -> Seq<char> {
    let n = magnitude(nearest_millis(micros));
    let sign: Seq<char> = if micros < 0 {
        seq!['-']
    } else {
        seq![]
    };
    sign + text::decimal((n / 1000) as nat) + seq!['.'] + three_digits(n % 1000)
}

/// The text of a number as it enters an identifier, with three places.
pub open spec fn quantity_text(q: Quantity) -> Seq<char> {
    match q {
        Quantity::Micros(n) => millis_text(n as int),
        Quantity::Infinite => "inf"@,
        Quantity::NegativeInfinite => "-inf"@,
        Quantity::NotANumber => "NaN"@,
    }
}

/// The decimal text of a number of millionths, with three places.
pub fn millis_string(micros: i64) -> (r: String)
    ensures
        r@ == millis_text(micros as int),
{
    let m: i128 = if micros < 0 {
        -(micros as i128)
    } else {
        micros as i128
    };
    let n: i128 = (m + 500) / 1000;
    let mut r = String::new();
    if micros < 0 {
        r.push('-');
    }
    let whole: u64 = (n / 1000) as u64;
    let part: u64 = (n % 1000) as u64;
    let t = text::u64_text(whole);
    r.append(t.as_str());
    r.push('.');
    let a: u8 = (part / 100) as u8;
    let b: u8 = ((part / 10) % 10) as u8;
    let c: u8 = (part % 10) as u8;
    r.push((48u8 + a) as char);
    r.push((48u8 + b) as char);
    r.push((48u8 + c) as char);
    proof {
        let k = magnitude(nearest_millis(micros as int));
        assert(k == n);
        let sign: Seq<char> = if micros < 0 {
            seq!['-']
        } else {
            seq![]
        };
        assert(r@ =~= sign + text::decimal(whole as nat) + seq!['.'] + three_digits(part as int));
    }
    r
}

/// The text of a number as it enters an identifier, with three places.
pub fn quantity_string(q: &Quantity) -> (r: String)
    ensures
        r@ == quantity_text(*q),
{
    match q {
        Quantity::Micros(n) => millis_string(*n),
        Quantity::Infinite => "inf".to_owned(),
        Quantity::NegativeInfinite => "-inf".to_owned(),
        Quantity::NotANumber => "NaN".to_owned(),
    }
}

/// The nearest whole number of thousandths.
pub fn round_millis(micros: i64) -> (r: i64)
    ensures
        r == json::clamp_i64(nearest_millis(micros as int) * 1000),
{
    let m: i128 = if micros < 0 {
        -(micros as i128)
    } else {
        micros as i128
    };
    let n: i128 = (m + 500) / 1000;
    if micros < 0 {
        saturate_i64(-n * 1000)
    } else {
        saturate_i64(n * 1000)
    }
}

/// The text of a time for a command line; a negative time is zero.
pub fn format_seconds(micros: i64) -> (r: String)
    ensures
        r@ == millis_text(
            if micros < 0 {
                0
            } else {
                micros as int
            },
        ),
{
    if micros < 0 {
        millis_string(0)
    } else {
        millis_string(micros)
    }
}

/// Rounding moves a time by half a millisecond at most, and a rounded time
/// stays as it is.
pub proof fn rounding_is_near_and_stable(micros: int)
    ensures
        magnitude(nearest_millis(micros) * 1000 - micros) <= 500,
        nearest_millis(nearest_millis(micros) * 1000) == nearest_millis(micros),
{
}

/// Whether two time ranges share more than a boundary.
pub open spec fn overlap(a_start: int, a_end: int, b_start: int, b_end: int) -> bool {
    a_start < b_end && b_start < a_end
}

/// Whether two time ranges share more than a boundary.
pub fn ranges_overlap(left_start: i64, left_end: i64, right_start: i64, right_end: i64) -> (r: bool)
    ensures
        r == overlap(
            left_start as int,
            left_end as int,
            right_start as int,
            right_end as int,
        ),
{
    left_start < right_end && right_start < left_end
}

/// Overlap does not depend on which range is named first.
pub proof fn overlap_is_symmetric(a_start: int, a_end: int, b_start: int, b_end: int)
    ensures
        overlap(a_start, a_end, b_start, b_end) == overlap(b_start, b_end, a_start, a_end),
{
}

/// The text of a time: its seconds and three places, to the nearest thousandth, with a
/// minus sign where it is negative.
pub proof fn times_are_written_to_the_millisecond(micros: int)
    requires
        0 <= micros,
    ensures
        ({
            let n = (micros + 500) / 1_000;
            &&& n * 1_000 - 500 <= micros < n * 1_000 + 500
            &&& millis_text(micros) == text::decimal((n / 1_000) as nat) + seq!['.'] + three_digits(
                n % 1_000,
            )
            &&& micros > 0 ==> millis_text(-micros) == seq!['-'] + millis_text(micros)
            &&& three_digits(n % 1_000).len() == 3
        }),
{
    let n = (micros + 500) / 1_000;
    let body = text::decimal((n / 1_000) as nat) + seq!['.'] + three_digits(n % 1_000);
    assert(Seq::<char>::empty() + text::decimal((n / 1_000) as nat) + seq!['.'] + three_digits(
        n % 1_000,
    ) =~= body);
    if micros > 0 {
        assert(seq!['-'] + text::decimal((n / 1_000) as nat) + seq!['.'] + three_digits(n % 1_000)
            =~= seq!['-'] + body);
    }
}

/// Three digits give their number back.
pub proof fn three_digits_give_the_number_back(n: int)
    requires
        0 <= n <= 999,
    ensures
        ({
            let d = three_digits(n);
            &&& d.len() == 3
            &&& (d[0] as int - '0' as int) * 100 + (d[1] as int - '0' as int) * 10 + (d[2] as int
                - '0' as int) == n
        }),
{
}

/// Two time ranges share time just where neither ends before the other starts; then some
/// moment lies inside of both, and where one does they share time.
pub proof fn overlapping_ranges_share_a_moment(
    a_start: int,
    a_end: int,
    b_start: int,
    b_end: int,
    moment: int,
) -> (t: int)
    requires
        a_start < a_end,
        b_start < b_end,
    ensures
        a_start <= moment < a_end && b_start <= moment < b_end ==> overlap(
            a_start,
            a_end,
            b_start,
            b_end,
        ),
        overlap(a_start, a_end, b_start, b_end) ==> a_start <= t < a_end && b_start <= t < b_end,
        overlap(a_start, a_end, b_start, b_end) <==> !(a_end <= b_start || b_end <= a_start),
{
    if a_start < b_start {
        b_start
    } else {
        a_start
    }
}

/// What is infinite or no number has a text of its own.
pub proof fn other_quantities_are_named(q: Quantity)
    ensures
        q == Quantity::Infinite ==> quantity_text(q) == "inf"@,
        q == Quantity::NegativeInfinite ==> quantity_text(q) == "-inf"@,
        q == Quantity::NotANumber ==> quantity_text(q) == "NaN"@,
        finite(q) is Some <==> q is Micros,
        q is Micros ==> finite(q) == Some(q->Micros_0),
{
}

} // verus!
