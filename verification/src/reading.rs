//! Reading a member of a JSON value that goes by several names.

use vstd::prelude::*;
use crate::json::{self, Json, JsonNumber, JsonValue};
use crate::number::{self, parse_clock_or_seconds, parse_finite};
use crate::text;

verus! {

/// The texts of some names.
pub open spec fn names(keys: Seq<&str>) -> Seq<Seq<char>> {
    keys.map_values(|k: &str| k@)
}

/// The elements of an array.
pub open spec fn json_array(j: Json) -> Option<Seq<Json>> {
    match j {
        Json::Array(a) => Some(a),
        _ => None,
    }
}

/// The elements of an array, as mathematical values.
pub open spec fn elements_of(a: Seq<JsonValue>) -> Seq<Json> {
    a.map_values(|v: JsonValue| v@)
}

pub fn as_array(v: &JsonValue) -> (r: Option<&Vec<JsonValue>>)
    ensures
        match r {
            Some(a) => json_array(v@) == Some(elements_of(a@)),
            None => json_array(v@) is None,
        },
{
    match v {
        JsonValue::Array(a) => {
            proof {
                json::lemma_view_array(*a, elements_of(a@));
            }
            Some(a)
        },
        _ => None,
    }
}

/// The first member that is there under one of some names.
pub open spec fn first_member(j: Json, keys: Seq<Seq<char>>) -> Option<Json>
    decreases keys.len(),
{
    if keys.len() == 0 {
        None
    } else {
        match json::json_get(j, keys[0]) {
            Some(v) => Some(v),
            None => first_member(j, keys.drop_first()),
        }
    }
}

pub fn find_first_member<'a>(value: &'a JsonValue, keys: &Vec<&str>) -> (r: Option<&'a JsonValue>)
    ensures
        json::opt_json(r) == first_member(value@, names(keys@)),
{
    let ghost all = names(keys@);
    let mut i: usize = 0;
    proof {
        assert(all.skip(0) =~= all);
    }
    while i < keys.len()
        invariant
            i <= keys@.len(),
            all == names(keys@),
            first_member(value@, all) == first_member(value@, all.skip(i as int)),
        decreases keys@.len() - i,
    {
        proof {
            assert(all.skip(i as int)[0] == keys@[i as int]@);
            assert(all.skip(i as int).drop_first() =~= all.skip(i + 1));
        }
        match value.get(keys[i]) {
            Some(v) => {
                return Some(v);
            },
            None => {},
        }
        i += 1;
    }
    None
}

/// What is neither a number nor the time in a text is no time.
pub open spec fn time_in(j: Json) -> Option<i64> {
    match json::json_micros(j) {
        Some(t) => Some(t),
        None => match json::json_text(j) {
            Some(s) => if text::trim_seq(s).len() == 0 {
                None
            } else {
                number::clock_or_seconds(text::trim_seq(s))
            },
            None => None,
        },
    }
}

/// The first time that can be read under one of some names, in microseconds.
pub open spec fn first_time(j: Json, keys: Seq<Seq<char>>) -> Option<i64>
    decreases keys.len(),
{
    if keys.len() == 0 {
        None
    } else {
        let here = match json::json_get(j, keys[0]) {
            Some(v) => time_in(v),
            None => None,
        };
        if here is Some {
            here
        } else {
            first_time(j, keys.drop_first())
        }
    }
}

fn read_time(raw: &JsonValue) -> (r: Option<i64>)
    ensures
        r == time_in(raw@),
{
    match raw.as_micros() {
        Some(t) => Some(t),
        None => match raw.as_text() {
            Some(s) => {
                let t = text::trim(s.as_str());
                if text::str_eq(t.as_str(), "") {
                    proof {
                        reveal_strlit("");
                    }
                    None
                } else {
                    proof {
                        reveal_strlit("");
                        if t@.len() == 0 {
                            assert(t@ =~= ""@);
                        }
                    }
                    parse_clock_or_seconds(t.as_str())
                }
            },
            None => None,
        },
    }
}

/// The first time that can be read under one of some names, in microseconds.
pub fn provider_seconds(value: &JsonValue, keys: &Vec<&str>) -> (r: Option<i64>)
    ensures
        r == first_time(value@, names(keys@)),
{
    let ghost all = names(keys@);
    let mut i: usize = 0;
    proof {
        assert(all.skip(0) =~= all);
    }
    while i < keys.len()
        invariant
            i <= keys@.len(),
            all == names(keys@),
            first_time(value@, all) == first_time(value@, all.skip(i as int)),
        decreases keys@.len() - i,
    {
        proof {
            assert(all.skip(i as int)[0] == keys@[i as int]@);
            assert(all.skip(i as int).drop_first() =~= all.skip(i + 1));
        }
        match value.get(keys[i]) {
            Some(raw) => {
                let t = read_time(raw);
                if t.is_some() {
                    return t;
                }
            },
            None => {},
        }
        i += 1;
    }
    None
}

/// A ratio in millionths: a number up to one, or one up to a hundred that
/// counts hundredths.
pub open spec fn ratio_of(micros: int) -> Option<i64> {
    if micros < 0 {
        None
    } else if micros <= 1_000_000 {
        Some(micros as i64)
    } else if micros <= 100_000_000 {
        Some((micros / 100) as i64)
    } else {
        None
    }
}

/// A ratio in millionths.
pub fn normalize_visual_ratio(micros: i64) -> (r: Option<i64>)
    ensures
        r == ratio_of(micros as int),
{
    if micros < 0 {
        None
    } else if micros <= 1_000_000 {
        Some(micros)
    } else if micros <= 100_000_000 {
        Some(micros / 100)
    } else {
        None
    }
}

/// The number in a member: a number, or a text that stands for a finite one.
pub open spec fn number_in(j: Json) -> Option<i64> {
    match json::json_micros(j) {
        Some(n) => Some(n),
        None => match json::json_text(j) {
            Some(s) => number::finite_of(text::trim_seq(s)),
            None => None,
        },
    }
}

/// The first ratio that can be read under one of some names, in millionths.
pub open spec fn first_ratio(j: Json, keys: Seq<Seq<char>>) -> Option<i64>
    decreases keys.len(),
{
    if keys.len() == 0 {
        None
    } else {
        let here = match json::json_get(j, keys[0]) {
            Some(v) => match number_in(v) {
                Some(n) => ratio_of(n as int),
                None => None,
            },
            None => None,
        };
        if here is Some {
            here
        } else {
            first_ratio(j, keys.drop_first())
        }
    }
}

fn read_number(raw: &JsonValue) -> (r: Option<i64>)
    ensures
        r == number_in(raw@),
{
    match raw.as_micros() {
        Some(n) => Some(n),
        None => match raw.as_text() {
            Some(s) => {
                let t = text::trim(s.as_str());
                parse_finite(t.as_str())
            },
            None => None,
        },
    }
}

/// The first ratio that can be read under one of some names, in millionths.
pub fn visual_ratio(value: &JsonValue, keys: &Vec<&str>) -> (r: Option<i64>)
    ensures
        r == first_ratio(value@, names(keys@)),
{
    let ghost all = names(keys@);
    let mut i: usize = 0;
    proof {
        assert(all.skip(0) =~= all);
    }
    while i < keys.len()
        invariant
            i <= keys@.len(),
            all == names(keys@),
            first_ratio(value@, all) == first_ratio(value@, all.skip(i as int)),
        decreases keys@.len() - i,
    {
        proof {
            assert(all.skip(i as int)[0] == keys@[i as int]@);
            assert(all.skip(i as int).drop_first() =~= all.skip(i + 1));
        }
        match value.get(keys[i]) {
            Some(raw) => match read_number(raw) {
                Some(n) => {
                    let ratio = normalize_visual_ratio(n);
                    if ratio.is_some() {
                        return ratio;
                    }
                },
                None => {},
            },
            None => {},
        }
        i += 1;
    }
    None
}

/// The first truth value under one of some names.
pub open spec fn first_bool(j: Json, keys: Seq<Seq<char>>) -> Option<bool>
    decreases keys.len(),
{
    if keys.len() == 0 {
        None
    } else {
        let here = match json::json_get(j, keys[0]) {
            Some(v) => json::json_bool(v),
            None => None,
        };
        if here is Some {
            here
        } else {
            first_bool(j, keys.drop_first())
        }
    }
}

/// Whether the first truth value under one of some names is true; where there
/// is none, it is not.
pub fn visual_bool(value: &JsonValue, keys: &Vec<&str>) -> (r: bool)
    ensures
        r == (first_bool(value@, names(keys@)) == Some(true)),
{
    let ghost all = names(keys@);
    let mut i: usize = 0;
    proof {
        assert(all.skip(0) =~= all);
    }
    while i < keys.len()
        invariant
            i <= keys@.len(),
            all == names(keys@),
            first_bool(value@, all) == first_bool(value@, all.skip(i as int)),
        decreases keys@.len() - i,
    {
        proof {
            assert(all.skip(i as int)[0] == keys@[i as int]@);
            assert(all.skip(i as int).drop_first() =~= all.skip(i + 1));
        }
        match value.get(keys[i]) {
            Some(raw) => match raw.as_bool() {
                Some(b) => {
                    return b;
                },
                None => {},
            },
            None => {},
        }
        i += 1;
    }
    false
}

/// Every ratio lies between nothing and all.
pub proof fn ratios_are_parts(micros: int)
    ensures
        ratio_of(micros) is Some ==> 0 <= ratio_of(micros)->0 <= 1_000_000,
        ratio_of(micros) is Some <==> 0 <= micros <= 100_000_000,
{
}

/// A time counts under the first of its names that holds one: a number of
/// seconds, or a text.
pub proof fn first_readable_time_counts(j: Json, keys: Seq<Seq<char>>, k: int, t: i64)
    requires
        0 <= k < keys.len(),
        json::json_get(j, keys[k]) is Some,
        time_in(json::json_get(j, keys[k])->0) == Some(t),
        forall|i: int|
            0 <= i < k ==> match json::json_get(j, #[trigger] keys[i]) {
                Some(v) => time_in(v) is None,
                None => true,
            },
    ensures
        first_time(j, keys) == Some(t),
    decreases k,
{
    if k > 0 {
        let rest = keys.drop_first();
        assert(match json::json_get(j, keys[0]) {
            Some(v) => time_in(v) is None,
            None => true,
        });
        assert forall|i: int| 0 <= i < k - 1 implies match json::json_get(j, #[trigger] rest[i]) {
            Some(v) => time_in(v) is None,
            None => true,
        } by {
            assert(rest[i] == keys[i + 1]);
        }
        first_readable_time_counts(j, rest, k - 1, t);
    }
}

/// A time that is read is read under one of its names.
pub proof fn times_are_read_under_a_name(j: Json, keys: Seq<Seq<char>>) -> (k: int)
    requires
        first_time(j, keys) is Some,
    ensures
        0 <= k < keys.len(),
        json::json_get(j, keys[k]) is Some,
        time_in(json::json_get(j, keys[k])->0) == first_time(j, keys),
    decreases keys.len(),
{
    let here = match json::json_get(j, keys[0]) {
        Some(v) => time_in(v),
        None => None,
    };
    if here is Some {
        0
    } else {
        times_are_read_under_a_name(j, keys.drop_first()) + 1
    }
}

/// The times in numbers: whole seconds and fractions of a second alike, as
/// microseconds.
pub proof fn times_are_seconds(n: u64, m: i64)
    ensures
        n <= 9_000_000_000_000 ==> time_in(Json::Number(JsonNumber::Unsigned(n))) == Some(
            (n * 1_000_000) as i64,
        ),
        time_in(Json::Number(JsonNumber::Fraction(m))) == Some(m),
        -9_000_000_000_000 <= m < 0 ==> time_in(Json::Number(JsonNumber::Negative(m))) == Some(
            (m * 1_000_000) as i64,
        ),
        time_in(Json::Null) is None,
        time_in(Json::Bool(true)) is None,
        time_in(Json::Bool(false)) is None,
{
}

/// A ratio counts under the first of its names that holds one: up to one as it
/// is, from one to a hundred as so many hundredths.
pub proof fn first_readable_ratio_counts(j: Json, keys: Seq<Seq<char>>, k: int, n: i64)
    requires
        0 <= k < keys.len(),
        json::json_get(j, keys[k]) == Some(Json::Number(JsonNumber::Fraction(n))),
        0 <= n <= 100_000_000,
        forall|i: int| 0 <= i < k ==> json::json_get(j, #[trigger] keys[i]) is None,
    ensures
        n <= 1_000_000 ==> first_ratio(j, keys) == Some(n),
        n > 1_000_000 ==> first_ratio(j, keys) == Some((n / 100) as i64),
    decreases k,
{
    if k > 0 {
        let rest = keys.drop_first();
        assert(json::json_get(j, keys[0]) is None);
        assert forall|i: int| 0 <= i < k - 1 implies json::json_get(
            j,
            #[trigger] rest[i],
        ) is None by {
            assert(rest[i] == keys[i + 1]);
        }
        first_readable_ratio_counts(j, rest, k - 1, n);
    }
}

/// A truth value counts under the first of its names that is there.
pub proof fn first_truth_value_counts(j: Json, keys: Seq<Seq<char>>, k: int, b: bool)
    requires
        0 <= k < keys.len(),
        json::json_get(j, keys[k]) == Some(Json::Bool(b)),
        forall|i: int| 0 <= i < k ==> json::json_get(j, #[trigger] keys[i]) is None,
    ensures
        first_bool(j, keys) == Some(b),
    decreases k,
{
    if k > 0 {
        let rest = keys.drop_first();
        assert(json::json_get(j, keys[0]) is None);
        assert forall|i: int| 0 <= i < k - 1 implies json::json_get(
            j,
            #[trigger] rest[i],
        ) is None by {
            assert(rest[i] == keys[i + 1]);
        }
        first_truth_value_counts(j, rest, k - 1, b);
    }
}

/// A member counts under the first of its names that is there.
pub proof fn first_member_there_counts(j: Json, keys: Seq<Seq<char>>, k: int)
    requires
        0 <= k < keys.len(),
        json::json_get(j, keys[k]) is Some,
        forall|i: int| 0 <= i < k ==> json::json_get(j, #[trigger] keys[i]) is None,
    ensures
        first_member(j, keys) == json::json_get(j, keys[k]),
    decreases k,
{
    if k > 0 {
        let rest = keys.drop_first();
        assert(json::json_get(j, keys[0]) is None);
        assert forall|i: int| 0 <= i < k - 1 implies json::json_get(
            j,
            #[trigger] rest[i],
        ) is None by {
            assert(rest[i] == keys[i + 1]);
        }
        first_member_there_counts(j, rest, k - 1);
    }
}

} // verus!
