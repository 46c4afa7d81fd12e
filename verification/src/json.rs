//! JSON values: settings, provider responses and detector payloads.
//!
//! A number keeps the three forms that JSON text distinguishes. A fraction is
//! held in millionths, which is finer than any threshold of the library.

use vstd::prelude::*;
use crate::text;

verus! {

/// The number of millionths in one.
pub const MICROS: i64 = 1_000_000;

/// A JSON number.
#[derive(Debug, Clone, Copy, PartialEq, Eq, Structural)]
pub enum JsonNumber {
    /// A whole number that is not negative.
    Unsigned(u64),
    /// A negative whole number.
    Negative(i64),
    /// A number with a fraction part, in millionths.
    Fraction(i64),
}

/// A JSON value.
#[derive(Debug)]
pub enum JsonValue {
    Null,
    Bool(bool),
    Number(JsonNumber),
    Text(String),
    Array(Vec<JsonValue>),
    /// The members in the order in which they are walked.
    Object(Vec<(String, JsonValue)>),
}

/// What a JSON value is, as a mathematical value.
pub enum Json {
    Null,
    Bool(bool),
    Number(JsonNumber),
    Text(Seq<char>),
    Array(Seq<Json>),
    Object(Seq<(Seq<char>, Json)>),
}

impl View for JsonValue {
    type V = Json;

    open spec fn view(&self) -> Json {
        json_of(*self)
    }
}

/// The mathematical value of a JSON value.
pub open spec fn json_of(v: JsonValue) -> Json
    decreases v,
{
    match v {
        JsonValue::Null => Json::Null,
        JsonValue::Bool(b) => Json::Bool(b),
        JsonValue::Number(n) => Json::Number(n),
        JsonValue::Text(s) => Json::Text(s@),
        JsonValue::Array(a) => Json::Array(
            Seq::new(
                a@.len(),
                |i: int|
                    if 0 <= i < a@.len() {
                        json_of(a@[i])
                    } else {
                        Json::Null
                    },
            ),
        ),
        JsonValue::Object(o) => Json::Object(
            Seq::new(
                o@.len(),
                |i: int|
                    if 0 <= i < o@.len() {
                        (o@[i].0@, json_of(o@[i].1))
                    } else {
                        (Seq::empty(), Json::Null)
                    },
            ),
        ),
    }
}

/// The members of an object, as mathematical values.
pub open spec fn members_of(o: Seq<(String, JsonValue)>) -> Seq<(Seq<char>, Json)> {
    o.map_values(|m: (String, JsonValue)| (m.0@, json_of(m.1)))
}

/// The value of the first member with the given key.
pub open spec fn lookup(members: Seq<(Seq<char>, Json)>, key: Seq<char>) -> Option<Json>
    decreases members.len(),
{
    if members.len() == 0 {
        None
    } else if members[0].0 == key {
        Some(members[0].1)
    } else {
        lookup(members.drop_first(), key)
    }
}

/// The members with `key` set to `value`: in its old place where the key is
/// there, else before the first greater key.
pub open spec fn with_member(
    members: Seq<(Seq<char>, Json)>,
    key: Seq<char>,
    value: Json,
) -> Seq<(Seq<char>, Json)>
    decreases members.len(),
{
    if members.len() == 0 {
        seq![(key, value)]
    } else if members[0].0 == key {
        seq![(key, value)] + members.drop_first()
    } else if text::lex_lt(key, members[0].0) {
        seq![(key, value)] + members
    } else {
        seq![members[0]] + with_member(members.drop_first(), key, value)
    }
}

/// The value of a member of an object; no other value has members.
pub open spec fn json_get(j: Json, key: Seq<char>) -> Option<Json> {
    match j {
        Json::Object(members) => lookup(members, key),
        _ => None,
    }
}

/// The member under `a`, or the one under `b` where there is none under `a`.
pub open spec fn json_get_either(j: Json, a: Seq<char>, b: Seq<char>) -> Option<Json> {
    match json_get(j, a) {
        Some(v) => Some(v),
        None => json_get(j, b),
    }
}

/// The member under a key of a value that may be absent.
pub open spec fn json_get_opt(j: Option<Json>, key: Seq<char>) -> Option<Json> {
    match j {
        Some(v) => json_get(v, key),
        None => None,
    }
}

/// The members of an object; any other value has none.
pub open spec fn json_members(j: Json) -> Seq<(Seq<char>, Json)> {
    match j {
        Json::Object(members) => members,
        _ => Seq::empty(),
    }
}

pub open spec fn json_bool(j: Json) -> Option<bool> {
    match j {
        Json::Bool(b) => Some(b),
        _ => None,
    }
}

pub open spec fn json_text(j: Json) -> Option<Seq<char>> {
    match j {
        Json::Text(s) => Some(s),
        _ => None,
    }
}

/// `n` brought into the range of `i64`.
pub open spec fn clamp_i64(n: int) -> i64 {
    if n > i64::MAX {
        i64::MAX
    } else if n < i64::MIN {
        i64::MIN
    } else {
        n as i64
    }
}

/// A whole number that fits in `i64`.
pub open spec fn json_i64(j: Json) -> Option<i64> {
    match j {
        Json::Number(JsonNumber::Unsigned(n)) => if n <= i64::MAX {
            Some(n as i64)
        } else {
            None
        },
        Json::Number(JsonNumber::Negative(n)) => Some(n),
        _ => None,
    }
}

/// Any number, in millionths.
pub open spec fn json_micros(j: Json) -> Option<i64> {
    match j {
        Json::Number(JsonNumber::Unsigned(n)) => Some(clamp_i64(n * MICROS)),
        Json::Number(JsonNumber::Negative(n)) => Some(clamp_i64(n * MICROS)),
        Json::Number(JsonNumber::Fraction(n)) => Some(n),
        _ => None,
    }
}

/// The mathematical value of a value that may be absent.
pub open spec fn opt_json(v: Option<&JsonValue>) -> Option<Json> {
    match v {
        Some(v) => Some(v@),
        None => None,
    }
}

/// `n` brought into the range of `i64`.
pub fn saturate_i64(n: i128) -> (r: i64)
    ensures
        r == clamp_i64(n as int),
{
    if n > i64::MAX as i128 {
        i64::MAX
    } else if n < i64::MIN as i128 {
        i64::MIN
    } else {
        n as i64
    }
}

/// A member that was set reads back; every other member is what it was.
pub proof fn lemma_lookup_with_member(
    members: Seq<(Seq<char>, Json)>,
    key: Seq<char>,
    value: Json,
    other: Seq<char>,
)
    ensures
        lookup(with_member(members, key, value), other) == if other == key {
            Some(value)
        } else {
            lookup(members, other)
        },
    decreases members.len(),
{
    reveal_with_fuel(lookup, 2);
    let m = with_member(members, key, value);
    if members.len() == 0 {
        assert(m.drop_first() =~= Seq::empty());
    } else if members[0].0 == key {
        assert(m.drop_first() =~= members.drop_first());
    } else if text::lex_lt(key, members[0].0) {
        assert(m.drop_first() =~= members);
    } else {
        lemma_lookup_with_member(members.drop_first(), key, value, other);
        assert(m.drop_first() =~= with_member(members.drop_first(), key, value));
    }
}

/// Of two values that are set under one key, the second counts.
pub proof fn lemma_set_again(
    members: Seq<(Seq<char>, Json)>,
    key: Seq<char>,
    first: Json,
    second: Json,
)
    ensures
        with_member(with_member(members, key, first), key, second) == with_member(
            members,
            key,
            second,
        ),
    decreases members.len(),
{
    let m = with_member(members, key, first);
    if members.len() == 0 {
        assert(m.drop_first() =~= Seq::empty());
    } else if members[0].0 == key {
        assert(m.drop_first() =~= members.drop_first());
    } else if text::lex_lt(key, members[0].0) {
        assert(m.drop_first() =~= members);
    } else {
        assert(m.drop_first() =~= with_member(members.drop_first(), key, first));
        lemma_set_again(members.drop_first(), key, first, second);
    }
}

/// A value that is set again behind another member need not be set before it.
pub proof fn lemma_set_behind(
    members: Seq<(Seq<char>, Json)>,
    key: Seq<char>,
    value: Json,
    other: Seq<char>,
    between: Json,
)
    requires
        key != other,
    ensures
        with_member(
            with_member(with_member(members, key, value), other, between),
            key,
            value,
        ) == with_member(with_member(members, other, between), key, value),
    decreases members.len(),
{
    reveal_with_fuel(with_member, 3);
    text::lex_order_is_total(key, other);
    let set = with_member(members, key, value);
    let both = with_member(set, other, between);
    let alone = with_member(members, other, between);
    if members.len() == 0 {
        assert(set.drop_first() =~= Seq::empty());
        if text::lex_lt(other, key) {
            assert(both.drop_first() =~= set);
        } else {
            assert(both.drop_first() =~= seq![(other, between)]);
        }
        assert(alone.drop_first() =~= Seq::empty());
        assert(with_member(both, key, value) =~= with_member(alone, key, value));
    } else {
        let head = members[0].0;
        let rest = members.drop_first();
        text::lex_order_is_total(key, head);
        text::lex_order_is_total(other, head);
        if key == head {
            assert(set.drop_first() =~= rest);
            if text::lex_lt(other, key) {
                assert(both.drop_first() =~= set);
                assert(alone.drop_first() =~= members);
                assert(with_member(members, key, value) == set);
            } else {
                assert(both.drop_first() =~= with_member(rest, other, between));
                assert(alone.drop_first() =~= with_member(rest, other, between));
            }
        } else if text::lex_lt(key, head) {
            assert(set.drop_first() =~= members);
            if text::lex_lt(other, key) {
                text::lex_order_is_transitive(other, key, head);
                assert(both.drop_first() =~= set);
                assert(alone.drop_first() =~= members);
            } else {
                assert(both.drop_first() =~= alone);
                assert(alone[0].0 == other || alone[0].0 == head);
            }
        } else {
            assert(set.drop_first() =~= with_member(rest, key, value));
            if other == head {
                assert(both.drop_first() =~= with_member(rest, key, value));
                assert(alone.drop_first() =~= rest);
                lemma_set_again(rest, key, value, value);
            } else if text::lex_lt(other, head) {
                text::lex_order_is_transitive(other, head, key);
                assert(both.drop_first() =~= set);
                assert(alone.drop_first() =~= members);
                lemma_set_again(members, key, value, value);
            } else {
                assert(both.drop_first() =~= with_member(
                    with_member(rest, key, value),
                    other,
                    between,
                ));
                assert(alone.drop_first() =~= with_member(rest, other, between));
                lemma_set_behind(rest, key, value, other, between);
            }
        }
    }
}

/// A key that no member has is not found.
pub proof fn lemma_lookup_absent(members: Seq<(Seq<char>, Json)>, key: Seq<char>)
    requires
        forall|i: int| 0 <= i < members.len() ==> (#[trigger] members[i]).0 != key,
    ensures
        lookup(members, key) is None,
    decreases members.len(),
{
    if members.len() > 0 {
        assert(members[0].0 != key);
        let rest = members.drop_first();
        assert forall|i: int| 0 <= i < rest.len() implies (#[trigger] rest[i]).0 != key by {
            assert(rest[i] == members[i + 1]);
        }
        lemma_lookup_absent(rest, key);
    }
}

/// The first member with a key is found.
pub proof fn lemma_lookup_at(members: Seq<(Seq<char>, Json)>, key: Seq<char>, p: int)
    requires
        0 <= p < members.len(),
        members[p].0 == key,
        forall|i: int| 0 <= i < p ==> (#[trigger] members[i]).0 != key,
    ensures
        lookup(members, key) == Some(members[p].1),
    decreases p,
{
    if p > 0 {
        assert(members[0].0 != key);
        let rest = members.drop_first();
        assert forall|i: int| 0 <= i < p - 1 implies (#[trigger] rest[i]).0 != key by {
            assert(rest[i] == members[i + 1]);
        }
        lemma_lookup_at(rest, key, p - 1);
    }
}

pub proof fn lemma_view_array(a: Vec<JsonValue>, b: Seq<Json>)
    requires
        b.len() == a@.len(),
        forall|i: int| 0 <= i < b.len() ==> #[trigger] b[i] == json_of(a@[i]),
    ensures
        json_of(JsonValue::Array(a)) == Json::Array(b),
{
    assert(json_of(JsonValue::Array(a))->Array_0 =~= b);
}

pub proof fn lemma_view_object(o: Vec<(String, JsonValue)>)
    ensures
        json_of(JsonValue::Object(o)) == Json::Object(members_of(o@)),
{
    assert(json_of(JsonValue::Object(o))->Object_0 =~= members_of(o@));
}

impl JsonValue {
    /// A value with the same contents.
    #[verifier::loop_isolation(false)]
    pub fn dup(&self) -> (r: JsonValue)
        ensures
            r@ == self@,
        decreases self,
    {
        match self {
            JsonValue::Null => JsonValue::Null,
            JsonValue::Bool(b) => JsonValue::Bool(*b),
            JsonValue::Number(n) => JsonValue::Number(*n),
            JsonValue::Text(s) => JsonValue::Text(s.clone()),
            JsonValue::Array(a) => {
                let mut out: Vec<JsonValue> = Vec::new();
                let mut i: usize = 0;
                while i < a.len()
                    invariant
                        i <= a@.len(),
                        out@.len() == i,
                        forall|j: int| 0 <= j < i ==> #[trigger] out@[j]@ == a@[j]@,
                    decreases a@.len() - i,
                {
                    let e = a[i].dup();
                    out.push(e);
                    i += 1;
                }
                proof {
                    let b = Seq::new(a@.len(), |j: int| json_of(a@[j]));
                    lemma_view_array(*a, b);
                    assert forall|j: int| 0 <= j < b.len() implies #[trigger] b[j] == json_of(
                        out@[j],
                    ) by {
                        assert(out@[j]@ == a@[j]@);
                    }
                    lemma_view_array(out, b);
                }
                JsonValue::Array(out)
            },
            JsonValue::Object(o) => {
                let mut out: Vec<(String, JsonValue)> = Vec::new();
                let mut i: usize = 0;
                while i < o.len()
                    invariant
                        i <= o@.len(),
                        out@.len() == i,
                        forall|j: int|
                            0 <= j < i ==> #[trigger] out@[j].0@ == o@[j].0@ && out@[j].1@
                                == o@[j].1@,
                    decreases o@.len() - i,
                {
                    let e = o[i].1.dup();
                    out.push((o[i].0.clone(), e));
                    i += 1;
                }
                proof {
                    lemma_view_object(*o);
                    lemma_view_object(out);
                    assert forall|j: int| 0 <= j < o@.len() implies members_of(out@)[j]
                        == members_of(o@)[j] by {
                        assert(out@[j].0@ == o@[j].0@);
                    }
                    assert(members_of(out@) =~= members_of(o@));
                }
                JsonValue::Object(out)
            },
        }
    }

    /// The value of the first member with the given key.
    pub fn get(&self, key: &str) -> (r: Option<&JsonValue>)
        ensures
            opt_json(r) == json_get(self@, key@),
    {
        match self {
            JsonValue::Object(o) => {
                proof {
                    lemma_view_object(*o);
                }
                find_member(o, key)
            },
            _ => None,
        }
    }

    /// The member under `a`, or the one under `b` where there is none.
    pub fn get_either(&self, a: &str, b: &str) -> (r: Option<&JsonValue>)
        ensures
            opt_json(r) == json_get_either(self@, a@, b@),
    {
        match self.get(a) {
            Some(v) => Some(v),
            None => self.get(b),
        }
    }

    pub fn as_bool(&self) -> (r: Option<bool>)
        ensures
            r == json_bool(self@),
    {
        match self {
            JsonValue::Bool(b) => Some(*b),
            _ => None,
        }
    }

    pub fn as_text(&self) -> (r: Option<&String>)
        ensures
            r is Some <==> json_text(self@) is Some,
            r is Some ==> json_text(self@) == Some(r->0@),
    {
        match self {
            JsonValue::Text(s) => Some(s),
            _ => None,
        }
    }

    /// A whole number that fits in `i64`.
    pub fn as_i64(&self) -> (r: Option<i64>)
        ensures
            r == json_i64(self@),
    {
        match self {
            JsonValue::Number(JsonNumber::Unsigned(n)) => if *n <= i64::MAX as u64 {
                Some(*n as i64)
            } else {
                None
            },
            JsonValue::Number(JsonNumber::Negative(n)) => Some(*n),
            _ => None,
        }
    }

    /// Any number, in millionths.
    pub fn as_micros(&self) -> (r: Option<i64>)
        ensures
            r == json_micros(self@),
    {
        match self {
            JsonValue::Number(JsonNumber::Unsigned(n)) => Some(
                saturate_i64(*n as i128 * 1_000_000i128),
            ),
            JsonValue::Number(JsonNumber::Negative(n)) => Some(
                saturate_i64(*n as i128 * 1_000_000i128),
            ),
            JsonValue::Number(JsonNumber::Fraction(n)) => Some(*n),
            _ => None,
        }
    }
}

impl Clone for JsonValue {
    fn clone(&self) -> (r: JsonValue)
        ensures
            r@ == self@,
    {
        self.dup()
    }
}

/// A copy of the members of an object; any other value has none.
pub fn members_dup(v: &JsonValue) -> (o: Vec<(String, JsonValue)>)
    ensures
        members_of(o@) == json_members(v@),
{
    match v.dup() {
        JsonValue::Object(o) => {
            proof {
                lemma_view_object(o);
            }
            o
        },
        _ => {
            let o: Vec<(String, JsonValue)> = Vec::new();
            proof {
                assert(members_of(o@) =~= Seq::empty());
            }
            o
        },
    }
}

/// The value of the first member with the given key.
pub fn find_member<'a>(o: &'a Vec<(String, JsonValue)>, key: &str) -> (r: Option<&'a JsonValue>)
    ensures
        opt_json(r) == lookup(members_of(o@), key@),
{
    let mut i: usize = 0;
    proof {
        assert(members_of(o@).skip(0) =~= members_of(o@));
    }
    while i < o.len()
        invariant
            i <= o@.len(),
            lookup(members_of(o@), key@) == lookup(members_of(o@).skip(i as int), key@),
        decreases o@.len() - i,
    {
        let ghost rest = members_of(o@).skip(i as int);
        if text::str_eq(o[i].0.as_str(), key) {
            assert(rest[0] == members_of(o@)[i as int]);
            return Some(&o[i].1);
        }
        proof {
            assert(rest.drop_first() =~= members_of(o@).skip(i + 1));
        }
        i += 1;
    }
    None
}

/// Sets a member: in its old place where the key is there, else before the
/// first greater key.
pub fn set_member(o: &mut Vec<(String, JsonValue)>, key: &str, value: JsonValue)
    ensures
        members_of(final(o)@) == with_member(members_of(old(o)@), key@, value@),
{
    let mut i: usize = 0;
    let ghost before = members_of(o@);
    proof {
        assert(before.skip(0) =~= before);
        assert(before.take(0) + with_member(before, key@, value@) =~= with_member(
            before,
            key@,
            value@,
        ));
    }
    while i < o.len() && !text::str_eq(o[i].0.as_str(), key) && !text::str_lt(
        key,
        o[i].0.as_str(),
    )
        invariant
            i <= o@.len(),
            before == members_of(o@),
            with_member(before, key@, value@) == before.take(i as int) + with_member(
                before.skip(i as int),
                key@,
                value@,
            ),
        decreases o@.len() - i,
    {
        let ghost rest = before.skip(i as int);
        proof {
            assert(rest[0] == before[i as int]);
            assert(rest.drop_first() =~= before.skip(i + 1));
            assert(before.take(i as int) + (seq![rest[0]] + with_member(
                before.skip(i + 1),
                key@,
                value@,
            )) =~= before.take(i + 1) + with_member(before.skip(i + 1), key@, value@));
        }
        i += 1;
    }
    let ghost rest = before.skip(i as int);
    let ghost w = value@;
    proof {
        if i < o@.len() {
            assert(rest[0] == before[i as int]);
            assert(rest.drop_first() =~= before.skip(i + 1));
        } else {
            assert(with_member(rest, key@, w) =~= seq![(key@, w)] + rest);
        }
    }
    if i < o.len() && text::str_eq(o[i].0.as_str(), key) {
        o.set(i, (key.to_owned(), value));
        proof {
            assert(members_of(o@) =~= before.take(i as int) + (seq![(key@, w)] + before.skip(
                i + 1,
            )));
        }
    } else {
        o.insert(i, (key.to_owned(), value));
        proof {
            assert(members_of(o@) =~= before.take(i as int) + (seq![(key@, w)] + rest));
        }
    }
}

/// The JSON form of a text.
pub fn text_value(s: &str) -> (v: JsonValue)
    ensures
        v@ == Json::Text(s@),
{
    JsonValue::Text(s.to_owned())
}

/// The JSON form of a text that may be absent.
pub open spec fn opt_text_json(t: Option<Seq<char>>) -> Json {
    match t {
        Some(s) => Json::Text(s),
        None => Json::Null,
    }
}

/// The JSON form of a text that may be absent.
pub fn opt_text_value(t: &Option<String>) -> (v: JsonValue)
    ensures
        v@ == opt_text_json(crate::error::opt_text(*t)),
{
    match t {
        Some(s) => JsonValue::Text(s.clone()),
        None => JsonValue::Null,
    }
}

/// The JSON form of a value that may be absent.
pub open spec fn json_or_null(v: Option<Json>) -> Json {
    match v {
        Some(j) => j,
        None => Json::Null,
    }
}

/// The value of an optional JSON value.
pub open spec fn opt_value(v: Option<JsonValue>) -> Option<Json> {
    match v {
        Some(j) => Some(j@),
        None => None,
    }
}

/// The JSON form of a value that may be absent.
pub fn value_or_null(v: &Option<JsonValue>) -> (r: JsonValue)
    ensures
        r@ == json_or_null(opt_value(*v)),
{
    match v {
        Some(j) => j.dup(),
        None => JsonValue::Null,
    }
}

/// A number is read in millionths: a whole one as so many millions of them, as far as
/// they can be held, and a fraction as it is; nothing else is a number.
pub proof fn numbers_are_read_in_millionths(j: Json)
    ensures
        match j {
            Json::Number(JsonNumber::Unsigned(n)) => n <= 9_000_000_000_000 ==> json_micros(j)
                == Some((n * 1_000_000) as i64),
            Json::Number(JsonNumber::Negative(n)) => -9_000_000_000_000 <= n ==> n < 0
                ==> json_micros(j) == Some((n * 1_000_000) as i64),
            Json::Number(JsonNumber::Fraction(n)) => json_micros(j) == Some(n),
            _ => json_micros(j) is None,
        },
        match j {
            Json::Number(JsonNumber::Unsigned(n)) => n <= 0x7fff_ffff_ffff_ffff ==> json_i64(j)
                == Some(n as i64),
            Json::Number(JsonNumber::Negative(n)) => json_i64(j) == Some(n),
            _ => json_i64(j) is None,
        },
        json_bool(j) == (match j {
            Json::Bool(b) => Some(b),
            _ => None,
        }),
        json_text(j) == (match j {
            Json::Text(s) => Some(s),
            _ => None,
        }),
{
}

/// A number is brought into range by taking the nearer end.
pub proof fn numbers_are_clamped(n: int)
    ensures
        -0x8000_0000_0000_0000 <= n <= 0x7fff_ffff_ffff_ffff ==> clamp_i64(n) == n,
        n > 0x7fff_ffff_ffff_ffff ==> clamp_i64(n) == 0x7fff_ffff_ffff_ffff,
        n < -0x8000_0000_0000_0000 ==> clamp_i64(n) == -0x8000_0000_0000_0000,
{
}

/// Of two names for a member the first counts where it is there, else the second.
pub proof fn first_of_two_names_counts(j: Json, a: Seq<char>, b: Seq<char>)
    ensures
        json_get(j, a) is Some ==> json_get_either(j, a, b) == json_get(j, a),
        json_get(j, a) is None ==> json_get_either(j, a, b) == json_get(j, b),
        !(j is Object) ==> json_get(j, a) is None,
{
}

} // verus!
