//! The compact text of a JSON value.

use vstd::prelude::*;
use crate::json::{self, Json, JsonNumber, JsonValue};
use crate::outside;
use crate::text;

verus! {

/// The last six digits of a number, with zeros in front where it has fewer.
pub open spec fn six_digits(n: int) -> Seq<char> {
    seq![
        text::digit_char(n / 100_000 % 10),
        text::digit_char(n / 10_000 % 10),
        text::digit_char(n / 1_000 % 10),
        text::digit_char(n / 100 % 10),
        text::digit_char(n / 10 % 10),
        text::digit_char(n % 10),
    ]
}

/// The digits behind the point: those up to the last that is not zero, and at
/// least one.
pub open spec fn fraction_digits(n: int) -> Seq<char> {
    let digits = text::trim_end_char_seq(six_digits(n), '0');
    if digits.len() == 0 {
        seq!['0']
    } else {
        digits
    }
}

/// The text of a number of millionths: with a point, or with an exponent below one
/// hundred-thousandth.
pub open spec fn fraction_text(micros: int) -> Seq<char> {
    let n = if micros < 0 {
        -micros
    } else {
        micros
    };
    let body = if 0 < n < 10 {
        seq![text::digit_char(n)] + "e-6"@
    } else {
        text::decimal((n / 1_000_000) as nat) + "."@ + fraction_digits(n % 1_000_000)
    };
    if micros < 0 {
        "-"@ + body
    } else {
        body
    }
}

/// The text of a number.
pub open spec fn number_text(n: JsonNumber) -> Seq<char> {
    match n {
        JsonNumber::Unsigned(n) => text::decimal(n as nat),
        JsonNumber::Negative(n) => text::decimal_int(n as int),
        JsonNumber::Fraction(n) => fraction_text(n as int),
    }
}

/// The text of a value, without white space between its parts.
pub open spec fn compact(j: Json) -> Seq<char>
    decreases j,
{
    match j {
        Json::Null => "null"@,
        Json::Bool(b) => if b {
            "true"@
        } else {
            "false"@
        },
        Json::Number(n) => number_text(n),
        Json::Text(s) => outside::quoted(s),
        Json::Array(a) => "["@ + compact_elements(a) + "]"@,
        Json::Object(o) => "{"@ + compact_members(o) + "}"@,
    }
}

/// The texts of some values with commas between them.
pub open spec fn compact_elements(a: Seq<Json>) -> Seq<char>
    decreases a,
{
    if a.len() == 0 {
        Seq::empty()
    } else if a.len() == 1 {
        compact(a[0])
    } else {
        compact_elements(a.drop_last()) + ","@ + compact(a.last())
    }
}

/// The texts of some members with commas between them.
pub open spec fn compact_members(o: Seq<(Seq<char>, Json)>) -> Seq<char>
    decreases o,
{
    if o.len() == 0 {
        Seq::empty()
    } else if o.len() == 1 {
        outside::quoted(o[0].0) + ":"@ + compact(o[0].1)
    } else {
        compact_members(o.drop_last()) + ","@ + (outside::quoted(o.last().0) + ":"@ + compact(
            o.last().1,
        ))
    }
}

fn digit_of(n: u64) -> (r: char)
    requires
        n < 10,
    ensures
        r == text::digit_char(n as int),
{
    (48u8 + n as u8) as char
}

fn fraction_string(micros: i64) -> (r: String)
    ensures
        r@ == fraction_text(micros as int),
{
    let n: u64 = if micros < 0 {
        (-(micros as i128)) as u64
    } else {
        micros as u64
    };
    let sign = if micros < 0 {
        "-".to_owned()
    } else {
        String::new()
    };
    if 0 < n && n < 10 {
        let mut small = sign;
        small.push(digit_of(n));
        small.append("e-6");
        proof {
            assert(small@ =~= fraction_text(micros as int));
        }
        return small;
    }
    let f: u64 = n % 1_000_000;
    let digits: Vec<char> = vec![
        digit_of(f / 100_000 % 10),
        digit_of(f / 10_000 % 10),
        digit_of(f / 1_000 % 10),
        digit_of(f / 100 % 10),
        digit_of(f / 10 % 10),
        digit_of(f % 10),
    ];
    let all = text::string_of(&digits, 0, 6);
    proof {
        assert(all@ =~= six_digits(f as int));
        reveal_strlit("");
        reveal_strlit("0");
    }
    let kept = text::trim_end_char(all.as_str(), '0');
    proof {
        if kept@.len() == 0 {
            assert(kept@ =~= ""@);
        }
    }
    let mut r = sign;
    let whole = text::u64_text(n / 1_000_000);
    r.append(whole.as_str());
    r.append(".");
    if text::str_eq(kept.as_str(), "") {
        r.append("0");
        proof {
            assert("0"@ =~= seq!['0']);
        }
    } else {
        r.append(kept.as_str());
    }
    proof {
        assert(r@ =~= fraction_text(micros as int));
    }
    r
}

/// The text of a value, without white space between its parts.
#[verifier::loop_isolation(false)]
pub fn json_text(v: &JsonValue) -> (r: String)
    ensures
        r@ == compact(v@),
    decreases v,
{
    match v {
        JsonValue::Null => "null".to_owned(),
        JsonValue::Bool(b) => if *b {
            "true".to_owned()
        } else {
            "false".to_owned()
        },
        JsonValue::Number(JsonNumber::Unsigned(n)) => text::u64_text(*n),
        JsonValue::Number(JsonNumber::Negative(n)) => text::i64_text(*n),
        JsonValue::Number(JsonNumber::Fraction(n)) => fraction_string(*n),
        JsonValue::Text(s) => outside::json_string(s.as_str()),
        JsonValue::Array(a) => {
            let ghost all = Seq::new(a@.len(), |j: int| json::json_of(a@[j]));
            proof {
                json::lemma_view_array(*a, all);
            }
            let mut body = String::new();
            let mut i: usize = 0;
            proof {
                assert(body@ =~= compact_elements(all.take(0)));
            }
            while i < a.len()
                invariant
                    i <= a@.len(),
                    body@ == compact_elements(all.take(i as int)),
                decreases a@.len() - i,
            {
                proof {
                    assert(all.take(i + 1).drop_last() =~= all.take(i as int));
                    assert(all.take(i + 1).last() == a@[i as int]@);
                }
                let e = json_text(&a[i]);
                if i > 0 {
                    body.append(",");
                }
                body.append(e.as_str());
                i += 1;
                proof {
                    assert(body@ =~= compact_elements(all.take(i as int)));
                }
            }
            proof {
                assert(all.take(i as int) =~= all);
            }
            text::join3("[", body.as_str(), "]")
        },
        JsonValue::Object(o) => {
            let ghost all = json::members_of(o@);
            proof {
                json::lemma_view_object(*o);
            }
            let mut body = String::new();
            let mut i: usize = 0;
            proof {
                assert(body@ =~= compact_members(all.take(0)));
            }
            while i < o.len()
                invariant
                    i <= o@.len(),
                    body@ == compact_members(all.take(i as int)),
                decreases o@.len() - i,
            {
                proof {
                    assert(all.take(i + 1).drop_last() =~= all.take(i as int));
                    assert(all.take(i + 1).last() == (o@[i as int].0@, o@[i as int].1@));
                }
                let e = json_text(&o[i].1);
                let k = outside::json_string(o[i].0.as_str());
                let member = text::join3(k.as_str(), ":", e.as_str());
                if i > 0 {
                    body.append(",");
                }
                body.append(member.as_str());
                i += 1;
                proof {
                    assert(body@ =~= compact_members(all.take(i as int)));
                }
            }
            proof {
                assert(all.take(i as int) =~= all);
            }
            text::join3("{", body.as_str(), "}")
        },
    }
}

/// The text of a number with a fraction: its whole part, a point and its digits behind it
/// without the zeros at the end; one below a hundred-thousandth with an exponent.
pub proof fn fractions_are_written(n: int)
    requires
        n >= 10,
    ensures
        ({
            let whole = text::decimal((n / 1_000_000) as nat);
            let part = fraction_digits(n % 1_000_000);
            &&& fraction_text(n) == whole + "."@ + part
            &&& fraction_text(-n) == "-"@ + (whole + "."@ + part)
            &&& part.len() >= 1
            &&& part.len() > 1 ==> part.last() != '0'
        }),
{
    let six = six_digits(n % 1_000_000);
    lemma_trimmed(six);
}

proof fn lemma_trimmed(s: Seq<char>)
    ensures
        text::trim_end_char_seq(s, '0').len() > 0 ==> text::trim_end_char_seq(s, '0').last() != '0',
    decreases s.len(),
{
    if s.len() > 0 && s.last() == '0' {
        lemma_trimmed(s.drop_last());
    }
}

/// Six digits give their number back.
pub proof fn six_digits_give_the_number_back(n: int)
    requires
        0 <= n <= 999_999,
    ensures
        ({
            let d = six_digits(n);
            &&& d.len() == 6
            &&& (d[0] as int - '0' as int) * 100_000 + (d[1] as int - '0' as int) * 10_000 + (
            d[2] as int - '0' as int) * 1_000 + (d[3] as int - '0' as int) * 100 + (d[4] as int
                - '0' as int) * 10 + (d[5] as int - '0' as int) == n
        }),
{
    let n1 = n / 10;
    let n2 = n1 / 10;
    let n3 = n2 / 10;
    let n4 = n3 / 10;
    let n5 = n4 / 10;
    assert(n / 100 == n2);
    assert(n / 1_000 == n3);
    assert(n / 10_000 == n4);
    assert(n / 100_000 == n5);
    assert(n == 10 * n1 + n % 10);
    assert(n1 == 10 * n2 + n1 % 10);
    assert(n2 == 10 * n3 + n2 % 10);
    assert(n3 == 10 * n4 + n3 % 10);
    assert(n4 == 10 * n5 + n4 % 10);
    assert(0 <= n5 <= 9);
    lemma_digit_value(n % 10);
    lemma_digit_value(n1 % 10);
    lemma_digit_value(n2 % 10);
    lemma_digit_value(n3 % 10);
    lemma_digit_value(n4 % 10);
    lemma_digit_value(n5 % 10);
}

proof fn lemma_digit_value(d: int)
    requires
        0 <= d <= 9,
    ensures
        text::digit_char(d) as int - '0' as int == d,
{
}

/// The text of a list is that of its elements with commas between them, in brackets, and
/// that of an object is that of its members, each behind its name, in braces.
pub proof fn lists_and_objects_are_written(
    a: Seq<Json>,
    x: Json,
    o: Seq<(Seq<char>, Json)>,
    k: Seq<char>,
)
    ensures
        compact(Json::Array(a)) == "["@ + compact_elements(a) + "]"@,
        compact_elements(Seq::empty()).len() == 0,
        compact_elements(seq![x]) == compact(x),
        a.len() > 0 ==> compact_elements(a.push(x)) == compact_elements(a) + ","@ + compact(x),
        compact(Json::Object(o)) == "{"@ + compact_members(o) + "}"@,
        compact_members(Seq::empty()).len() == 0,
        compact_members(seq![(k, x)]) == outside::quoted(k) + ":"@ + compact(x),
        o.len() > 0 ==> compact_members(o.push((k, x))) == compact_members(o) + ","@ + (
        outside::quoted(k) + ":"@ + compact(x)),
        compact(Json::Null) == "null"@,
        compact(Json::Bool(true)) == "true"@,
        compact(Json::Bool(false)) == "false"@,
        compact(Json::Text(k)) == outside::quoted(k),
{
    assert(a.push(x).drop_last() =~= a);
    assert(a.push(x).last() == x);
    assert(o.push((k, x)).drop_last() =~= o);
    assert(o.push((k, x)).last() == (k, x));
    assert(seq![x][0] == x);
    assert(seq![(k, x)][0] == (k, x));
}

} // verus!
