//! What the library has from other crates. Each function here makes one outside
//! call; its contract says what is relied on and is not proved.

use chrono::{DateTime, NaiveDateTime, Utc};
use uuid::Uuid;
use vstd::prelude::*;
use vstd::utf8::*;
use crate::normalize;
use crate::text;

verus! {

/// The text of the version 5 UUID of a name in the namespace of object
/// identifiers.
pub uninterp spec fn oid_uuid_text(name: Seq<char>) -> Seq<char>;

/// `Uuid::new_v5` with `Uuid::NAMESPACE_OID` on the bytes of a name, as text. It
/// is a SHA-1 hash of the namespace and the name, so one name always has one
/// text, with its digits in groups; what the digits are, is not said.
#[verifier::external_body]
pub(crate) fn oid_uuid(name: &str) -> (r: String)
    ensures
        r@ == oid_uuid_text(name@),
        hyphenated_uuid(r@),
{
    Uuid::new_v5(&Uuid::NAMESPACE_OID, name.as_bytes()).to_string()
}

pub open spec fn hex_char(c: char) -> bool {
    ('0' <= c <= '9') || ('a' <= c <= 'f') || ('A' <= c <= 'F')
}

/// 32 hexadecimal digits in five groups with hyphens between them.
pub open spec fn hyphenated_uuid(s: Seq<char>) -> bool {
    s.len() == 36 && forall|i: int|
        0 <= i < 36 ==> if i == 8 || i == 13 || i == 18 || i == 23 {
            #[trigger] s[i] == '-'
        } else {
            hex_char(s[i])
        }
}

/// The texts that stand for a UUID: bare digits, groups with hyphens, and the
/// latter in braces or behind `urn:uuid:`.
pub open spec fn uuid_shape(s: Seq<char>) -> bool {
    ||| s.len() == 32 && forall|i: int| 0 <= i < 32 ==> hex_char(#[trigger] s[i])
    ||| hyphenated_uuid(s)
    ||| s.len() == 38 && s[0] == '{' && s[37] == '}' && hyphenated_uuid(s.subrange(1, 37))
    ||| s.len() == 45 && text::lower_seq(s.take(9)) == "urn:uuid:"@ && hyphenated_uuid(s.skip(9))
}

/// `Uuid::parse_str` accepts the texts of the four shapes and no others.
#[verifier::external_body]
pub(crate) fn is_uuid(s: &str) -> (r: bool)
    ensures
        r == uuid_shape(s@),
{
    Uuid::parse_str(s).is_ok()
}

/// Whether a byte stands for itself in a percent-encoded text.
pub open spec fn unreserved(b: u8) -> bool {
    ||| 48 <= b <= 57
    ||| 65 <= b <= 90
    ||| 97 <= b <= 122
    ||| b == 45
    ||| b == 46
    ||| b == 95
    ||| b == 126
}

/// The hexadecimal digit for `d`, in upper case.
pub open spec fn upper_hex(d: int) -> char {
    if d < 10 {
        (48 + d) as char
    } else {
        (55 + d) as char
    }
}

/// Each byte as itself where it is unreserved, else as `%` and its two digits.
pub open spec fn percent_encoded(bytes: Seq<u8>) -> Seq<char>
    decreases bytes.len(),
{
    if bytes.len() == 0 {
        Seq::empty()
    } else {
        let b = bytes[0];
        let head: Seq<char> = if unreserved(b) {
            seq![b as char]
        } else {
            seq!['%', upper_hex(b as int / 16), upper_hex(b as int % 16)]
        };
        head + percent_encoded(bytes.drop_first())
    }
}

/// `urlencoding::encode` percent-encodes every byte of the UTF-8 form but
/// letters, digits and `-`, `.`, `_`, `~`.
#[verifier::external_body]
pub(crate) fn url_encode(s: &str) -> (r: String)
    ensures
        r@ == percent_encoded(encode_utf8(s@)),
{
    urlencoding::encode(s).into_owned()
}

/// The hexadecimal digit for `d`, in lower case.
pub open spec fn lower_hex(d: int) -> char {
    if d < 10 {
        (48 + d) as char
    } else {
        (87 + d) as char
    }
}

/// A character as it stands between the quotes of a JSON text.
pub open spec fn escaped(c: char) -> Seq<char> {
    if c == '"' || c == '\\' {
        seq!['\\', c]
    } else if c == '\u{8}' {
        seq!['\\', 'b']
    } else if c == '\u{9}' {
        seq!['\\', 't']
    } else if c == '\u{a}' {
        seq!['\\', 'n']
    } else if c == '\u{c}' {
        seq!['\\', 'f']
    } else if c == '\u{d}' {
        seq!['\\', 'r']
    } else if c <= '\u{1f}' {
        seq!['\\', 'u', '0', '0', lower_hex(c as int / 16), lower_hex(c as int % 16)]
    } else {
        seq![c]
    }
}

/// The characters between the quotes of a JSON text.
pub open spec fn escaped_all(s: Seq<char>) -> Seq<char>
    decreases s.len(),
{
    if s.len() == 0 {
        Seq::empty()
    } else {
        escaped_all(s.drop_last()) + escaped(s.last())
    }
}

/// A text in JSON.
pub open spec fn quoted(s: Seq<char>) -> Seq<char> {
    seq!['"'] + escaped_all(s) + seq!['"']
}

/// A `serde_json::Value` that is a string, as text: quotes, backslashes and the
/// control characters of ASCII are escaped.
#[verifier::external_body]
pub(crate) fn json_string(s: &str) -> (r: String)
    ensures
        r@ == quoted(s@),
{
    serde_json::Value::String(s.to_owned()).to_string()
}

/// The BLAKE3 hash of some bytes, in lower-case hexadecimal.
pub uninterp spec fn blake3_hex_text(bytes: Seq<u8>) -> Seq<char>;

/// `blake3::hash` in hexadecimal: one input always has one text; what the text
/// is, is not said.
#[verifier::external_body]
pub(crate) fn blake3_hex(bytes: &Vec<u8>) -> (r: String)
    ensures
        r@ == blake3_hex_text(bytes@),
{
    blake3::hash(bytes).to_hex().to_string()
}

/// A point in time: whole seconds since 1970 in UTC, and the nanoseconds after
/// them.
#[derive(Debug, Clone, Copy, PartialEq, Eq, Structural)]
pub struct Instant {
    pub seconds: i64,
    pub nanos: u32,
}

/// The time that a text in the format of RFC 3339 stands for.
pub uninterp spec fn rfc3339_instant(s: Seq<char>) -> Option<(i64, u32)>;

/// The time that a text with an offset stands for in a given format.
pub uninterp spec fn zoned_instant(s: Seq<char>, format: Seq<char>) -> Option<(i64, u32)>;

/// The time in UTC that a text without an offset stands for in a given format.
pub uninterp spec fn naive_instant(s: Seq<char>, format: Seq<char>) -> Option<(i64, u32)>;

/// An instant as its two numbers.
pub open spec fn instant_pair(t: Option<Instant>) -> Option<(i64, u32)> {
    match t {
        Some(i) => Some((i.seconds, i.nanos)),
        None => None,
    }
}

/// `DateTime::parse_from_rfc3339`: the time that the text stands for, in UTC;
/// which texts it accepts is not said.
#[verifier::external_body]
pub(crate) fn parse_rfc3339(s: &str) -> (r: Option<Instant>)
    ensures
        instant_pair(r) == rfc3339_instant(s@),
{
    let t = DateTime::parse_from_rfc3339(s).ok()?;
    Some(Instant { seconds: t.timestamp(), nanos: t.timestamp_subsec_nanos() })
}

/// `DateTime::parse_from_str`: the time that the text stands for in the format,
/// in UTC; which texts it accepts is not said.
#[verifier::external_body]
pub(crate) fn parse_zoned(s: &str, format: &str) -> (r: Option<Instant>)
    ensures
        instant_pair(r) == zoned_instant(s@, format@),
{
    let t = DateTime::parse_from_str(s, format).ok()?;
    Some(Instant { seconds: t.timestamp(), nanos: t.timestamp_subsec_nanos() })
}

/// `NaiveDateTime::parse_from_str`: the time that the text stands for in the
/// format, taken as UTC; which texts it accepts is not said.
#[verifier::external_body]
pub(crate) fn parse_naive(s: &str, format: &str) -> (r: Option<Instant>)
    ensures
        instant_pair(r) == naive_instant(s@, format@),
{
    let t = NaiveDateTime::parse_from_str(s, format).ok()?.and_utc();
    Some(Instant { seconds: t.timestamp(), nanos: t.timestamp_subsec_nanos() })
}

/// The whole milliseconds from one time to another.
pub uninterp spec fn millis_between(start: (i64, u32), end: (i64, u32)) -> Option<i64>;

/// Whether an instant is within the range of `DateTime` and not in a leap
/// second.
pub open spec fn plain_instant(t: Instant) -> bool {
    -8_000_000_000_000 <= t.seconds <= 8_000_000_000_000 && t.nanos < 1_000_000_000
}

/// The whole milliseconds in some nanoseconds, towards zero.
pub open spec fn whole_millis(nanos: int) -> int {
    if nanos >= 0 {
        nanos / 1_000_000
    } else {
        -((-nanos) / 1_000_000)
    }
}

/// The difference of two `DateTime`s in whole milliseconds, by
/// `TimeDelta::num_milliseconds`. Between plain instants it is the difference of
/// their nanoseconds; how a leap second counts, and which instants beyond the
/// bounds have a `DateTime`, is not said.
#[verifier::external_body]
pub(crate) fn milliseconds_between(start: Instant, end: Instant) -> (r: Option<i64>)
    ensures
        r == millis_between((start.seconds, start.nanos), (end.seconds, end.nanos)),
        plain_instant(start) && plain_instant(end) ==> r is Some && r->0 == whole_millis(
            (end.seconds - start.seconds) * 1_000_000_000 + end.nanos - start.nanos,
        ),
{
    let from = DateTime::<Utc>::from_timestamp(start.seconds, start.nanos)?;
    let to = DateTime::<Utc>::from_timestamp(end.seconds, end.nanos)?;
    Some((to - from).num_milliseconds())
}

/// The first second of the calendar, the start of the year -262143, counted from
/// the start of 1970.
pub const FIRST_SECOND: i64 = -8_334_601_228_800;

/// The last second of the calendar, the end of the year 262142.
pub const LAST_SECOND: i64 = 8_210_266_876_799;

/// Whether a second is within the calendar.
pub open spec fn in_calendar(seconds: int) -> bool {
    FIRST_SECOND <= seconds <= LAST_SECOND
}

/// A date and a time of day: a year, which begins with a digit or a sign, `-`,
/// two digits, `-`, two digits, a space and three pairs of digits with `:`
/// between them.
pub open spec fn timestamp_shape(s: Seq<char>) -> bool {
    let n = s.len() as int;
    &&& n >= 19
    &&& normalize::ascii_digit(s[0]) || s[0] == '-' || s[0] == '+'
    &&& s[n - 15] == '-' && normalize::ascii_digit(s[n - 14]) && normalize::ascii_digit(s[n - 13])
    &&& s[n - 12] == '-' && normalize::ascii_digit(s[n - 11]) && normalize::ascii_digit(s[n - 10])
    &&& s[n - 9] == ' ' && normalize::ascii_digit(s[n - 8]) && normalize::ascii_digit(s[n - 7])
    &&& s[n - 6] == ':' && normalize::ascii_digit(s[n - 5]) && normalize::ascii_digit(s[n - 4])
    &&& s[n - 3] == ':' && normalize::ascii_digit(s[n - 2]) && normalize::ascii_digit(s[n - 1])
}

/// `Utc::now`: the time of the machine, which is not before 1970 and within the
/// calendar. Which time it is rests on the machine's clock.
#[verifier::external_body]
pub(crate) fn utc_now() -> (r: Instant)
    ensures
        0 <= r.seconds <= LAST_SECOND,
        r.nanos < 1_000_000_000,
{
    let t = Utc::now();
    Instant { seconds: t.timestamp(), nanos: t.timestamp_subsec_nanos() }
}

/// Whether a second is in one of the years 0 to 9999, which are written with four
/// digits.
pub open spec fn in_common_years(seconds: int) -> bool {
    -62_167_219_200 <= seconds <= 253_402_300_799
}

/// The date and the time of day of a second, in UTC.
pub uninterp spec fn utc_text(seconds: i64) -> Seq<char>;

/// `DateTime::format` of a second with `%Y-%m-%d %H:%M:%S`. The text has no
/// offset, so that neither `DateTime::parse_from_rfc3339` nor
/// `DateTime::parse_from_str` reads it; `NaiveDateTime::parse_from_str` gives back
/// the second. Within the years 0 to 9999 every part has a fixed number of digits,
/// so that the texts are in the order of their seconds.
#[verifier::external_body]
pub(crate) fn format_utc(seconds: i64) -> (r: String)
    requires
        FIRST_SECOND <= seconds <= LAST_SECOND,
    ensures
        r@ == utc_text(seconds),
        timestamp_shape(r@),
        rfc3339_instant(r@) is None,
        zoned_instant(r@, "%Y-%m-%d %H:%M:%S%.f%:z"@) is None,
        zoned_instant(r@, "%Y-%m-%d %H:%M:%S%.f%z"@) is None,
        naive_instant(r@, "%Y-%m-%d %H:%M:%S%.f"@) == Some((seconds, 0u32)),
        in_common_years(seconds as int) ==> forall|other: i64| in_common_years(other as int) ==> (
        text::lex_lt(#[trigger] utc_text(other), r@) <==> other < seconds),
{
    let t = DateTime::<Utc>::from_timestamp(seconds, 0).unwrap();
    t.format("%Y-%m-%d %H:%M:%S").to_string()
}

/// The path of an address, where the text is one.
pub uninterp spec fn url_path_text(url: Seq<char>) -> Option<Seq<char>>;

/// The address with another path, where the text is an address.
pub uninterp spec fn url_with_path_text(url: Seq<char>, path: Seq<char>) -> Option<Seq<char>>;

/// The address that a reference stands for against a base.
pub uninterp spec fn url_joined_text(base: Seq<char>, reference: Seq<char>) -> Option<Seq<char>>;

/// `Url::path` of a text that `Url::parse` accepts; what the URL standard makes
/// of the text is not said.
#[verifier::external_body]
pub(crate) fn url_path(url: &str) -> (r: Option<String>)
    ensures
        crate::error::opt_text(r) == url_path_text(url@),
{
    let parsed = reqwest::Url::parse(url).ok()?;
    Some(parsed.path().to_string())
}

/// `Url::set_path` on a text that `Url::parse` accepts, as text.
#[verifier::external_body]
pub(crate) fn url_with_path(url: &str, path: &str) -> (r: Option<String>)
    ensures
        crate::error::opt_text(r) == url_with_path_text(url@, path@),
{
    let mut parsed = reqwest::Url::parse(url).ok()?;
    parsed.set_path(path);
    Some(parsed.to_string())
}

/// `Url::join` of a reference to a text that `Url::parse` accepts, as text.
#[verifier::external_body]
pub(crate) fn url_join(base: &str, reference: &str) -> (r: Option<String>)
    ensures
        crate::error::opt_text(r) == url_joined_text(base@, reference@),
{
    let parsed = reqwest::Url::parse(base).ok()?;
    Some(parsed.join(reference).ok()?.to_string())
}

} // verus!
