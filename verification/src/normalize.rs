//! Normal forms of what callers hand in: identifiers, filters and switches.

use vstd::prelude::*;
use crate::error::{refuse, SegmentError};
use crate::text;

verus! {

/// The characters of a provider id in its normal form.
pub open spec fn provider_id_char(c: char) -> bool {
    ||| 'a' <= c <= 'z'
    ||| 'A' <= c <= 'Z'
    ||| '0' <= c <= '9'
    ||| c == '_'
    ||| c == '.'
}

/// Whether `s` is a provider id in its normal form.
pub open spec fn provider_id_shape(s: Seq<char>) -> bool {
    0 < s.len() <= 80 && forall|i: int| 0 <= i < s.len() ==> provider_id_char(#[trigger] s[i])
}

/// The normal form of a provider id, or why there is none.
pub open spec fn provider_id_of(value: Seq<char>) -> Result<Seq<char>, Seq<char>> {
    if provider_id_shape(text::snake_seq(value)) {
        Ok(text::snake_seq(value))
    } else {
        Err("invalid segment provider id"@)
    }
}

/// The normal form of a provider id.
pub fn normalize_provider_id(value: &str) -> (r: Result<String, SegmentError>)
    ensures
        crate::error::text_agrees(r, provider_id_of(value@)),
{
    let normalized = text::to_snake(value);
    let v = text::chars_of(normalized.as_str());
    if v.len() == 0 || v.len() > 80 {
        return Err(refuse("invalid segment provider id"));
    }
    let mut i: usize = 0;
    while i < v.len()
        invariant
            i <= v@.len(),
            v@ == normalized@,
            normalized@ == text::snake_seq(value@),
            forall|j: int| 0 <= j < i ==> provider_id_char(#[trigger] v@[j]),
        decreases v@.len() - i,
    {
        let c = v[i];
        let ok = ('a' <= c && c <= 'z') || ('A' <= c && c <= 'Z') || ('0' <= c && c <= '9') || c
            == '_' || c == '.';
        if !ok {
            return Err(refuse("invalid segment provider id"));
        }
        i += 1;
    }
    Ok(normalized)
}

/// The text without outer white space, or that the field is required.
pub open spec fn required_of(value: Seq<char>, field: Seq<char>) -> Result<Seq<char>, Seq<char>> {
    if text::trim_seq(value).len() == 0 {
        Err(field + " is required"@)
    } else {
        Ok(text::trim_seq(value))
    }
}

/// The text without outer white space.
pub fn normalize_required_text(value: &str, field: &str) -> (r: Result<String, SegmentError>)
    ensures
        crate::error::text_agrees(r, required_of(value@, field@)),
{
    let normalized = text::trim(value);
    if normalized.as_str().is_empty() {
        Err(SegmentError { message: text::join2(field, " is required") })
    } else {
        Ok(normalized)
    }
}

/// The text in its normal form, or that the field is required.
pub open spec fn identifier_of(value: Seq<char>, field: Seq<char>) -> Result<Seq<char>, Seq<char>> {
    if text::trim_seq(value).len() == 0 {
        Err(field + " is required"@)
    } else {
        Ok(text::snake_seq(value))
    }
}

/// The text in its normal form: an identifier of a job, a provider or a type.
pub fn normalize_media_segment_job_identifier_filter(value: &str, field: &str) -> (r: Result<
    String,
    SegmentError,
>)
    ensures
        crate::error::text_agrees(r, identifier_of(value@, field@)),
{
    match normalize_required_text(value, field) {
        Ok(t) => {
            let l = text::to_lower(t.as_str());
            Ok(text::replace_char(l.as_str(), '-', '_'))
        },
        Err(e) => Err(e),
    }
}

/// A status that a job can have.
pub open spec fn is_job_status(s: Seq<char>) -> bool {
    s == "queued"@ || s == "running"@ || s == "succeeded"@ || s == "skipped"@ || s == "failed"@ || s == "cancelled"@
}

/// The normal form of such a filter, or why there is none.
pub open spec fn job_status_filter_of(value: Seq<char>) -> Result<Seq<char>, Seq<char>> {
    match identifier_of(value, "status"@) {
        Ok(s) => if is_job_status(s) {
            Ok(s)
        } else {
            Err("invalid media segment job status filter"@)
        },
        Err(e) => Err(e),
    }
}

/// The normal form of a filter by status.
pub fn normalize_media_segment_job_status_filter(value: &str) -> (r: Result<String, SegmentError>)
    ensures
        crate::error::text_agrees(r, job_status_filter_of(value@)),
{
    match normalize_media_segment_job_identifier_filter(value, "status") {
        Ok(s) => if text::str_eq(s.as_str(), "queued") || text::str_eq(s.as_str(), "running") || text::str_eq(s.as_str(), "succeeded") || text::str_eq(s.as_str(), "skipped") || text::str_eq(s.as_str(), "failed") || text::str_eq(s.as_str(), "cancelled") {
            Ok(s)
        } else {
            Err(refuse("invalid media segment job status filter"))
        },
        Err(e) => Err(e),
    }
}

/// A type of item that candidates belong to.
pub open spec fn is_candidate_item_type(s: Seq<char>) -> bool {
    s == "movie"@ || s == "episode"@ || s == "tv"@ || s == "anime"@
}

/// The normal form of such a filter, or why there is none.
pub open spec fn candidate_item_type_filter_of(value: Seq<char>) -> Result<Seq<char>, Seq<char>> {
    match identifier_of(value, "item_type"@) {
        Ok(s) => if is_candidate_item_type(s) {
            Ok(s)
        } else {
            Err("invalid media segment candidate item_type filter"@)
        },
        Err(e) => Err(e),
    }
}

/// The normal form of a filter by item type.
pub fn normalize_optional_candidate_item_type(value: &str) -> (r: Result<String, SegmentError>)
    ensures
        crate::error::text_agrees(r, candidate_item_type_filter_of(value@)),
{
    match normalize_media_segment_job_identifier_filter(value, "item_type") {
        Ok(s) => if text::str_eq(s.as_str(), "movie") || text::str_eq(s.as_str(), "episode") || text::str_eq(s.as_str(), "tv") || text::str_eq(s.as_str(), "anime") {
            Ok(s)
        } else {
            Err(refuse("invalid media segment candidate item_type filter"))
        },
        Err(e) => Err(e),
    }
}

/// A type of segment.
pub open spec fn is_segment_type(s: Seq<char>) -> bool {
    s == "intro"@ || s == "recap"@ || s == "preview"@ || s == "credits"@ || s == "outro"@ || s == "custom"@
}

/// The normal form of such a filter, or why there is none.
pub open spec fn segment_type_filter_of(value: Seq<char>) -> Result<Seq<char>, Seq<char>> {
    match identifier_of(value, "segment_type"@) {
        Ok(s) => if is_segment_type(s) {
            Ok(s)
        } else {
            Err("invalid media segment candidate segment_type filter"@)
        },
        Err(e) => Err(e),
    }
}

/// The normal form of a filter by segment type.
pub fn normalize_candidate_segment_filter(value: &str) -> (r: Result<String, SegmentError>)
    ensures
        crate::error::text_agrees(r, segment_type_filter_of(value@)),
{
    match normalize_media_segment_job_identifier_filter(value, "segment_type") {
        Ok(s) => if allowed_segment_type(s.as_str()) {
            Ok(s)
        } else {
            Err(refuse("invalid media segment candidate segment_type filter"))
        },
        Err(e) => Err(e),
    }
}

/// A state of a candidate's validation.
pub open spec fn is_validation_state(s: Seq<char>) -> bool {
    s == "pending"@ || s == "accepted"@ || s == "rejected"@
}

/// The normal form of such a filter, or why there is none.
pub open spec fn validation_state_filter_of(value: Seq<char>) -> Result<Seq<char>, Seq<char>> {
    match identifier_of(value, "validation_state"@) {
        Ok(s) => if is_validation_state(s) {
            Ok(s)
        } else {
            Err("invalid media segment candidate validation_state filter"@)
        },
        Err(e) => Err(e),
    }
}

/// The normal form of a filter by validation state.
pub fn normalize_candidate_validation_state_filter(value: &str) -> (r: Result<String, SegmentError>)
    ensures
        crate::error::text_agrees(r, validation_state_filter_of(value@)),
{
    match normalize_media_segment_job_identifier_filter(value, "validation_state") {
        Ok(s) => if text::str_eq(s.as_str(), "pending") || text::str_eq(s.as_str(), "accepted") || text::str_eq(s.as_str(), "rejected") {
            Ok(s)
        } else {
            Err(refuse("invalid media segment candidate validation_state filter"))
        },
        Err(e) => Err(e),
    }
}

/// Whether candidates may have this segment type.
pub fn allowed_segment_type(segment_type: &str) -> (r: bool)
    ensures
        r == is_segment_type(segment_type@),
{
    text::str_eq(segment_type, "intro") || text::str_eq(segment_type, "recap") || text::str_eq(segment_type, "preview") || text::str_eq(segment_type, "credits") || text::str_eq(segment_type, "outro") || text::str_eq(segment_type, "custom")
}

/// Whether a segment of this type lies at the start of a file.
pub open spec fn early_segment(s: Seq<char>) -> bool {
    s == "intro"@ || s == "recap"@
}

/// Whether a segment of this type lies at the start of a file.
pub fn is_early_segment(s: &str) -> (r: bool)
    ensures
        r == early_segment(s@),
{
    text::str_eq(s, "intro") || text::str_eq(s, "recap")
}

/// Whether a segment of this type lies at the end of a file.
pub open spec fn late_segment(s: Seq<char>) -> bool {
    s == "credits"@ || s == "outro"@
}

/// Whether a segment of this type lies at the end of a file.
pub fn is_late_segment(s: &str) -> (r: bool)
    ensures
        r == late_segment(s@),
{
    text::str_eq(s, "credits") || text::str_eq(s, "outro")
}

/// Whether a job with this status is done.
pub open spec fn terminal_status(s: Seq<char>) -> bool {
    s == "succeeded"@ || s == "skipped"@ || s == "failed"@ || s == "cancelled"@
}

/// Whether a job with this status is done.
pub fn is_terminal_media_segment_job_status(s: &str) -> (r: bool)
    ensures
        r == terminal_status(s@),
{
    text::str_eq(s, "succeeded") || text::str_eq(s, "skipped") || text::str_eq(s, "failed") || text::str_eq(s, "cancelled")
}

/// Whether the provider kind is one of the library's own.
pub open spec fn reserved_provider_kind(s: Seq<char>) -> bool {
    s == "theintrodb"@ || s == "aniskip"@ || s == "local_audio_recurring"@ || s == "local_visual_recurring"@ || s == "chapter"@
}

/// Whether the provider kind is one of the library's own.
pub fn is_reserved_media_segment_provider_kind(s: &str) -> (r: bool)
    ensures
        r == reserved_provider_kind(s@),
{
    text::str_eq(s, "theintrodb") || text::str_eq(s, "aniskip") || text::str_eq(s, "local_audio_recurring") || text::str_eq(s, "local_visual_recurring") || text::str_eq(s, "chapter")
}

/// Refuses a status under which a job is not done.
pub fn ensure_terminal_job_status(status: &str) -> (r: Result<(), SegmentError>)
    ensures
        r is Ok <==> terminal_status(status@),
        r matches Err(e) ==> e.message@ == "invalid terminal media segment job status"@,
{
    if is_terminal_media_segment_job_status(status) {
        Ok(())
    } else {
        Err(refuse("invalid terminal media segment job status"))
    }
}

/// The normal form of the reason of a rejection, or why there is none.
pub open spec fn validation_reason_filter_of(value: Seq<char>) -> Result<Seq<char>, Seq<char>> {
    match identifier_of(value, "validation_reason"@) {
        Ok(s) => if forall|i: int| 0 <= i < s.len() ==> reason_char(#[trigger] s[i]) {
            Ok(s)
        } else {
            Err("invalid media segment candidate validation_reason filter"@)
        },
        Err(e) => Err(e),
    }
}

/// The characters of the reason of a rejection.
pub open spec fn reason_char(c: char) -> bool {
    ('a' <= c <= 'z') || ('0' <= c <= '9') || c == '_'
}

/// The normal form of a filter by the reason of a rejection.
pub fn normalize_candidate_validation_reason_filter(value: &str) -> (r: Result<
    String,
    SegmentError,
>)
    ensures
        crate::error::text_agrees(r, validation_reason_filter_of(value@)),
{
    let reason = match normalize_media_segment_job_identifier_filter(value, "validation_reason") {
        Ok(s) => s,
        Err(e) => {
            return Err(e);
        },
    };
    let v = text::chars_of(reason.as_str());
    let mut i: usize = 0;
    while i < v.len()
        invariant
            i <= v@.len(),
            v@ == reason@,
            identifier_of(value@, "validation_reason"@) == Ok::<Seq<char>, Seq<char>>(reason@),
            forall|j: int| 0 <= j < i ==> reason_char(#[trigger] v@[j]),
        decreases v@.len() - i,
    {
        let c = v[i];
        if !(('a' <= c && c <= 'z') || ('0' <= c && c <= '9') || c == '_') {
            return Err(refuse("invalid media segment candidate validation_reason filter"));
        }
        i += 1;
    }
    Ok(reason)
}

/// The type of an item whose segments are to be found, or why there is none.
pub open spec fn analysis_item_type_of(value: Seq<char>) -> Result<Seq<char>, Seq<char>> {
    match identifier_of(value, "item_type"@) {
        Ok(s) => if s == "movie"@ || s == "movies"@ {
            Ok("movie"@)
        } else if s == "series"@ || s == "show"@ || s == "tv"@ || s == "anime"@ {
            Ok(s)
        } else {
            Err("item_type must be movie, series, or anime"@)
        },
        Err(e) => Err(e),
    }
}

/// The type of an item whose segments are to be found.
pub fn normalize_analysis_item_type(item_type: &str) -> (r: Result<String, SegmentError>)
    ensures
        crate::error::text_agrees(r, analysis_item_type_of(item_type@)),
{
    match normalize_media_segment_job_identifier_filter(item_type, "item_type") {
        Ok(s) => {
            let t = s.as_str();
            if text::str_eq(t, "movie") || text::str_eq(t, "movies") {
                Ok("movie".to_owned())
            } else if text::str_eq(t, "series") || text::str_eq(t, "show") || text::str_eq(t, "tv")
                || text::str_eq(t, "anime") {
                Ok(s)
            } else {
                Err(refuse("item_type must be movie, series, or anime"))
            }
        },
        Err(e) => Err(e),
    }
}

/// The normal form of a certification status, or why there is none.
pub open spec fn certification_status_of(value: Seq<char>) -> Result<Seq<char>, Seq<char>> {
    let s = text::snake_seq(value);
    if s == "certified"@ || s == "degraded"@ || s == "broken"@ || s == "unsupported"@ || s
        == "unknown"@ {
        Ok(s)
    } else {
        Err("invalid media segment provider certification status"@)
    }
}

/// The normal form of a certification status.
pub fn normalize_media_segment_provider_certification_status(value: &str) -> (r: Result<
    String,
    SegmentError,
>)
    ensures
        crate::error::text_agrees(r, certification_status_of(value@)),
{
    let s = text::to_snake(value);
    let t = s.as_str();
    if text::str_eq(t, "certified") || text::str_eq(t, "degraded") || text::str_eq(t, "broken")
        || text::str_eq(t, "unsupported") || text::str_eq(t, "unknown") {
        Ok(s)
    } else {
        Err(refuse("invalid media segment provider certification status"))
    }
}

/// How many characters of a worker's name are kept.
pub const WORKER_ID_MAX_CHARS: usize = 80;

/// The name of a worker as it is kept, or why there is none.
pub open spec fn worker_id_of(value: Seq<char>) -> Result<Seq<char>, Seq<char>> {
    if text::trim_seq(value).len() == 0 {
        Err("media segment job worker_id must not be empty"@)
    } else {
        Ok(text::first_chars(text::trim_seq(value), WORKER_ID_MAX_CHARS as int))
    }
}

/// The name of a worker as it is kept.
pub fn normalize_worker_id(worker_id: &str) -> (r: Result<String, SegmentError>)
    ensures
        crate::error::text_agrees(r, worker_id_of(worker_id@)),
{
    let normalized = text::trim(worker_id);
    if normalized.as_str().is_empty() {
        Err(refuse("media segment job worker_id must not be empty"))
    } else {
        Ok(text::take_chars(normalized.as_str(), WORKER_ID_MAX_CHARS))
    }
}

/// How many characters of a reason are kept.
pub const REASON_MAX_CHARS: usize = 500;

/// A reason as it is kept; one without text is none.
pub open spec fn reason_of(value: Option<Seq<char>>) -> Option<Seq<char>> {
    match value {
        Some(v) => if text::trim_seq(v).len() == 0 {
            None
        } else {
            Some(text::first_chars(text::trim_seq(v), REASON_MAX_CHARS as int))
        },
        None => None,
    }
}

/// A reason as it is kept; one without text is none.
pub fn normalize_optional_reason(value: Option<&str>) -> (r: Option<String>)
    ensures
        crate::error::opt_text(r) == reason_of(
            match value {
                Some(v) => Some(v@),
                None => None,
            },
        ),
{
    match value {
        Some(v) => {
            let t = text::trim(v);
            if t.as_str().is_empty() {
                None
            } else {
                Some(text::take_chars(t.as_str(), REASON_MAX_CHARS))
            }
        },
        None => None,
    }
}

/// The text of an outside error, without outer white space and cut to a length.
pub fn truncate_for_error(value: &str, max_chars: usize) -> (r: String)
    ensures
        r@ == text::first_chars(text::trim_seq(value@), max_chars as int),
{
    let t = text::trim(value);
    text::take_chars(t.as_str(), max_chars)
}

/// Whether an error says that the worker was told to stop.
pub fn is_media_segment_worker_shutdown_interruption(message: &str) -> (r: bool)
    ensures
        r == text::contains_seq(message@, "interrupted by shutdown"@),
{
    text::contains_str(message, "interrupted by shutdown")
}

pub open spec fn ascii_digit(c: char) -> bool {
    '0' <= c <= '9'
}

/// Whether every character of `s` from `from` on is a digit.
pub open spec fn digits_from(s: Seq<char>, from: int) -> bool {
    forall|i: int| from <= i < s.len() ==> ascii_digit(#[trigger] s[i])
}

fn all_digits_from(v: &Vec<char>, from: usize) -> (r: bool)
    ensures
        r == digits_from(v@, from as int),
{
    let mut i: usize = from;
    while i < v.len()
        invariant
            from <= i,
            forall|j: int| from <= j < i && j < v@.len() ==> ascii_digit(#[trigger] v@[j]),
        decreases v@.len() - i,
    {
        if !('0' <= v[i] && v[i] <= '9') {
            return false;
        }
        i += 1;
    }
    true
}

/// Whether `s` is an id of the Internet Movie Database.
pub open spec fn imdb_shape(s: Seq<char>) -> bool {
    text::has_prefix_seq(s, "tt"@) && s.len() >= 4 && digits_from(s, 2)
}

/// An id of the Internet Movie Database in its normal form.
pub open spec fn imdb_of(value: Seq<char>) -> Option<Seq<char>> {
    let s = text::lower_seq(text::trim_seq(value));
    if imdb_shape(s) {
        Some(s)
    } else {
        None
    }
}

/// An id that is a number, in its normal form.
pub open spec fn numeric_of(value: Seq<char>) -> Option<Seq<char>> {
    let s = text::trim_seq(value);
    if s.len() > 0 && digits_from(s, 0) {
        Some(s)
    } else {
        None
    }
}

/// An id of the Internet Movie Database in its normal form.
pub fn normalize_imdb_id(value: &str) -> (r: Option<String>)
    ensures
        crate::error::opt_text(r) == imdb_of(value@),
{
    let t = text::trim(value);
    let s = text::to_lower(t.as_str());
    let v = text::chars_of(s.as_str());
    if text::has_prefix(s.as_str(), "tt") && v.len() >= 4 && all_digits_from(&v, 2) {
        Some(s)
    } else {
        None
    }
}

/// An id that is a number, in its normal form.
pub fn normalize_numeric_id(value: &str) -> (r: Option<String>)
    ensures
        crate::error::opt_text(r) == numeric_of(value@),
{
    let s = text::trim(value);
    let v = text::chars_of(s.as_str());
    if v.len() == 0 || !all_digits_from(&v, 0) {
        None
    } else {
        Some(s)
    }
}

/// An item's id at an outside catalogue, in the normal form of that catalogue.
pub open spec fn external_id_of(provider: Seq<char>, value: Seq<char>) -> Option<Seq<char>> {
    if provider == "imdb"@ || provider == "imdb_id"@ {
        imdb_of(value)
    } else {
        numeric_of(value)
    }
}

/// An item's id at an outside catalogue, in the normal form of that catalogue.
pub fn normalize_external_id_for_provider(provider: &str, value: &str) -> (r: Option<String>)
    ensures
        crate::error::opt_text(r) == external_id_of(provider@, value@),
{
    if text::str_eq(provider, "imdb") || text::str_eq(provider, "imdb_id") {
        normalize_imdb_id(value)
    } else {
        normalize_numeric_id(value)
    }
}

/// The built-in provider that a name stands for.
pub open spec fn builtin_kind_of(value: Seq<char>) -> Option<Seq<char>> {
    let s = text::snake_seq(value);
    if s == "theintrodb"@ || s == "aniskip"@ {
        Some(s)
    } else {
        None
    }
}

/// The built-in provider that a name stands for.
pub fn normalize_single_builtin_provider_kind(provider_kind: &str) -> (r: Result<
    &'static str,
    SegmentError,
>)
    ensures
        match r {
            Ok(k) => builtin_kind_of(provider_kind@) == Some(k@),
            Err(e) => builtin_kind_of(provider_kind@) is None && e.message@
                == "unsupported built-in media segment provider"@,
        },
{
    let s = text::to_snake(provider_kind);
    if text::str_eq(s.as_str(), "theintrodb") {
        Ok("theintrodb")
    } else if text::str_eq(s.as_str(), "aniskip") {
        Ok("aniskip")
    } else {
        Err(refuse("unsupported built-in media segment provider"))
    }
}

/// Whether a name stands for all built-in providers.
pub open spec fn names_all_builtins(s: Seq<char>) -> bool {
    s == "all"@ || s == "builtin"@ || s == "builtins"@ || s == "built_in"@ || s
        == "built_in_network"@
}

/// The built-in providers that a request names: all where it names none.
pub open spec fn builtin_kinds_of(value: Option<Seq<char>>) -> Option<Seq<Seq<char>>> {
    match value {
        Some(v) => if text::trim_seq(v).len() == 0 || names_all_builtins(text::snake_seq(v)) {
            Some(seq!["theintrodb"@, "aniskip"@])
        } else {
            match builtin_kind_of(text::snake_seq(v)) {
                Some(k) => Some(seq![k]),
                None => None,
            }
        },
        None => Some(seq!["theintrodb"@, "aniskip"@]),
    }
}

/// The built-in providers that a request names, in the order of their turns.
pub fn selected_builtin_provider_kinds(provider_kind: Option<&str>) -> (r: Result<
    Vec<&'static str>,
    SegmentError,
>)
    ensures
        match r {
            Ok(kinds) => builtin_kinds_of(
                match provider_kind {
                    Some(v) => Some(v@),
                    None => None,
                },
            ) == Some(kinds@.map_values(|k: &'static str| k@)),
            Err(e) => builtin_kinds_of(
                match provider_kind {
                    Some(v) => Some(v@),
                    None => None,
                },
            ) is None && e.message@ == "unsupported built-in media segment provider"@,
        },
{
    let mut kinds: Vec<&'static str> = Vec::new();
    let all = match provider_kind {
        Some(v) => {
            let t = text::trim(v);
            let s = text::to_snake(v);
            let n = s.as_str();
            if t.as_str().is_empty() || text::str_eq(n, "all") || text::str_eq(n, "builtin")
                || text::str_eq(n, "builtins") || text::str_eq(n, "built_in") || text::str_eq(
                n,
                "built_in_network",
            ) {
                true
            } else {
                match normalize_single_builtin_provider_kind(n) {
                    Ok(k) => {
                        kinds.push(k);
                        false
                    },
                    Err(e) => {
                        return Err(e);
                    },
                }
            }
        },
        None => true,
    };
    if all {
        kinds.push("theintrodb");
        kinds.push("aniskip");
    }
    proof {
        let view = kinds@.map_values(|k: &'static str| k@);
        if all {
            assert(view =~= seq!["theintrodb"@, "aniskip"@]);
        } else {
            assert(view =~= seq![kinds@[0]@]);
        }
    }
    Ok(kinds)
}

/// The address up to the first question mark, so that no query is shown.
pub open spec fn before_query(url: Seq<char>) -> Seq<char>
    decreases url.len(),
{
    if url.len() == 0 || url[0] == '?' {
        Seq::empty()
    } else {
        seq![url[0]] + before_query(url.drop_first())
    }
}

/// The address up to the first question mark, so that no query is shown.
pub fn redact_provider_url(url: &str) -> (r: String)
    ensures
        r@ == before_query(url@),
{
    let v = text::chars_of(url);
    let mut i: usize = 0;
    proof {
        assert(v@.skip(0) =~= v@);
        assert(v@.take(0) + before_query(v@) =~= before_query(v@));
    }
    while i < v.len() && v[i] != '?'
        invariant
            i <= v@.len(),
            v@ == url@,
            before_query(url@) == v@.take(i as int) + before_query(v@.skip(i as int)),
        decreases v@.len() - i,
    {
        proof {
            let rest = v@.skip(i as int);
            assert(rest.drop_first() =~= v@.skip(i + 1));
            assert(v@.take(i as int) + (seq![rest[0]] + before_query(v@.skip(i + 1))) =~= v@.take(
                i + 1,
            ) + before_query(v@.skip(i + 1)));
        }
        i += 1;
    }
    proof {
        assert(before_query(v@.skip(i as int)) =~= Seq::empty());
        assert(v@.take(i as int) + Seq::<char>::empty() =~= v@.subrange(0, i as int));
    }
    text::string_of(&v, 0, i)
}

/// The name of the media type that a provider's name stands for.
pub open spec fn media_type_of(value: Seq<char>) -> Option<Seq<char>> {
    let s = text::lower_seq(text::trim_seq(value));
    if s == "movie"@ || s == "movies"@ {
        Some("movie"@)
    } else if s == "series"@ || s == "tv"@ || s == "show"@ || s == "shows"@ || s == "episode"@ || s
        == "episodes"@ {
        Some("series"@)
    } else if s == "anime"@ {
        Some("anime"@)
    } else {
        None
    }
}

/// The name of the media type that a provider's name stands for.
pub fn normalize_segment_provider_media_type(value: &str) -> (r: Option<&'static str>)
    ensures
        (match r {
            Some(t) => Some(t@),
            None => None,
        }) == media_type_of(value@),
{
    let t = text::trim(value);
    let l = text::to_lower(t.as_str());
    let s = l.as_str();
    if text::str_eq(s, "movie") || text::str_eq(s, "movies") {
        Some("movie")
    } else if text::str_eq(s, "series") || text::str_eq(s, "tv") || text::str_eq(s, "show")
        || text::str_eq(s, "shows") || text::str_eq(s, "episode") || text::str_eq(s, "episodes") {
        Some("series")
    } else if text::str_eq(s, "anime") {
        Some("anime")
    } else {
        None
    }
}

/// Whether a provider for one media type serves another: each serves itself,
/// and one for series serves anime.
pub open spec fn media_type_served(provider: Seq<char>, requested: Seq<char>) -> bool {
    match (media_type_of(provider), media_type_of(requested)) {
        (Some(p), Some(r)) => p == r || (p == "series"@ && r == "anime"@),
        _ => false,
    }
}

/// Whether a provider for one media type serves another.
pub fn segment_provider_media_type_matches(provider_value: &str, requested_value: &str) -> (r: bool)
    ensures
        r == media_type_served(provider_value@, requested_value@),
{
    match (
        normalize_segment_provider_media_type(provider_value),
        normalize_segment_provider_media_type(requested_value),
    ) {
        (Some(p), Some(r)) => text::str_eq(p, r) || (text::str_eq(p, "series") && text::str_eq(
            r,
            "anime",
        )),
        _ => false,
    }
}

/// The type of segment that a skip type of AniSkip stands for.
pub open spec fn aniskip_type_of(skip_type: Seq<char>) -> Option<Seq<char>> {
    let s = text::lower_seq(text::trim_seq(skip_type));
    if s == "op"@ || s == "mixed-op"@ || s == "mixed_op"@ {
        Some("intro"@)
    } else if s == "ed"@ || s == "mixed-ed"@ || s == "mixed_ed"@ {
        Some("outro"@)
    } else if s == "recap"@ {
        Some("recap"@)
    } else {
        None
    }
}

/// The type of segment that a skip type of AniSkip stands for.
pub fn aniskip_segment_type(skip_type: &str) -> (r: Option<&'static str>)
    ensures
        (match r {
            Some(t) => Some(t@),
            None => None,
        }) == aniskip_type_of(skip_type@),
{
    let t = text::trim(skip_type);
    let l = text::to_lower(t.as_str());
    let s = l.as_str();
    if text::str_eq(s, "op") || text::str_eq(s, "mixed-op") || text::str_eq(s, "mixed_op") {
        Some("intro")
    } else if text::str_eq(s, "ed") || text::str_eq(s, "mixed-ed") || text::str_eq(s, "mixed_ed") {
        Some("outro")
    } else if text::str_eq(s, "recap") {
        Some("recap")
    } else {
        None
    }
}

/// The class of the failure that the message of a probe's error tells of.
pub open spec fn probe_failure_class(message: Seq<char>) -> Seq<char> {
    let m = text::lower_seq(message);
    if text::contains_seq(m, "response exceeds"@) {
        "response_too_large"@
    } else if text::contains_seq(m, "timeout"@) || text::contains_seq(m, "timed out"@) {
        "timeout"@
    } else if text::contains_seq(m, "not reachable"@) || text::contains_seq(m, "connection"@) {
        "network_blocked"@
    } else if text::contains_seq(m, "returned 4"@) || text::contains_seq(m, "returned 5"@) {
        "provider_http_error"@
    } else {
        "provider_probe_failed"@
    }
}

/// The class of the failure that the message of a probe's error tells of.
pub fn classify_media_segment_provider_certification_error(message: &str) -> (r: String)
    ensures
        r@ == probe_failure_class(message@),
{
    let l = text::to_lower(message);
    let m = l.as_str();
    if text::contains_str(m, "response exceeds") {
        "response_too_large".to_owned()
    } else if text::contains_str(m, "timeout") || text::contains_str(m, "timed out") {
        "timeout".to_owned()
    } else if text::contains_str(m, "not reachable") || text::contains_str(m, "connection") {
        "network_blocked".to_owned()
    } else if text::contains_str(m, "returned 4") || text::contains_str(m, "returned 5") {
        "provider_http_error".to_owned()
    } else {
        "provider_probe_failed".to_owned()
    }
}

/// The item that a segment belongs to.
#[derive(Debug, Clone)]
pub struct SegmentItemContext {
    pub item_type: String,
    pub item_id: String,
}

/// Why the item of a listing is refused.
pub open spec fn item_context_refusal(item_type: Seq<char>, item_id: Seq<char>) -> Option<
    Seq<char>,
> {
    match identifier_of(item_type, "item_type"@) {
        Err(e) => Some(e),
        Ok(s) => if s != "movie"@ && s != "episode"@ {
            Some("item_type must be movie or episode"@)
        } else {
            match required_of(item_id, "item_id"@) {
                Err(e) => Some(e),
                Ok(_) => None,
            }
        },
    }
}

/// The item of a listing: a movie or an episode.
pub fn normalize_segment_item_context(item_type: &str, item_id: &str) -> (r: Result<
    SegmentItemContext,
    SegmentError,
>)
    ensures
        match r {
            Ok(c) => {
                &&& item_context_refusal(item_type@, item_id@) is None
                &&& c.item_type@ == text::snake_seq(item_type@)
                &&& c.item_id@ == text::trim_seq(item_id@)
            },
            Err(e) => item_context_refusal(item_type@, item_id@) == Some(e.message@),
        },
{
    let kind = match normalize_media_segment_job_identifier_filter(item_type, "item_type") {
        Ok(s) => s,
        Err(e) => {
            return Err(e);
        },
    };
    if !text::str_eq(kind.as_str(), "movie") && !text::str_eq(kind.as_str(), "episode") {
        return Err(refuse("item_type must be movie or episode"));
    }
    match normalize_required_text(item_id, "item_id") {
        Ok(id) => Ok(SegmentItemContext { item_type: kind, item_id: id }),
        Err(e) => Err(e),
    }
}

/// The normal form of a provider id is its own normal form.
pub proof fn provider_id_normal_form_is_stable(value: Seq<char>)
    ensures
        provider_id_of(value) matches Ok(id) ==> provider_id_of(id) == Ok::<Seq<char>, Seq<char>>(
            id,
        ),
{
    text::snake_is_stable(value);
}

/// Every normal form of a filter is its own normal form.
pub proof fn filter_normal_forms_are_stable(value: Seq<char>, field: Seq<char>)
    ensures
        identifier_of(value, field) matches Ok(s) ==> identifier_of(s, field) == Ok::<
            Seq<char>,
            Seq<char>,
        >(s),
        job_status_filter_of(value) matches Ok(s) ==> job_status_filter_of(s) == Ok::<
            Seq<char>,
            Seq<char>,
        >(s),
        segment_type_filter_of(value) matches Ok(s) ==> segment_type_filter_of(s) == Ok::<
            Seq<char>,
            Seq<char>,
        >(s),
        validation_state_filter_of(value) matches Ok(s) ==> validation_state_filter_of(s) == Ok::<
            Seq<char>,
            Seq<char>,
        >(s),
        validation_reason_filter_of(value) matches Ok(s) ==> validation_reason_filter_of(s) == Ok::<
            Seq<char>,
            Seq<char>,
        >(s),
        certification_status_of(value) matches Ok(s) ==> certification_status_of(s) == Ok::<
            Seq<char>,
            Seq<char>,
        >(s),
{
    text::snake_is_stable(value);
}

/// The normal form of an item's outside id is its own normal form.
pub proof fn external_id_normal_form_is_stable(provider: Seq<char>, value: Seq<char>)
    ensures
        external_id_of(provider, value) matches Some(s) ==> external_id_of(provider, s) == Some(s),
{
    text::lower_trim_is_stable(value);
    text::trim_is_stable(value);
}

/// No query is left in an address that is shown.
pub proof fn shown_address_has_no_query(url: Seq<char>)
    ensures
        !before_query(url).contains('?'),
        text::has_prefix_seq(url, before_query(url)),
    decreases url.len(),
{
    let r = before_query(url);
    if url.len() > 0 && url[0] != '?' {
        let rest = url.drop_first();
        shown_address_has_no_query(rest);
        let b = before_query(rest);
        assert(r =~= seq![url[0]] + b);
        assert forall|i: int| 0 <= i < r.len() implies r[i] != '?' by {
            if i > 0 {
                assert(r[i] == b[i - 1]);
                assert(b.contains(b[i - 1]));
            }
        }
        assert(url.take(r.len() as int) =~= seq![url[0]] + rest.take(b.len() as int));
    } else {
        assert(url.take(0) =~= Seq::empty());
    }
}

/// A provider id is in lower case and made of letters, digits, underscores and
/// points, from one to eighty of them; a hyphen stands for an underscore.
pub proof fn provider_ids_are_short_names(value: Seq<char>)
    ensures
        provider_id_of(value) is Ok <==> {
            let s = text::snake_seq(value);
            &&& 0 < s.len() <= 80
            &&& forall|i: int|
                0 <= i < s.len() ==> {
                    let c = #[trigger] s[i];
                    ('a' <= c <= 'z') || ('0' <= c <= '9') || c == '_' || c == '.'
                }
        },
        provider_id_of(value) is Ok ==> provider_id_of(value)->Ok_0 == text::snake_seq(value),
{
    let s = text::snake_seq(value);
    text::capitals_become_small(text::trim_seq(value));
    assert forall|i: int| 0 <= i < s.len() implies !('A' <= #[trigger] s[i] <= 'Z') by {
        let c = text::trim_seq(value)[i];
        assert(s[i] == text::replace_seq(text::lower_seq(text::trim_seq(value)), '-', '_')[i]);
    }
    if provider_id_shape(s) {
        assert forall|i: int| 0 <= i < s.len() implies {
            let c = #[trigger] s[i];
            ('a' <= c <= 'z') || ('0' <= c <= '9') || c == '_' || c == '.'
        } by {
            assert(provider_id_char(s[i]));
        }
    }
    if 0 < s.len() <= 80 && forall|i: int|
        0 <= i < s.len() ==> {
            let c = #[trigger] s[i];
            ('a' <= c <= 'z') || ('0' <= c <= '9') || c == '_' || c == '.'
        } {
        assert forall|i: int| 0 <= i < s.len() implies provider_id_char(#[trigger] s[i]) by {
            let c = s[i];
        }
    }
}

/// A filter is admitted just where its normal form is one of the words that there
/// are for it, and then stands for that word.
pub proof fn filters_name_what_there_is(value: Seq<char>)
    ensures
        ({
            let s = text::snake_seq(value);
            let blank = text::trim_seq(value).len() == 0;
            &&& job_status_filter_of(value) == Ok::<Seq<char>, Seq<char>>(s) <==> !blank && (s
                == "queued"@ || s == "running"@ || s == "succeeded"@ || s == "skipped"@ || s
                == "failed"@ || s == "cancelled"@)
            &&& segment_type_filter_of(value) == Ok::<Seq<char>, Seq<char>>(s) <==> !blank && (s
                == "intro"@ || s == "recap"@ || s == "preview"@ || s == "credits"@ || s
                == "outro"@ || s == "custom"@)
            &&& validation_state_filter_of(value) == Ok::<Seq<char>, Seq<char>>(s) <==> !blank && (s
                == "pending"@ || s == "accepted"@ || s == "rejected"@)
            &&& candidate_item_type_filter_of(value) == Ok::<Seq<char>, Seq<char>>(s) <==> !blank
                && (s == "movie"@ || s == "episode"@ || s == "tv"@ || s == "anime"@)
            &&& certification_status_of(value) == Ok::<Seq<char>, Seq<char>>(s) <==> s
                == "certified"@ || s == "degraded"@ || s == "broken"@ || s == "unsupported"@ || s
                == "unknown"@
            &&& job_status_filter_of(value) is Ok ==> job_status_filter_of(value)->Ok_0 == s
            &&& segment_type_filter_of(value) is Ok ==> segment_type_filter_of(value)->Ok_0 == s
            &&& validation_state_filter_of(value) is Ok ==> validation_state_filter_of(value)->Ok_0
                == s
            &&& candidate_item_type_filter_of(value) is Ok ==> candidate_item_type_filter_of(
                value,
            )->Ok_0 == s
            &&& certification_status_of(value) is Ok ==> certification_status_of(value)->Ok_0 == s
        }),
{
}

/// A filter by the reason of a rejection is admitted just where it is made of small
/// letters, digits and underscores.
pub proof fn reasons_are_plain_words(value: Seq<char>)
    ensures
        validation_reason_filter_of(value) is Ok <==> text::trim_seq(value).len() > 0 && forall|
            i: int,
        |
            0 <= i < text::snake_seq(value).len() ==> {
                let c = #[trigger] text::snake_seq(value)[i];
                ('a' <= c <= 'z') || ('0' <= c <= '9') || c == '_'
            },
        validation_reason_filter_of(value) is Ok ==> validation_reason_filter_of(value)->Ok_0
            == text::snake_seq(value),
{
    let s = text::snake_seq(value);
    if forall|i: int|
        0 <= i < s.len() ==> {
            let c = #[trigger] s[i];
            ('a' <= c <= 'z') || ('0' <= c <= '9') || c == '_'
        } {
        assert forall|i: int| 0 <= i < s.len() implies reason_char(#[trigger] s[i]) by {
            let c = s[i];
        }
    }
    if forall|i: int| 0 <= i < s.len() ==> reason_char(#[trigger] s[i]) {
        assert forall|i: int| 0 <= i < s.len() implies {
            let c = #[trigger] s[i];
            ('a' <= c <= 'z') || ('0' <= c <= '9') || c == '_'
        } by {
            assert(reason_char(s[i]));
        }
    }
}

/// A job is done once it succeeded, was skipped, failed or was cancelled; while it is
/// queued or runs it is not. Intros and recaps lie at the start of a file, credits
/// and outros at its end.
pub proof fn statuses_and_places(s: Seq<char>)
    ensures
        terminal_status(s) <==> s == "succeeded"@ || s == "skipped"@ || s == "failed"@ || s
            == "cancelled"@,
        s == "queued"@ || s == "running"@ ==> !terminal_status(s),
        early_segment(s) <==> s == "intro"@ || s == "recap"@,
        late_segment(s) <==> s == "credits"@ || s == "outro"@,
        reserved_provider_kind(s) <==> s == "theintrodb"@ || s == "aniskip"@ || s
            == "local_audio_recurring"@ || s == "local_visual_recurring"@ || s == "chapter"@,
{
    lemma_job_statuses_differ();
}

proof fn lemma_job_statuses_differ()
    ensures
        "queued"@ != "running"@,
        "queued"@ != "succeeded"@,
        "queued"@ != "skipped"@,
        "queued"@ != "failed"@,
        "queued"@ != "cancelled"@,
        "running"@ != "succeeded"@,
        "running"@ != "skipped"@,
        "running"@ != "failed"@,
        "running"@ != "cancelled"@,
        "succeeded"@ != "skipped"@,
        "succeeded"@ != "failed"@,
        "succeeded"@ != "cancelled"@,
        "skipped"@ != "failed"@,
        "skipped"@ != "cancelled"@,
        "failed"@ != "cancelled"@,
{
    reveal_strlit("queued");
    reveal_strlit("running");
    reveal_strlit("succeeded");
    reveal_strlit("skipped");
    reveal_strlit("failed");
    reveal_strlit("cancelled");
    assert("queued"@.len() == 6);
    assert("running"@.len() == 7);
    assert("succeeded"@.len() == 9);
    assert("skipped"@.len() == 7);
    assert("failed"@.len() == 6);
    assert("cancelled"@.len() == 9);
    assert("queued"@[0] == 'q');
    assert("running"@[0] == 'r');
    assert("succeeded"@[0] == 's');
    assert("skipped"@[0] == 's');
    assert("failed"@[0] == 'f');
    assert("cancelled"@[0] == 'c');
}

/// An identifier of the Internet Movie Database is two small letters t with at least
/// two digits behind them, whatever the case it was written in; any other catalogue
/// numbers its items.
pub proof fn outside_identifiers(value: Seq<char>, provider: Seq<char>)
    ensures
        ({
            let s = text::lower_seq(text::trim_seq(value));
            imdb_of(value) == if s.len() >= 4 && s[0] == 't' && s[1] == 't' && (forall|i: int|
                2 <= i < s.len() ==> '0' <= #[trigger] s[i] <= '9') {
                Some(s)
            } else {
                None
            }
        }),
        ({
            let s = text::trim_seq(value);
            numeric_of(value) == if s.len() > 0 && (forall|i: int|
                0 <= i < s.len() ==> '0' <= #[trigger] s[i] <= '9') {
                Some(s)
            } else {
                None
            }
        }),
        provider == "imdb"@ || provider == "imdb_id"@ ==> external_id_of(provider, value)
            == imdb_of(value),
        provider != "imdb"@ && provider != "imdb_id"@ ==> external_id_of(provider, value)
            == numeric_of(value),
{
    reveal_strlit("tt");
    let s = text::lower_seq(text::trim_seq(value));
    let n = text::trim_seq(value);
    assert("tt"@ =~= seq!['t', 't']);
    if s.len() >= 4 && s[0] == 't' && s[1] == 't' {
        assert(s.take(2) =~= "tt"@);
    }
    if text::has_prefix_seq(s, "tt"@) {
        assert(s.take(2)[0] == 't' && s.take(2)[1] == 't');
        assert(s[0] == s.take(2)[0] && s[1] == s.take(2)[1]);
    }
    if digits_from(s, 2) {
        assert forall|i: int| 2 <= i < s.len() implies '0' <= #[trigger] s[i] <= '9' by {
            assert(ascii_digit(s[i]));
        }
    }
    if forall|i: int| 2 <= i < s.len() ==> '0' <= #[trigger] s[i] <= '9' {
        assert forall|i: int| 2 <= i < s.len() implies ascii_digit(#[trigger] s[i]) by {
            assert('0' <= s[i] <= '9');
        }
    }
    if digits_from(n, 0) {
        assert forall|i: int| 0 <= i < n.len() implies '0' <= #[trigger] n[i] <= '9' by {
            assert(ascii_digit(n[i]));
        }
    }
    if forall|i: int| 0 <= i < n.len() ==> '0' <= #[trigger] n[i] <= '9' {
        assert forall|i: int| 0 <= i < n.len() implies ascii_digit(#[trigger] n[i]) by {
            assert('0' <= n[i] <= '9');
        }
    }
}

/// A request is for both built-in providers where it names none or all, first for
/// TheIntroDB; else for the one that it names, and for none under another name.
pub proof fn requests_name_builtin_providers(value: Option<Seq<char>>)
    ensures
        value is None ==> builtin_kinds_of(value) == Some(seq!["theintrodb"@, "aniskip"@]),
        value is Some ==> {
            let s = text::snake_seq(value->0);
            let every = text::trim_seq(value->0).len() == 0 || s == "all"@ || s == "builtin"@ || s
                == "builtins"@ || s == "built_in"@ || s == "built_in_network"@;
            &&& every ==> builtin_kinds_of(value) == Some(seq!["theintrodb"@, "aniskip"@])
            &&& !every && (s == "theintrodb"@ || s == "aniskip"@) ==> builtin_kinds_of(value)
                == Some(seq![s])
            &&& !every && s != "theintrodb"@ && s != "aniskip"@ ==> builtin_kinds_of(value) is None
        },
{
    if value is Some {
        text::snake_is_stable(value->0);
    }
}

/// What is shown of an address is all of it before the first question mark.
pub proof fn addresses_are_shown_up_to_their_query(a: Seq<char>, b: Seq<char>)
    requires
        !a.contains('?'),
    ensures
        before_query(a) == a,
        before_query(a + seq!['?'] + b) == a,
    decreases a.len(),
{
    if a.len() == 0 {
        assert((a + seq!['?'] + b)[0] == '?');
        assert(a =~= Seq::empty());
    } else {
        let rest = a.drop_first();
        assert(a.contains(a[0]));
        assert(!rest.contains('?')) by {
            if rest.contains('?') {
                let i = choose|i: int| 0 <= i < rest.len() && rest[i] == '?';
                assert(a[i + 1] == '?');
                assert(a.contains(a[i + 1]));
            }
        }
        addresses_are_shown_up_to_their_query(rest, b);
        assert(a =~= seq![a[0]] + rest);
        assert((a + seq!['?'] + b)[0] == a[0]);
        assert((a + seq!['?'] + b).drop_first() =~= rest + seq!['?'] + b);
    }
}

/// What a word stands for among the media types, and which serve which: each serves
/// itself, and series serve anime but not the other way round.
pub proof fn media_types_serve_each_other(a: Seq<char>, b: Seq<char>)
    ensures
        ({
            let s = text::lower_seq(text::trim_seq(a));
            &&& media_type_of(a) == Some("movie"@) <==> s == "movie"@ || s == "movies"@
            &&& media_type_of(a) == Some("series"@) <==> s == "series"@ || s == "tv"@ || s
                == "show"@ || s == "shows"@ || s == "episode"@ || s == "episodes"@
            &&& media_type_of(a) == Some("anime"@) <==> s == "anime"@
            &&& media_type_of(a) is Some ==> media_type_of(a) == Some("movie"@) || media_type_of(a)
                == Some("series"@) || media_type_of(a) == Some("anime"@)
        }),
        media_type_of(a) is Some && media_type_of(a) == media_type_of(b) ==> media_type_served(
            a,
            b,
        ),
        media_type_of(a) == Some("series"@) && media_type_of(b) == Some("anime"@)
            ==> media_type_served(a, b) && !media_type_served(b, a),
        media_type_of(a) == Some("movie"@) && media_type_of(b) != Some("movie"@)
            ==> !media_type_served(a, b) && !media_type_served(b, a),
        media_type_of(a) is None ==> !media_type_served(a, b) && !media_type_served(b, a),
{
    lemma_media_words_differ();
}

proof fn lemma_media_words_differ()
    ensures
        "movie"@ != "movies"@,
        "movie"@ != "series"@,
        "movie"@ != "tv"@,
        "movie"@ != "show"@,
        "movie"@ != "shows"@,
        "movie"@ != "episode"@,
        "movie"@ != "episodes"@,
        "movie"@ != "anime"@,
        "movies"@ != "series"@,
        "movies"@ != "tv"@,
        "movies"@ != "show"@,
        "movies"@ != "shows"@,
        "movies"@ != "episode"@,
        "movies"@ != "episodes"@,
        "movies"@ != "anime"@,
        "series"@ != "tv"@,
        "series"@ != "show"@,
        "series"@ != "shows"@,
        "series"@ != "episode"@,
        "series"@ != "episodes"@,
        "series"@ != "anime"@,
        "tv"@ != "show"@,
        "tv"@ != "shows"@,
        "tv"@ != "episode"@,
        "tv"@ != "episodes"@,
        "tv"@ != "anime"@,
        "show"@ != "shows"@,
        "show"@ != "episode"@,
        "show"@ != "episodes"@,
        "show"@ != "anime"@,
        "shows"@ != "episode"@,
        "shows"@ != "episodes"@,
        "shows"@ != "anime"@,
        "episode"@ != "episodes"@,
        "episode"@ != "anime"@,
        "episodes"@ != "anime"@,
{
    reveal_strlit("movie");
    reveal_strlit("movies");
    reveal_strlit("series");
    reveal_strlit("tv");
    reveal_strlit("show");
    reveal_strlit("shows");
    reveal_strlit("episode");
    reveal_strlit("episodes");
    reveal_strlit("anime");
    assert("movie"@.len() == 5);
    assert("movies"@.len() == 6);
    assert("series"@.len() == 6);
    assert("tv"@.len() == 2);
    assert("show"@.len() == 4);
    assert("shows"@.len() == 5);
    assert("episode"@.len() == 7);
    assert("episodes"@.len() == 8);
    assert("anime"@.len() == 5);
    assert("movie"@[0] == 'm');
    assert("movies"@[0] == 'm');
    assert("series"@[0] == 's');
    assert("shows"@[0] == 's');
    assert("anime"@[0] == 'a');
}

/// What a skip type of AniSkip stands for: an opening is an intro, an ending an
/// outro, a recap itself, and any other nothing.
pub proof fn skip_types_stand_for_segments(word: Seq<char>)
    ensures
        ({
            let s = text::lower_seq(text::trim_seq(word));
            let kind = aniskip_type_of(word);
            &&& kind == Some("intro"@) <==> s == "op"@ || s == "mixed-op"@ || s == "mixed_op"@
            &&& kind == Some("outro"@) <==> s == "ed"@ || s == "mixed-ed"@ || s == "mixed_ed"@
            &&& kind == Some("recap"@) <==> s == "recap"@
            &&& kind is Some ==> kind == Some("intro"@) || kind == Some("outro"@) || kind == Some(
                "recap"@,
            )
        }),
{
    lemma_skip_types_differ();
    lemma_skip_segments_differ();
}

proof fn lemma_skip_types_differ()
    ensures
        "op"@ != "mixed-op"@,
        "op"@ != "mixed_op"@,
        "op"@ != "ed"@,
        "op"@ != "mixed-ed"@,
        "op"@ != "mixed_ed"@,
        "op"@ != "recap"@,
        "mixed-op"@ != "mixed_op"@,
        "mixed-op"@ != "ed"@,
        "mixed-op"@ != "mixed-ed"@,
        "mixed-op"@ != "mixed_ed"@,
        "mixed-op"@ != "recap"@,
        "mixed_op"@ != "ed"@,
        "mixed_op"@ != "mixed-ed"@,
        "mixed_op"@ != "mixed_ed"@,
        "mixed_op"@ != "recap"@,
        "ed"@ != "mixed-ed"@,
        "ed"@ != "mixed_ed"@,
        "ed"@ != "recap"@,
        "mixed-ed"@ != "mixed_ed"@,
        "mixed-ed"@ != "recap"@,
        "mixed_ed"@ != "recap"@,
{
    reveal_strlit("op");
    reveal_strlit("mixed-op");
    reveal_strlit("mixed_op");
    reveal_strlit("ed");
    reveal_strlit("mixed-ed");
    reveal_strlit("mixed_ed");
    reveal_strlit("recap");
    assert("op"@.len() == 2);
    assert("mixed-op"@.len() == 8);
    assert("mixed_op"@.len() == 8);
    assert("ed"@.len() == 2);
    assert("mixed-ed"@.len() == 8);
    assert("mixed_ed"@.len() == 8);
    assert("recap"@.len() == 5);
    assert("op"@[0] == 'o');
    assert("mixed-op"@[5] == '-');
    assert("mixed-op"@[6] == 'o');
    assert("mixed_op"@[5] == '_');
    assert("mixed_op"@[6] == 'o');
    assert("ed"@[0] == 'e');
    assert("mixed-ed"@[5] == '-');
    assert("mixed-ed"@[6] == 'e');
    assert("mixed_ed"@[5] == '_');
    assert("mixed_ed"@[6] == 'e');
}

proof fn lemma_skip_segments_differ()
    ensures
        "intro"@ != "outro"@,
        "intro"@ != "recap"@,
        "outro"@ != "recap"@,
{
    reveal_strlit("intro");
    reveal_strlit("outro");
    reveal_strlit("recap");
    assert("intro"@.len() == 5);
    assert("outro"@.len() == 5);
    assert("recap"@.len() == 5);
    assert("intro"@[0] == 'i');
    assert("outro"@[0] == 'o');
    assert("recap"@[0] == 'r');
}

/// What the message of a failed probe tells: that the response was too long, else
/// that it took too long, else that the provider could not be reached, else that it
/// replied with an error; any other message tells that the probe failed.
pub proof fn messages_tell_the_failure(message: Seq<char>)
    ensures
        ({
            let m = text::lower_seq(message);
            let long = text::contains_seq(m, "response exceeds"@);
            let slow = text::contains_seq(m, "timeout"@) || text::contains_seq(m, "timed out"@);
            let apart = text::contains_seq(m, "not reachable"@) || text::contains_seq(
                m,
                "connection"@,
            );
            let status = text::contains_seq(m, "returned 4"@) || text::contains_seq(
                m,
                "returned 5"@,
            );
            let class = probe_failure_class(message);
            &&& class == "response_too_large"@ <==> long
            &&& class == "timeout"@ <==> slow && !long
            &&& class == "network_blocked"@ <==> apart && !slow && !long
            &&& class == "provider_http_error"@ <==> status && !apart && !slow && !long
            &&& class == "provider_probe_failed"@ <==> !status && !apart && !slow && !long
        }),
{
    lemma_classes_differ();
}

proof fn lemma_classes_differ()
    ensures
        "response_too_large"@ != "timeout"@,
        "response_too_large"@ != "network_blocked"@,
        "response_too_large"@ != "provider_http_error"@,
        "response_too_large"@ != "provider_probe_failed"@,
        "timeout"@ != "network_blocked"@,
        "timeout"@ != "provider_http_error"@,
        "timeout"@ != "provider_probe_failed"@,
        "network_blocked"@ != "provider_http_error"@,
        "network_blocked"@ != "provider_probe_failed"@,
        "provider_http_error"@ != "provider_probe_failed"@,
{
    reveal_strlit("response_too_large");
    reveal_strlit("timeout");
    reveal_strlit("network_blocked");
    reveal_strlit("provider_http_error");
    reveal_strlit("provider_probe_failed");
    assert("response_too_large"@.len() == 18);
    assert("timeout"@.len() == 7);
    assert("network_blocked"@.len() == 15);
    assert("provider_http_error"@.len() == 19);
    assert("provider_probe_failed"@.len() == 21);
}

/// Segments are listed of a film or an episode that is named.
pub proof fn listings_are_of_films_and_episodes(item_type: Seq<char>, item_id: Seq<char>)
    ensures
        item_context_refusal(item_type, item_id) is None <==> text::trim_seq(item_type).len() > 0
            && (text::snake_seq(item_type) == "movie"@ || text::snake_seq(item_type)
            == "episode"@) && text::trim_seq(item_id).len() > 0,
{
}

/// What is kept of a worker's name and of a reason: the text without white space
/// round it, up to eighty and five hundred characters; a name must have text.
pub proof fn names_and_reasons_are_cut(value: Seq<char>)
    ensures
        ({
            let t = text::trim_seq(value);
            &&& worker_id_of(value) is Ok <==> t.len() > 0
            &&& 0 < t.len() <= 80 ==> worker_id_of(value) == Ok::<Seq<char>, Seq<char>>(t)
            &&& t.len() > 80 ==> worker_id_of(value) == Ok::<Seq<char>, Seq<char>>(t.take(80))
            &&& reason_of(Some(value)) is Some <==> t.len() > 0
            &&& 0 < t.len() <= 500 ==> reason_of(Some(value)) == Some(t)
            &&& t.len() > 500 ==> reason_of(Some(value)) == Some(t.take(500))
            &&& reason_of(None) is None
        }),
{
}

/// The items whose segments are looked for: films, under either word, and series
/// under theirs.
pub proof fn items_that_are_analysed(value: Seq<char>)
    ensures
        ({
            let s = text::snake_seq(value);
            let r = analysis_item_type_of(value);
            let blank = text::trim_seq(value).len() == 0;
            &&& !blank && (s == "movie"@ || s == "movies"@) ==> r == Ok::<Seq<char>, Seq<char>>(
                "movie"@,
            )
            &&& !blank && (s == "series"@ || s == "show"@ || s == "tv"@ || s == "anime"@) ==> r
                == Ok::<Seq<char>, Seq<char>>(s)
            &&& r is Ok ==> !blank && (s == "movie"@ || s == "movies"@ || s == "series"@ || s
                == "show"@ || s == "tv"@ || s == "anime"@)
        }),
{
    lemma_media_words_differ();
}

/// A field without text is refused by its name; one with text is taken without white space
/// round it, as it is or in its normal form.
pub proof fn fields_need_text(value: Seq<char>, field: Seq<char>)
    ensures
        text::trim_seq(value).len() == 0 ==> required_of(value, field) == Err::<
            Seq<char>,
            Seq<char>,
        >(field + " is required"@) && identifier_of(value, field) == Err::<Seq<char>, Seq<char>>(
            field + " is required"@,
        ),
        text::trim_seq(value).len() > 0 ==> required_of(value, field) == Ok::<
            Seq<char>,
            Seq<char>,
        >(text::trim_seq(value)) && identifier_of(value, field) == Ok::<Seq<char>, Seq<char>>(
            text::replace_seq(text::lower_seq(text::trim_seq(value)), '-', '_'),
        ),
{
}

/// What is refused says what it is not.
pub proof fn refusals_say_what_is_wrong(value: Seq<char>)
    requires
        text::trim_seq(value).len() > 0,
    ensures
        provider_id_of(value) is Err ==> provider_id_of(value)->Err_0
            == "invalid segment provider id"@,
        job_status_filter_of(value) is Err ==> job_status_filter_of(value)->Err_0
            == "invalid media segment job status filter"@,
        candidate_item_type_filter_of(value) is Err ==> candidate_item_type_filter_of(value)->Err_0
            == "invalid media segment candidate item_type filter"@,
        segment_type_filter_of(value) is Err ==> segment_type_filter_of(value)->Err_0
            == "invalid media segment candidate segment_type filter"@,
        validation_state_filter_of(value) is Err ==> validation_state_filter_of(value)->Err_0
            == "invalid media segment candidate validation_state filter"@,
        validation_reason_filter_of(value) is Err ==> validation_reason_filter_of(value)->Err_0
            == "invalid media segment candidate validation_reason filter"@,
        analysis_item_type_of(value) is Err ==> analysis_item_type_of(value)->Err_0
            == "item_type must be movie, series, or anime"@,
        certification_status_of(value) is Err ==> certification_status_of(value)->Err_0
            == "invalid media segment provider certification status"@,
        item_context_refusal(value, value) is Some ==> item_context_refusal(value, value)->0
            == "item_type must be movie or episode"@,
{
}

/// A worker without a name is refused; an item that names no type or no id is refused by
/// that.
pub proof fn blank_names_are_refused(value: Seq<char>, other: Seq<char>)
    requires
        text::trim_seq(value).len() == 0,
    ensures
        worker_id_of(value) == Err::<Seq<char>, Seq<char>>(
            "media segment job worker_id must not be empty"@,
        ),
        item_context_refusal(value, other) == Some("item_type"@ + " is required"@),
        text::snake_seq(other) == "movie"@ && text::trim_seq(other).len() > 0
            ==> item_context_refusal(other, value) == Some("item_id"@ + " is required"@),
        job_status_filter_of(value) == Err::<Seq<char>, Seq<char>>("status"@ + " is required"@),
        segment_type_filter_of(value) == Err::<Seq<char>, Seq<char>>(
            "segment_type"@ + " is required"@,
        ),
        validation_state_filter_of(value) == Err::<Seq<char>, Seq<char>>(
            "validation_state"@ + " is required"@,
        ),
        validation_reason_filter_of(value) == Err::<Seq<char>, Seq<char>>(
            "validation_reason"@ + " is required"@,
        ),
        candidate_item_type_filter_of(value) == Err::<Seq<char>, Seq<char>>(
            "item_type"@ + " is required"@,
        ),
        analysis_item_type_of(value) == Err::<Seq<char>, Seq<char>>("item_type"@ + " is required"@),
{
}

} // verus!
