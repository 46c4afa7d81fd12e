//! Segment candidates: their normal form, their validation, and which of them
//! become active.

use vstd::prelude::*;
use vstd::string::*;
use crate::consts;
use crate::error::{opt_text, refuse, SegmentError};
use crate::json::{self, Json, JsonValue};
use crate::normalize::{self, SegmentItemContext};
use crate::order;
use crate::outside;
use crate::quantity::{self, Quantity};
use crate::text;
use crate::writing::{self, json_text};

verus! {

/// A candidate as a provider hands it in.
#[derive(Debug, Clone)]
pub struct SegmentCandidateInput {
    pub media_file_id: String,
    pub item_type: Option<String>,
    pub item_id: Option<String>,
    pub segment_type: String,
    pub start: Quantity,
    pub end: Quantity,
    pub provider_kind: String,
    pub provider_id: String,
    pub provider_version: Option<String>,
    pub confidence: Quantity,
    pub identity_strength: String,
    pub source_payload: Option<JsonValue>,
}

/// What a submitted candidate is, as a mathematical value.
#[verifier::ext_equal]
pub struct Submission {
    pub media_file_id: Seq<char>,
    pub item_type: Option<Seq<char>>,
    pub item_id: Option<Seq<char>>,
    pub segment_type: Seq<char>,
    pub start: Quantity,
    pub end: Quantity,
    pub provider_kind: Seq<char>,
    pub provider_id: Seq<char>,
    pub provider_version: Option<Seq<char>>,
    pub confidence: Quantity,
    pub identity_strength: Seq<char>,
    pub source_payload: Option<Json>,
}

impl View for SegmentCandidateInput {
    type V = Submission;

    open spec fn view(&self) -> Submission {
        Submission {
            media_file_id: self.media_file_id@,
            item_type: opt_text(self.item_type),
            item_id: opt_text(self.item_id),
            segment_type: self.segment_type@,
            start: self.start,
            end: self.end,
            provider_kind: self.provider_kind@,
            provider_id: self.provider_id@,
            provider_version: opt_text(self.provider_version),
            confidence: self.confidence,
            identity_strength: self.identity_strength@,
            source_payload: json::opt_value(self.source_payload),
        }
    }
}

/// What some submitted candidates are.
pub open spec fn submissions(v: Seq<SegmentCandidateInput>) -> Seq<Submission> {
    v.map_values(|c: SegmentCandidateInput| c@)
}

/// A candidate in its normal form.
#[derive(Debug, Clone)]
pub struct CandidateRow {
    pub id: String,
    pub media_file_id: String,
    pub item_type: String,
    pub item_id: String,
    pub segment_type: String,
    pub start: Quantity,
    pub end: Quantity,
    pub provider_kind: String,
    pub provider_id: String,
    pub provider_version: Option<String>,
    /// In millionths.
    pub confidence: i64,
    pub identity_strength: String,
    pub source_payload: Option<JsonValue>,
}

/// A candidate as it is stored.
#[derive(Debug, Clone)]
pub struct SegmentCandidateRecord {
    pub id: String,
    pub media_file_id: String,
    pub item_type: String,
    pub item_id: String,
    pub segment_type: String,
    pub start_micros: i64,
    pub end_micros: i64,
    pub provider_kind: String,
    pub provider_id: String,
    pub provider_version: Option<String>,
    pub confidence: i64,
    pub validation_state: String,
    pub validation_reason: Option<String>,
    pub identity_strength: String,
    pub source_payload: Option<JsonValue>,
    pub created_at: Option<String>,
    pub updated_at: Option<String>,
}

/// A segment that players see.
#[derive(Debug, Clone)]
pub struct ActiveMediaSegmentRecord {
    pub id: String,
    pub media_file_id: String,
    pub item_type: String,
    pub item_id: String,
    pub segment_type: String,
    pub start_micros: i64,
    pub end_micros: i64,
    pub canonical_candidate_id: Option<String>,
    pub source_label: String,
    pub confidence: i64,
    pub locked: bool,
    pub status: String,
    pub metadata: Option<JsonValue>,
}

/// What became of a submitted candidate.
#[derive(Debug, Clone)]
pub struct SegmentCandidateOutcome {
    pub candidate: SegmentCandidateRecord,
    pub activated_segment: Option<ActiveMediaSegmentRecord>,
}

/// A time range that no candidate may enter.
#[derive(Debug, Clone, Copy, PartialEq, Eq, Structural)]
pub struct ActiveWindow {
    pub start_micros: i64,
    pub end_micros: i64,
}

/// What the validation of a candidate says.
#[derive(Debug, Clone)]
pub struct CandidateValidation {
    pub state: &'static str,
    pub reason: Option<String>,
    pub auto_activate: bool,
}

/// The JSON value of an optional payload.
pub open spec fn payload_json(p: Option<JsonValue>) -> Option<Json> {
    match p {
        Some(v) => Some(v@),
        None => None,
    }
}

/// The member of a payload that tells one segment of a provider from another.
pub open spec fn source_member(payload: Option<Json>) -> Option<Json> {
    match payload {
        Some(p) => match json::json_get(p, "chapter_id"@) {
            Some(v) => Some(v),
            None => match json::json_get(p, "provider_segment_id"@) {
                Some(v) => Some(v),
                None => json::json_get(p, "id"@),
            },
        },
        None => None,
    }
}

/// The member of a payload that tells one segment of a provider from another.
pub fn candidate_source_member(payload: Option<&JsonValue>) -> (r: Option<&JsonValue>)
    ensures
        json::opt_json(r) == source_member(json::opt_json(payload)),
{
    match payload {
        Some(p) => match p.get("chapter_id") {
            Some(v) => Some(v),
            None => match p.get("provider_segment_id") {
                Some(v) => Some(v),
                None => p.get("id"),
            },
        },
        None => None,
    }
}

/// The JSON text of the member that tells one segment of a provider from
/// another; empty where there is none.
pub open spec fn source_text(payload: Option<Json>) -> Seq<char> {
    match source_member(payload) {
        Some(v) => writing::compact(v),
        None => Seq::empty(),
    }
}

/// The text that a candidate's id is made from.
pub open spec fn candidate_key(
    media_file_id: Seq<char>,
    item_type: Seq<char>,
    item_id: Seq<char>,
    segment_type: Seq<char>,
    start: Quantity,
    end: Quantity,
    provider_kind: Seq<char>,
    provider_id: Seq<char>,
    source_key: Seq<char>,
) -> Seq<char> {
    media_file_id + "|"@ + item_type + "|"@ + item_id + "|"@ + segment_type + "|"@
        + quantity::quantity_text(start) + "|"@ + quantity::quantity_text(end) + "|"@
        + provider_kind + "|"@ + provider_id + "|"@ + source_key
}

/// The text that a candidate's id is made from.
pub fn candidate_key_text(
    media_file_id: &str,
    item_type: &str,
    item_id: &str,
    segment_type: &str,
    start: &Quantity,
    end: &Quantity,
    provider_kind: &str,
    provider_id: &str,
    source_key: &str,
) -> (r: String)
    ensures
        r@ == candidate_key(
            media_file_id@,
            item_type@,
            item_id@,
            segment_type@,
            *start,
            *end,
            provider_kind@,
            provider_id@,
            source_key@,
        ),
{
    let from = quantity::quantity_string(start);
    let to = quantity::quantity_string(end);
    let mut key = media_file_id.to_owned();
    key.append("|");
    key.append(item_type);
    key.append("|");
    key.append(item_id);
    key.append("|");
    key.append(segment_type);
    key.append("|");
    key.append(from.as_str());
    key.append("|");
    key.append(to.as_str());
    key.append("|");
    key.append(provider_kind);
    key.append("|");
    key.append(provider_id);
    key.append("|");
    key.append(source_key);
    key
}

/// The id of a candidate: one candidate always has one id, so that submitting
/// it again replaces it.
pub fn deterministic_candidate_id(
    media_file_id: &str,
    item_type: &str,
    item_id: &str,
    segment_type: &str,
    start: &Quantity,
    end: &Quantity,
    provider_kind: &str,
    provider_id: &str,
    source_payload: Option<&JsonValue>,
) -> (r: String)
    ensures
        r@ == outside::oid_uuid_text(
            candidate_key(
                media_file_id@,
                item_type@,
                item_id@,
                segment_type@,
                *start,
                *end,
                provider_kind@,
                provider_id@,
                source_text(json::opt_json(source_payload)),
            ),
        ),
{
    let source_key = match candidate_source_member(source_payload) {
        Some(v) => json_text(v),
        None => String::new(),
    };
    proof {
        assert(source_key@ =~= source_text(json::opt_json(source_payload)));
    }
    let key = candidate_key_text(
        media_file_id,
        item_type,
        item_id,
        segment_type,
        start,
        end,
        provider_kind,
        provider_id,
        source_key.as_str(),
    );
    outside::oid_uuid(key.as_str())
}

/// What is known of the item that a file belongs to.
#[derive(Debug, Clone)]
pub enum ResolvedItem {
    Item(SegmentItemContext),
    /// The file belongs to no item.
    Unlinked,
}

/// The type of the item of a candidate: the one named with it, else the one
/// that its file belongs to.
pub open spec fn candidate_item(
    item_type: Option<String>,
    item_id: Option<String>,
    resolved: ResolvedItem,
) -> Result<(Seq<char>, Seq<char>), Seq<char>> {
    match (item_type, item_id) {
        (Some(t), Some(i)) => match normalize::required_of(t@, "item_type"@) {
            Ok(kind) => match normalize::required_of(i@, "item_id"@) {
                Ok(id) => Ok((text::lower_seq(kind), id)),
                Err(e) => Err(e),
            },
            Err(e) => Err(e),
        },
        (None, None) => match resolved {
            ResolvedItem::Item(c) => Ok((c.item_type@, c.item_id@)),
            ResolvedItem::Unlinked => Err("media file is not linked to a media item"@),
        },
        _ => Err("item_type and item_id must be provided together"@),
    }
}

/// Why a candidate is refused: the first that holds.
pub open spec fn candidate_refusal(
    input: SegmentCandidateInput,
    file_exists: bool,
    resolved: ResolvedItem,
) -> Option<Seq<char>> {
    if text::trim_seq(input.media_file_id@).len() == 0 {
        Some("media_file_id"@ + " is required"@)
    } else if !file_exists {
        Some("media file not found"@)
    } else if candidate_item(input.item_type, input.item_id, resolved) is Err {
        Some(candidate_item(input.item_type, input.item_id, resolved)->Err_0)
    } else if text::trim_seq(input.segment_type@).len() == 0 {
        Some("segment_type"@ + " is required"@)
    } else if text::trim_seq(input.provider_kind@).len() == 0 {
        Some("provider_kind"@ + " is required"@)
    } else if text::trim_seq(input.provider_id@).len() == 0 {
        Some("provider_id"@ + " is required"@)
    } else if input.provider_version is Some && text::trim_seq(
        input.provider_version->0@,
    ).len() == 0 {
        Some("provider_version"@ + " is required"@)
    } else if text::trim_seq(input.identity_strength@).len() == 0 {
        Some("identity_strength"@ + " is required"@)
    } else if text::snake_seq(input.provider_kind@) == "manual"@ || text::snake_seq(
        input.identity_strength@,
    ) == "manual"@ {
        Some("manual media segment candidates are not supported"@)
    } else if quantity::finite(input.confidence) is None {
        Some("confidence must be finite"@)
    } else {
        None
    }
}

/// A ratio brought between 0 and 1, in millionths.
pub open spec fn unit_clamp(n: int) -> int {
    if n < 0 {
        0
    } else if n > json::MICROS {
        json::MICROS as int
    } else {
        n
    }
}

/// A ratio brought between 0 and 1, in millionths.
pub fn clamp_unit(n: i64) -> (r: i64)
    ensures
        r == unit_clamp(n as int),
{
    if n < 0 {
        0
    } else if n > json::MICROS {
        json::MICROS
    } else {
        n
    }
}

/// Whether `row` is the normal form of `input`.
pub open spec fn normal_form_of(
    row: CandidateRow,
    input: SegmentCandidateInput,
    resolved: ResolvedItem,
) -> bool {
    let item = candidate_item(input.item_type, input.item_id, resolved)->Ok_0;
    &&& row.media_file_id@ == text::trim_seq(input.media_file_id@)
    &&& row.item_type@ == item.0
    &&& row.item_id@ == item.1
    &&& row.segment_type@ == text::snake_seq(input.segment_type@)
    &&& row.start == input.start
    &&& row.end == input.end
    &&& row.provider_kind@ == text::snake_seq(input.provider_kind@)
    &&& row.provider_id@ == text::trim_seq(input.provider_id@)
    &&& opt_text(row.provider_version) == match input.provider_version {
        Some(v) => Some(text::trim_seq(v@)),
        None => None,
    }
    &&& row.confidence == unit_clamp(quantity::finite(input.confidence)->0 as int)
    &&& row.identity_strength@ == text::snake_seq(input.identity_strength@)
    &&& payload_json(row.source_payload) == payload_json(input.source_payload)
    &&& row.id@ == outside::oid_uuid_text(
        candidate_key(
            row.media_file_id@,
            row.item_type@,
            row.item_id@,
            row.segment_type@,
            row.start,
            row.end,
            row.provider_kind@,
            row.provider_id@,
            source_text(payload_json(input.source_payload)),
        ),
    )
}

fn item_of(
    item_type: &Option<String>,
    item_id: &Option<String>,
    resolved: &ResolvedItem,
) -> (r: Result<SegmentItemContext, SegmentError>)
    ensures
        match (r, candidate_item(*item_type, *item_id, *resolved)) {
            (Ok(c), Ok(p)) => c.item_type@ == p.0 && c.item_id@ == p.1,
            (Err(e), Err(m)) => e.message@ == m,
            _ => false,
        },
{
    match (item_type, item_id) {
        (Some(t), Some(i)) => {
            let kind = match normalize::normalize_required_text(t.as_str(), "item_type") {
                Ok(k) => k,
                Err(e) => {
                    return Err(e);
                },
            };
            match normalize::normalize_required_text(i.as_str(), "item_id") {
                Ok(id) => Ok(
                    SegmentItemContext { item_type: text::to_lower(kind.as_str()), item_id: id },
                ),
                Err(e) => Err(e),
            }
        },
        (None, None) => match resolved {
            ResolvedItem::Item(c) => Ok(
                SegmentItemContext { item_type: c.item_type.clone(), item_id: c.item_id.clone() },
            ),
            ResolvedItem::Unlinked => Err(refuse("media file is not linked to a media item")),
        },
        _ => Err(refuse("item_type and item_id must be provided together")),
    }
}

/// The normal form of a candidate. `file_exists` and `resolved` are what the
/// store knows of the file.
pub fn normalize_candidate_input(
    input: SegmentCandidateInput,
    file_exists: bool,
    resolved: &ResolvedItem,
) -> (r: Result<CandidateRow, SegmentError>)
    ensures
        match r {
            Ok(row) => {
                &&& candidate_refusal(input, file_exists, *resolved) is None
                &&& normal_form_of(row, input, *resolved)
            },
            Err(e) => candidate_refusal(input, file_exists, *resolved) == Some(e.message@),
        },
{
    proof {
        text::snake_is_stable(input.provider_kind@);
    }
    let media_file_id = match normalize::normalize_required_text(
        input.media_file_id.as_str(),
        "media_file_id",
    ) {
        Ok(t) => t,
        Err(e) => {
            return Err(e);
        },
    };
    if !file_exists {
        return Err(refuse("media file not found"));
    }
    let item = match item_of(&input.item_type, &input.item_id, resolved) {
        Ok(c) => c,
        Err(e) => {
            return Err(e);
        },
    };
    let segment_type = match normalize::normalize_media_segment_job_identifier_filter(
        input.segment_type.as_str(),
        "segment_type",
    ) {
        Ok(t) => t,
        Err(e) => {
            return Err(e);
        },
    };
    let provider_kind = match normalize::normalize_media_segment_job_identifier_filter(
        input.provider_kind.as_str(),
        "provider_kind",
    ) {
        Ok(t) => t,
        Err(e) => {
            return Err(e);
        },
    };
    let provider_id = match normalize::normalize_required_text(
        input.provider_id.as_str(),
        "provider_id",
    ) {
        Ok(t) => t,
        Err(e) => {
            return Err(e);
        },
    };
    let provider_version = match &input.provider_version {
        Some(v) => match normalize::normalize_required_text(v.as_str(), "provider_version") {
            Ok(t) => Some(t),
            Err(e) => {
                return Err(e);
            },
        },
        None => None,
    };
    let identity_strength = match normalize::normalize_media_segment_job_identifier_filter(
        input.identity_strength.as_str(),
        "identity_strength",
    ) {
        Ok(t) => t,
        Err(e) => {
            return Err(e);
        },
    };
    if text::str_eq(provider_kind.as_str(), "manual") || text::str_eq(
        identity_strength.as_str(),
        "manual",
    ) {
        return Err(refuse("manual media segment candidates are not supported"));
    }
    let confidence: i64 = match input.confidence.as_finite() {
        Some(n) => clamp_unit(n),
        None => {
            return Err(refuse("confidence must be finite"));
        },
    };
    let id = deterministic_candidate_id(
        media_file_id.as_str(),
        item.item_type.as_str(),
        item.item_id.as_str(),
        segment_type.as_str(),
        &input.start,
        &input.end,
        provider_kind.as_str(),
        provider_id.as_str(),
        input.source_payload.as_ref(),
    );
    Ok(
        CandidateRow {
            id,
            media_file_id,
            item_type: item.item_type,
            item_id: item.item_id,
            segment_type,
            start: input.start,
            end: input.end,
            provider_kind,
            provider_id,
            provider_version,
            confidence,
            identity_strength,
            source_payload: input.source_payload,
        },
    )
}

/// How sure a provider must be of a candidate, in millionths.
pub open spec fn confidence_floor(provider_kind: Seq<char>) -> int {
    if provider_kind == "chapter"@ {
        700_000
    } else if provider_kind == "theintrodb"@ || provider_kind == "aniskip"@ || provider_kind
        == "anime_skip"@ {
        750_000
    } else {
        800_000
    }
}

/// How sure a provider must be of a candidate, in millionths.
pub fn minimum_confidence(provider_kind: &str) -> (r: i64)
    ensures
        r == confidence_floor(provider_kind@),
{
    if text::str_eq(provider_kind, "chapter") {
        700_000
    } else if text::str_eq(provider_kind, "theintrodb") || text::str_eq(provider_kind, "aniskip")
        || text::str_eq(provider_kind, "anime_skip") {
        750_000
    } else {
        800_000
    }
}

/// Whether a candidate's identity is strong enough to be activated.
pub open spec fn strong_identity(identity: Seq<char>) -> bool {
    identity == "file_fingerprint"@ || identity == "external_id_exact"@ || identity
        == "external_id_episode"@
}

/// Whether a candidate's identity is strong enough to be activated.
pub fn identity_can_auto_activate(identity_strength: &str) -> (r: bool)
    ensures
        r == strong_identity(identity_strength@),
{
    text::str_eq(identity_strength, "file_fingerprint") || text::str_eq(
        identity_strength,
        "external_id_exact",
    ) || text::str_eq(identity_strength, "external_id_episode")
}

/// How long a segment of a type lasts at least, in microseconds.
pub open spec fn shortest_segment(segment_type: Seq<char>) -> int {
    if segment_type == "intro"@ {
        20_000_000
    } else if segment_type == "recap"@ || segment_type == "preview"@ {
        10_000_000
    } else if segment_type == "credits"@ || segment_type == "outro"@ {
        15_000_000
    } else {
        1_000_000
    }
}

/// How long a segment of a type lasts at least, in microseconds.
pub fn minimum_segment_duration(segment_type: &str) -> (r: i64)
    ensures
        r == shortest_segment(segment_type@),
{
    if text::str_eq(segment_type, "intro") {
        20_000_000
    } else if text::str_eq(segment_type, "recap") || text::str_eq(segment_type, "preview") {
        10_000_000
    } else if text::str_eq(segment_type, "credits") || text::str_eq(segment_type, "outro") {
        15_000_000
    } else {
        1_000_000
    }
}

/// A switch of a candidate's payload; off where there is none.
pub open spec fn payload_switch(payload: Option<Json>, key: Seq<char>) -> bool {
    match json::json_get_opt(payload, key) {
        Some(v) => json::json_bool(v) == Some(true),
        None => false,
    }
}

/// A switch of a candidate's payload; off where there is none.
pub fn candidate_payload_bool(candidate: &CandidateRow, key: &str) -> (r: bool)
    ensures
        r == payload_switch(payload_json(candidate.source_payload), key@),
{
    match &candidate.source_payload {
        Some(p) => match p.get(key) {
            Some(v) => match v.as_bool() {
                Some(b) => b,
                None => false,
            },
            None => false,
        },
        None => false,
    }
}

/// Whether an early segment starts too late in a file of the given length.
pub open spec fn starts_too_late(start: int, duration: int) -> bool {
    start * json::MICROS > duration * consts::EARLY_WINDOW_FRACTION || start
        > consts::EARLY_WINDOW_MAX_MICROS
}

/// Whether a late segment starts too early in a file of the given length.
pub open spec fn starts_too_early(start: int, duration: int) -> bool {
    start * json::MICROS < duration * consts::LATE_WINDOW_FRACTION
}

/// Why a candidate does not become active: the first that holds.
pub open spec fn rejection(c: CandidateRow, duration: Option<i64>) -> Option<Seq<char>> {
    let start = quantity::finite(c.start);
    let end = quantity::finite(c.end);
    if !normalize::is_segment_type(c.segment_type@) {
        Some("unsupported_segment_type"@)
    } else if start is None || end is None || start->0 < 0 || end->0 <= start->0 {
        Some("invalid_time_range"@)
    } else if duration is Some && end->0 > duration->0 + consts::DURATION_TOLERANCE_MICROS {
        Some("outside_media_duration"@)
    } else if duration is Some && normalize::early_segment(c.segment_type@) && starts_too_late(
        start->0 as int,
        duration->0 as int,
    ) {
        Some("outside_early_window"@)
    } else if duration is Some && normalize::late_segment(c.segment_type@) && starts_too_early(
        start->0 as int,
        duration->0 as int,
    ) && !payload_switch(payload_json(c.source_payload), "non_final"@) {
        Some("outside_late_window"@)
    } else if end->0 - start->0 < shortest_segment(c.segment_type@) {
        Some("segment_too_short"@)
    } else if !strong_identity(c.identity_strength@) {
        Some("weak_identity_for_auto_activation"@)
    } else if c.confidence < confidence_floor(c.provider_kind@) {
        Some("confidence_below_threshold"@)
    } else {
        None
    }
}

/// The verdict that a candidate is rejected, with the reason.
pub fn rejected(reason: &str) -> (r: CandidateValidation)
    ensures
        r.state@ == "rejected"@,
        opt_text(r.reason) == Some(reason@),
        !r.auto_activate,
{
    CandidateValidation { state: "rejected", reason: Some(reason.to_owned()), auto_activate: false }
}

/// Validates a candidate against the length of its file, where that is known.
pub fn validate_candidate(candidate: &CandidateRow, duration: Option<i64>) -> (r:
    CandidateValidation)
    ensures
        opt_text(r.reason) == rejection(*candidate, duration),
        r.auto_activate == (rejection(*candidate, duration) is None),
        r.state@ == if rejection(*candidate, duration) is None {
            "accepted"@
        } else {
            "rejected"@
        },
{
    let segment_type = candidate.segment_type.as_str();
    if !normalize::allowed_segment_type(segment_type) {
        return rejected("unsupported_segment_type");
    }
    let (start, end): (i64, i64) = match (
        candidate.start.as_finite(),
        candidate.end.as_finite(),
    ) {
        (Some(s), Some(e)) => (s, e),
        _ => {
            return rejected("invalid_time_range");
        },
    };
    if start < 0 || end <= start {
        return rejected("invalid_time_range");
    }
    if let Some(length) = duration {
        if end as i128 > length as i128 + consts::DURATION_TOLERANCE_MICROS as i128 {
            return rejected("outside_media_duration");
        }
        if normalize::is_early_segment(segment_type) {
            if start as i128 * 1_000_000i128 > length as i128 * 350_000i128 || start
                > consts::EARLY_WINDOW_MAX_MICROS {
                return rejected("outside_early_window");
            }
        }
        if normalize::is_late_segment(segment_type) && (start as i128 * 1_000_000i128) < length
            as i128 * 500_000i128 && !candidate_payload_bool(candidate, "non_final") {
            return rejected("outside_late_window");
        }
    }
    if (end - start) < minimum_segment_duration(segment_type) {
        return rejected("segment_too_short");
    }
    if !identity_can_auto_activate(candidate.identity_strength.as_str()) {
        return rejected("weak_identity_for_auto_activation");
    }
    if candidate.confidence < minimum_confidence(candidate.provider_kind.as_str()) {
        return rejected("confidence_below_threshold");
    }
    CandidateValidation { state: "accepted", reason: None, auto_activate: true }
}

/// How much a provider's word counts.
pub open spec fn provider_weight(kind: Seq<char>) -> int {
    if kind == "imported"@ {
        9_000
    } else if kind == "chapter"@ {
        7_000
    } else if kind == "theintrodb"@ || kind == "aniskip"@ || kind == "anime_skip"@ {
        6_500
    } else if kind == "local_audio_recurring"@ || kind == "local_visual_recurring"@ {
        6_000
    } else if kind == "extension"@ {
        5_000
    } else {
        0
    }
}

/// How much a provider's word counts.
pub fn provider_priority(kind: &str) -> (r: i64)
    ensures
        r == provider_weight(kind@),
{
    if text::str_eq(kind, "imported") {
        9_000
    } else if text::str_eq(kind, "chapter") {
        7_000
    } else if text::str_eq(kind, "theintrodb") || text::str_eq(kind, "aniskip") || text::str_eq(
        kind,
        "anime_skip",
    ) {
        6_500
    } else if text::str_eq(kind, "local_audio_recurring") || text::str_eq(
        kind,
        "local_visual_recurring",
    ) {
        6_000
    } else if text::str_eq(kind, "extension") {
        5_000
    } else {
        0
    }
}

/// How much the strength of an identity counts.
pub open spec fn identity_weight(identity: Seq<char>) -> int {
    if identity == "file_fingerprint"@ {
        200
    } else if identity == "external_id_exact"@ {
        150
    } else if identity == "external_id_episode"@ {
        140
    } else if identity == "metadata_fuzzy"@ {
        -1_000
    } else {
        -2_000
    }
}

/// How much the strength of an identity counts.
pub fn identity_priority(identity: &str) -> (r: i64)
    ensures
        r == identity_weight(identity@),
{
    if text::str_eq(identity, "file_fingerprint") {
        200
    } else if text::str_eq(identity, "external_id_exact") {
        150
    } else if text::str_eq(identity, "external_id_episode") {
        140
    } else if text::str_eq(identity, "metadata_fuzzy") {
        -1_000
    } else {
        -2_000
    }
}

/// The score of a candidate, in millionths.
pub open spec fn rank_score(c: CandidateRow) -> int {
    (provider_weight(c.provider_kind@) + identity_weight(c.identity_strength@)) * json::MICROS
        + c.confidence
}

/// The score of a candidate, in millionths.
pub fn candidate_rank_score(c: &CandidateRow) -> (r: i128)
    ensures
        r == rank_score(*c),
{
    let weight: i64 = provider_priority(c.provider_kind.as_str()) + identity_priority(
        c.identity_strength.as_str(),
    );
    weight as i128 * 1_000_000i128 + c.confidence as i128
}

/// Whether the times of a candidate are finite.
pub open spec fn timed(c: CandidateRow) -> bool {
    c.start is Micros && c.end is Micros
}

pub open spec fn start_of(c: CandidateRow) -> int {
    quantity::finite(c.start)->0 as int
}

pub open spec fn end_of(c: CandidateRow) -> int {
    quantity::finite(c.end)->0 as int
}

/// Whether `a` ranks above `b`: by the higher score, then by the higher
/// confidence, then by the earlier start.
pub open spec fn outranks(a: CandidateRow, b: CandidateRow) -> bool {
    if rank_score(a) != rank_score(b) {
        rank_score(a) > rank_score(b)
    } else if a.confidence != b.confidence {
        a.confidence > b.confidence
    } else {
        start_of(a) < start_of(b)
    }
}

/// Whether `a` starts before `b`, or ends before it where both start together.
pub open spec fn earlier(a: CandidateRow, b: CandidateRow) -> bool {
    if start_of(a) != start_of(b) {
        start_of(a) < start_of(b)
    } else {
        end_of(a) < end_of(b)
    }
}

fn micros_of(q: &Quantity) -> (r: i64)
    requires
        q is Micros,
    ensures
        r == quantity::finite(*q)->0,
{
    match q {
        Quantity::Micros(n) => *n,
        _ => 0,
    }
}

/// Whether `a` ranks above `b`.
pub fn candidate_outranks(a: &CandidateRow, b: &CandidateRow) -> (r: bool)
    requires
        timed(*a),
        timed(*b),
    ensures
        r == outranks(*a, *b),
{
    let x: i128 = candidate_rank_score(a);
    let y: i128 = candidate_rank_score(b);
    if x != y {
        x > y
    } else if a.confidence != b.confidence {
        a.confidence > b.confidence
    } else {
        micros_of(&a.start) < micros_of(&b.start)
    }
}

fn candidate_is_earlier(a: &CandidateRow, b: &CandidateRow) -> (r: bool)
    requires
        timed(*a),
        timed(*b),
    ensures
        r == earlier(*a, *b),
{
    let x: i64 = micros_of(&a.start);
    let y: i64 = micros_of(&b.start);
    if x != y {
        x < y
    } else {
        micros_of(&a.end) < micros_of(&b.end)
    }
}

pub open spec fn all_timed(s: Seq<CandidateRow>) -> bool {
    forall|i: int| 0 <= i < s.len() ==> timed(#[trigger] s[i])
}

/// The candidates, the highest ranking first.
pub open spec fn ranking(s: Seq<CandidateRow>) -> Seq<CandidateRow> {
    order::arranged(s, |a: CandidateRow, b: CandidateRow| outranks(a, b))
}

/// The candidates in the order of their times.
pub open spec fn timeline(s: Seq<CandidateRow>) -> Seq<CandidateRow> {
    order::arranged(s, |a: CandidateRow, b: CandidateRow| earlier(a, b))
}

/// Puts the candidates in the order of their rank, the highest first.
pub fn rank_candidates(candidates: Vec<CandidateRow>) -> (r: Vec<CandidateRow>)
    requires
        all_timed(candidates@),
    ensures
        r@ == ranking(candidates@),
        all_timed(r@),
{
    let ghost all = candidates@;
    let ghost before = |a: CandidateRow, b: CandidateRow| outranks(a, b);
    let mut rest = candidates;
    let mut out: Vec<CandidateRow> = Vec::new();
    let ghost mut k: int = 0;
    proof {
        assert(all.skip(0) =~= all);
        assert(all.take(0) =~= Seq::empty());
    }
    while rest.len() > 0
        invariant
            0 <= k <= all.len(),
            before == (|a: CandidateRow, b: CandidateRow| outranks(a, b)),
            all_timed(all),
            all_timed(out@),
            rest@ == all.skip(k),
            out@ == order::arranged(all.take(k), before),
        decreases rest@.len(),
    {
        let c = rest.remove(0);
        proof {
            assert(c == all[k]);
            assert(all.take(k + 1).drop_last() =~= all.take(k));
            assert(rest@ =~= all.skip(k + 1));
        }
        let mut p: usize = 0;
        while p < out.len() && !candidate_outranks(&c, &out[p])
            invariant
                p <= out@.len(),
                timed(c),
                all_timed(out@),
                forall|i: int| 0 <= i < p ==> !outranks(c, #[trigger] out@[i]),
            decreases out@.len() - p,
        {
            p += 1;
        }
        proof {
            order::lemma_place_at(out@, c, before, p as int);
        }
        let ghost kept = out@;
        out.insert(p, c);
        proof {
            k = k + 1;
            assert forall|i: int| 0 <= i < out@.len() implies timed(#[trigger] out@[i]) by {
                if i < p {
                    assert(out@[i] == kept[i]);
                } else if i > p {
                    assert(out@[i] == kept[i - 1]);
                }
            }
        }
    }
    proof {
        assert(k == all.len());
        assert(all.take(k) =~= all);
    }
    out
}

/// Puts the candidates in the order of their times.
fn order_candidates(candidates: Vec<CandidateRow>) -> (r: Vec<CandidateRow>)
    requires
        all_timed(candidates@),
    ensures
        r@ == timeline(candidates@),
        all_timed(r@),
{
    let ghost all = candidates@;
    let ghost before = |a: CandidateRow, b: CandidateRow| earlier(a, b);
    let mut rest = candidates;
    let mut out: Vec<CandidateRow> = Vec::new();
    let ghost mut k: int = 0;
    proof {
        assert(all.skip(0) =~= all);
        assert(all.take(0) =~= Seq::empty());
    }
    while rest.len() > 0
        invariant
            0 <= k <= all.len(),
            before == (|a: CandidateRow, b: CandidateRow| earlier(a, b)),
            all_timed(all),
            all_timed(out@),
            rest@ == all.skip(k),
            out@ == order::arranged(all.take(k), before),
        decreases rest@.len(),
    {
        let c = rest.remove(0);
        proof {
            assert(c == all[k]);
            assert(all.take(k + 1).drop_last() =~= all.take(k));
            assert(rest@ =~= all.skip(k + 1));
        }
        let mut p: usize = 0;
        while p < out.len() && !candidate_is_earlier(&c, &out[p])
            invariant
                p <= out@.len(),
                timed(c),
                all_timed(out@),
                forall|i: int| 0 <= i < p ==> !earlier(c, #[trigger] out@[i]),
            decreases out@.len() - p,
        {
            p += 1;
        }
        proof {
            order::lemma_place_at(out@, c, before, p as int);
        }
        let ghost kept = out@;
        out.insert(p, c);
        proof {
            k = k + 1;
            assert forall|i: int| 0 <= i < out@.len() implies timed(#[trigger] out@[i]) by {
                if i < p {
                    assert(out@[i] == kept[i]);
                } else if i > p {
                    assert(out@[i] == kept[i - 1]);
                }
            }
        }
    }
    proof {
        assert(k == all.len());
        assert(all.take(k) =~= all);
    }
    out
}

/// Whether a candidate and a window share time.
pub open spec fn enters(c: CandidateRow, w: ActiveWindow) -> bool {
    quantity::overlap(start_of(c), end_of(c), w.start_micros as int, w.end_micros as int)
}

/// Whether two candidates share time.
pub open spec fn collide(a: CandidateRow, b: CandidateRow) -> bool {
    quantity::overlap(start_of(a), end_of(a), start_of(b), end_of(b))
}

/// Whether a candidate shares time with a locked window or a chosen candidate.
pub open spec fn blocked(
    c: CandidateRow,
    chosen: Seq<CandidateRow>,
    locked: Seq<ActiveWindow>,
) -> bool {
    ||| exists|i: int| 0 <= i < locked.len() && enters(c, #[trigger] locked[i])
    ||| exists|i: int| 0 <= i < chosen.len() && collide(c, #[trigger] chosen[i])
}

/// The candidates that are chosen, in turn: each that shares no time with a
/// locked window or with one chosen before it.
pub open spec fn chosen(s: Seq<CandidateRow>, locked: Seq<ActiveWindow>) -> Seq<CandidateRow>
    decreases s.len(),
{
    if s.len() == 0 {
        Seq::empty()
    } else {
        let before = chosen(s.drop_last(), locked);
        if blocked(s.last(), before, locked) {
            before
        } else {
            before.push(s.last())
        }
    }
}

/// Chooses candidates in turn so that none shares time with another or with a
/// locked window, and puts the chosen in the order of their times.
pub fn select_non_overlapping_candidates(
    candidates: Vec<CandidateRow>,
    locked_windows: &Vec<ActiveWindow>,
) -> (r: Vec<CandidateRow>)
    requires
        all_timed(candidates@),
    ensures
        r@ == timeline(chosen(candidates@, locked_windows@)),
        all_timed(r@),
{
    let ghost all = candidates@;
    let locked = locked_windows;
    let mut rest = candidates;
    let mut selected: Vec<CandidateRow> = Vec::new();
    let ghost mut k: int = 0;
    proof {
        assert(all.skip(0) =~= all);
        assert(all.take(0) =~= Seq::empty());
    }
    while rest.len() > 0
        invariant
            0 <= k <= all.len(),
            all_timed(all),
            all_timed(selected@),
            locked@ == locked_windows@,
            rest@ == all.skip(k),
            selected@ == chosen(all.take(k), locked@),
        decreases rest@.len(),
    {
        let c = rest.remove(0);
        proof {
            assert(c == all[k]);
            assert(all.take(k + 1).drop_last() =~= all.take(k));
            assert(rest@ =~= all.skip(k + 1));
        }
        let start: i64 = micros_of(&c.start);
        let end: i64 = micros_of(&c.end);
        let mut free = true;
        let mut i: usize = 0;
        while i < locked.len()
            invariant
                i <= locked@.len(),
                timed(c),
                start == start_of(c),
                end == end_of(c),
                free == !(exists|j: int| 0 <= j < i && enters(c, #[trigger] locked@[j])),
            decreases locked@.len() - i,
        {
            if quantity::ranges_overlap(
                start,
                end,
                locked[i].start_micros,
                locked[i].end_micros,
            ) {
                assert(enters(c, locked@[i as int]));
                free = false;
            }
            i += 1;
        }
        let ghost free_of_locked = free;
        let mut j: usize = 0;
        while j < selected.len()
            invariant
                j <= selected@.len(),
                timed(c),
                all_timed(selected@),
                start == start_of(c),
                end == end_of(c),
                free == (free_of_locked && !(exists|m: int|
                    0 <= m < j && collide(c, #[trigger] selected@[m]))),
            decreases selected@.len() - j,
        {
            assert(timed(selected@[j as int]));
            if quantity::ranges_overlap(
                start,
                end,
                micros_of(&selected[j].start),
                micros_of(&selected[j].end),
            ) {
                assert(collide(c, selected@[j as int]));
                free = false;
            }
            j += 1;
        }
        proof {
            assert(free == !blocked(c, selected@, locked@));
        }
        if free {
            selected.push(c);
        }
        proof {
            k = k + 1;
        }
    }
    proof {
        assert(all.take(k) =~= all);
    }
    order_candidates(selected)
}

/// Which of a file's accepted candidates of one type become active: the
/// highest ranking, as long as none shares time with another or with a locked
/// window.
pub fn select_active_candidates(
    candidates: Vec<CandidateRow>,
    locked_windows: &Vec<ActiveWindow>,
) -> (r: Vec<CandidateRow>)
    requires
        all_timed(candidates@),
    ensures
        r@ == timeline(chosen(ranking(candidates@), locked_windows@)),
        all_timed(r@),
{
    let ranked = rank_candidates(candidates);
    select_non_overlapping_candidates(ranked, locked_windows)
}

/// Whether a candidate ends after it starts.
pub open spec fn lasts(c: CandidateRow) -> bool {
    start_of(c) < end_of(c)
}

pub open spec fn all_last(s: Seq<CandidateRow>) -> bool {
    forall|i: int| 0 <= i < s.len() ==> lasts(#[trigger] s[i])
}

/// Whether no two of the candidates share time.
pub open spec fn disjoint(s: Seq<CandidateRow>) -> bool {
    forall|i: int, j: int|
        0 <= i < j < s.len() ==> !collide(#[trigger] s[i], #[trigger] s[j])
}

/// Whether no candidate shares time with a window.
pub open spec fn clear_of(s: Seq<CandidateRow>, locked: Seq<ActiveWindow>) -> bool {
    forall|i: int, j: int|
        0 <= i < s.len() && 0 <= j < locked.len() ==> !enters(
            #[trigger] s[i],
            #[trigger] locked[j],
        )
}

/// No two chosen candidates share time, and none shares time with a locked
/// window.
pub proof fn chosen_share_no_time(s: Seq<CandidateRow>, locked: Seq<ActiveWindow>)
    ensures
        disjoint(chosen(s, locked)),
        clear_of(chosen(s, locked), locked),
    decreases s.len(),
{
    if s.len() > 0 {
        chosen_share_no_time(s.drop_last(), locked);
        let before = chosen(s.drop_last(), locked);
        let c = s.last();
        if !blocked(c, before, locked) {
            let r = before.push(c);
            assert forall|i: int, j: int| 0 <= i < j < r.len() implies !collide(
                #[trigger] r[i],
                #[trigger] r[j],
            ) by {
                if j == before.len() {
                    assert(!collide(c, before[i]));
                } else {
                    assert(r[i] == before[i] && r[j] == before[j]);
                }
            }
            assert forall|i: int, j: int|
                0 <= i < r.len() && 0 <= j < locked.len() implies !enters(
                #[trigger] r[i],
                #[trigger] locked[j],
            ) by {
                if i < before.len() {
                    assert(r[i] == before[i]);
                }
            }
        }
    }
}

proof fn lemma_chosen_grows(s: Seq<CandidateRow>, locked: Seq<ActiveWindow>, n: int)
    requires
        0 <= n <= s.len(),
    ensures
        chosen(s.take(n), locked).len() <= chosen(s, locked).len(),
        chosen(s, locked).take(chosen(s.take(n), locked).len() as int) == chosen(
            s.take(n),
            locked,
        ),
    decreases s.len() - n,
{
    if n == s.len() {
        assert(s.take(n) =~= s);
        assert(chosen(s, locked).take(chosen(s, locked).len() as int) =~= chosen(s, locked));
    } else {
        lemma_chosen_grows(s, locked, n + 1);
        assert(s.take(n + 1).drop_last() =~= s.take(n));
        let a = chosen(s.take(n), locked);
        let b = chosen(s.take(n + 1), locked);
        let c = chosen(s, locked);
        assert(b.take(a.len() as int) =~= a);
        assert(c.take(a.len() as int) =~= c.take(b.len() as int).take(a.len() as int));
    }
}

/// A candidate that is passed over shares time with a locked window or with a
/// chosen candidate that had its turn before it.
pub proof fn passed_over_candidates_are_blocked(
    s: Seq<CandidateRow>,
    locked: Seq<ActiveWindow>,
    k: int,
)
    requires
        0 <= k < s.len(),
    ensures
        chosen(s, locked).contains(s[k]) || blocked(s[k], chosen(s.take(k), locked), locked),
        forall|c: CandidateRow|
            chosen(s.take(k), locked).contains(c) ==> #[trigger] chosen(s, locked).contains(c),
{
    lemma_chosen_grows(s, locked, k);
    lemma_chosen_grows(s, locked, k + 1);
    let a = chosen(s.take(k), locked);
    let b = chosen(s.take(k + 1), locked);
    let c = chosen(s, locked);
    assert(s.take(k + 1).drop_last() =~= s.take(k));
    assert(s.take(k + 1).last() == s[k]);
    if !blocked(s[k], a, locked) {
        assert(b == a.push(s[k]));
        assert(b[a.len() as int] == s[k]);
        assert(c[a.len() as int] == c.take(b.len() as int)[a.len() as int]);
    }
    assert forall|x: CandidateRow| a.contains(x) implies #[trigger] c.contains(x) by {
        let i = choose|i: int| 0 <= i < a.len() && a[i] == x;
        assert(c[i] == c.take(a.len() as int)[i]);
    }
}

/// The highest ranking candidate becomes active unless it enters a locked
/// window.
pub proof fn highest_ranking_candidate_is_active(
    s: Seq<CandidateRow>,
    locked: Seq<ActiveWindow>,
)
    requires
        s.len() > 0,
        forall|j: int|
            0 <= j < locked.len() ==> !enters(ranking(s)[0], #[trigger] locked[j]),
    ensures
        timeline(chosen(ranking(s), locked)).contains(ranking(s)[0]),
{
    let before = |a: CandidateRow, b: CandidateRow| outranks(a, b);
    let r = ranking(s);
    order::lemma_arranged_permutes(s, before);
    passed_over_candidates_are_blocked(r, locked, 0);
    assert(r.take(0) =~= Seq::empty());
    assert(!blocked(r[0], chosen(r.take(0), locked), locked));
    order::lemma_arranged_contains(
        chosen(r, locked),
        |a: CandidateRow, b: CandidateRow| earlier(a, b),
        r[0],
    );
}

proof fn lemma_orders()
    ensures
        order::ranks(|a: CandidateRow, b: CandidateRow| outranks(a, b)),
        order::ranks(|a: CandidateRow, b: CandidateRow| earlier(a, b)),
{
}

/// Of two candidates that are ranked, none stands behind one that it outranks.
pub proof fn ranking_is_in_order(s: Seq<CandidateRow>)
    ensures
        forall|i: int, j: int|
            0 <= i < j < s.len() ==> !outranks(
                #[trigger] ranking(s)[j],
                #[trigger] ranking(s)[i],
            ),
        ranking(s).to_multiset() == s.to_multiset(),
{
    let before = |a: CandidateRow, b: CandidateRow| outranks(a, b);
    lemma_orders();
    order::lemma_arranged_in_order(s, before);
    order::lemma_arranged_permutes(s, before);
    let r = ranking(s);
    assert forall|i: int, j: int| 0 <= i < j < s.len() implies !outranks(
        #[trigger] r[j],
        #[trigger] r[i],
    ) by {
        assert(!before(r[j], r[i]));
    }
}

/// The active segments of a type follow each other: each ends before the next
/// one starts, and none enters a locked window.
pub proof fn active_segments_follow_each_other(
    s: Seq<CandidateRow>,
    locked: Seq<ActiveWindow>,
)
    requires
        all_last(s),
    ensures
        ({
            let r = timeline(chosen(ranking(s), locked));
            &&& forall|i: int, j: int|
                0 <= i < j < r.len() ==> end_of(#[trigger] r[i]) <= start_of(#[trigger] r[j])
            &&& clear_of(r, locked)
            &&& forall|i: int| 0 <= i < r.len() ==> s.contains(#[trigger] r[i])
        }),
{
    let before = |a: CandidateRow, b: CandidateRow| earlier(a, b);
    let above = |a: CandidateRow, b: CandidateRow| outranks(a, b);
    let c = chosen(ranking(s), locked);
    let r = timeline(c);
    lemma_orders();
    chosen_share_no_time(ranking(s), locked);
    order::lemma_arranged_in_order(c, before);
    order::lemma_arranged_permutes(c, before);
    assert forall|x: CandidateRow| #[trigger] c.contains(x) implies s.contains(x) && lasts(x) by {
        lemma_chosen_from(ranking(s), locked, x);
        order::lemma_arranged_contains(s, above, x);
        let i = choose|i: int| 0 <= i < s.len() && s[i] == x;
        assert(lasts(s[i]));
    }
    assert forall|i: int| 0 <= i < r.len() implies c.contains(#[trigger] r[i]) by {
        order::lemma_arranged_contains(c, before, r[i]);
        assert(r.contains(r[i]));
    }
    assert(c.no_duplicates()) by {
        assert forall|i: int, j: int| 0 <= i < c.len() && 0 <= j < c.len() && i != j implies c[i]
            != c[j] by {
            assert(c.contains(c[i]));
            assert(lasts(c[i]));
            if i < j {
                assert(!collide(c[i], c[j]));
            } else {
                assert(!collide(c[j], c[i]));
            }
        }
    }
    c.lemma_multiset_has_no_duplicates();
    r.lemma_multiset_has_no_duplicates_conv();
    assert forall|i: int, j: int| 0 <= i < j < r.len() implies end_of(#[trigger] r[i]) <= start_of(
        #[trigger] r[j],
    ) by {
        assert(!before(r[j], r[i]));
        assert(c.contains(r[i]) && c.contains(r[j]));
        let p = choose|p: int| 0 <= p < c.len() && c[p] == r[i];
        let q = choose|q: int| 0 <= q < c.len() && c[q] == r[j];
        assert(lasts(r[i]) && lasts(r[j]));
        assert(r[i] != r[j]);
        assert(p != q);
        if p < q {
            assert(!collide(c[p], c[q]));
        } else {
            assert(!collide(c[q], c[p]));
        }
    }
    assert forall|i: int, j: int| 0 <= i < r.len() && 0 <= j < locked.len() implies !enters(
        #[trigger] r[i],
        #[trigger] locked[j],
    ) by {
        assert(c.contains(r[i]));
        let p = choose|p: int| 0 <= p < c.len() && c[p] == r[i];
        assert(!enters(c[p], locked[j]));
    }
}

proof fn lemma_chosen_from(s: Seq<CandidateRow>, locked: Seq<ActiveWindow>, x: CandidateRow)
    requires
        chosen(s, locked).contains(x),
    ensures
        s.contains(x),
    decreases s.len(),
{
    if s.len() > 0 {
        let before = chosen(s.drop_last(), locked);
        let r = chosen(s, locked);
        let i = choose|i: int| 0 <= i < r.len() && r[i] == x;
        if i < before.len() {
            assert(before.contains(x));
            lemma_chosen_from(s.drop_last(), locked, x);
            let j = choose|j: int| 0 <= j < s.drop_last().len() && s.drop_last()[j] == x;
            assert(s[j] == x);
        } else {
            assert(s[s.len() - 1] == x);
        }
    }
}

/// A candidate is activated just where it is accepted, and a candidate that is
/// accepted is finite, lies within its file and lasts.
pub proof fn accepted_candidates_are_sound(c: CandidateRow, duration: Option<i64>)
    requires
        rejection(c, duration) is None,
    ensures
        timed(c),
        lasts(c),
        0 <= start_of(c),
        end_of(c) - start_of(c) >= shortest_segment(c.segment_type@),
        duration is Some ==> end_of(c) <= duration->0 + consts::DURATION_TOLERANCE_MICROS,
        normalize::is_segment_type(c.segment_type@),
        strong_identity(c.identity_strength@),
        c.confidence >= confidence_floor(c.provider_kind@),
{
}

/// Manual candidates are always refused.
pub proof fn manual_candidates_are_refused(
    input: SegmentCandidateInput,
    file_exists: bool,
    resolved: ResolvedItem,
)
    requires
        text::snake_seq(input.provider_kind@) == "manual"@ || text::snake_seq(
            input.identity_strength@,
        ) == "manual"@,
    ensures
        candidate_refusal(input, file_exists, resolved) is Some,
{
}

/// How many characters of a label are shown.
pub const SOURCE_LABEL_MAX_CHARS: usize = 80;

/// The label of a provider kind.
pub open spec fn provider_label(kind: Seq<char>) -> Seq<char> {
    if kind == "chapter"@ {
        "Embedded chapters"@
    } else if kind == "theintrodb"@ {
        "TheIntroDB"@
    } else if kind == "aniskip"@ {
        "AniSkip"@
    } else if kind == "anime_skip"@ {
        "Anime Skip"@
    } else if kind == "local_audio_recurring"@ {
        "Local audio detector"@
    } else if kind == "local_visual_recurring"@ {
        "Local visual detector"@
    } else if kind == "manual"@ {
        "Manual"@
    } else if kind == "imported"@ {
        "Imported"@
    } else if kind == "extension"@ {
        "Extension"@
    } else {
        text::replace_seq(kind, '_', ' ')
    }
}

/// The label in a payload, where it has one with text.
pub open spec fn payload_label(payload: Option<Json>) -> Option<Seq<char>> {
    match payload {
        Some(p) => match json::json_get_either(p, "label"@, "title"@) {
            Some(v) => match json::json_text(v) {
                Some(t) => if text::trim_seq(t).len() == 0 {
                    None
                } else {
                    Some(text::trim_seq(t))
                },
                None => None,
            },
            None => None,
        },
        None => None,
    }
}

/// The label that players show for a candidate's segment.
pub open spec fn source_label(payload: Option<Json>, kind: Seq<char>) -> Seq<char> {
    match payload_label(payload) {
        Some(t) => text::first_chars(t, SOURCE_LABEL_MAX_CHARS as int),
        None => provider_label(kind),
    }
}

fn provider_label_text(kind: &str) -> (r: String)
    ensures
        r@ == provider_label(kind@),
{
    if text::str_eq(kind, "chapter") {
        "Embedded chapters".to_owned()
    } else if text::str_eq(kind, "theintrodb") {
        "TheIntroDB".to_owned()
    } else if text::str_eq(kind, "aniskip") {
        "AniSkip".to_owned()
    } else if text::str_eq(kind, "anime_skip") {
        "Anime Skip".to_owned()
    } else if text::str_eq(kind, "local_audio_recurring") {
        "Local audio detector".to_owned()
    } else if text::str_eq(kind, "local_visual_recurring") {
        "Local visual detector".to_owned()
    } else if text::str_eq(kind, "manual") {
        "Manual".to_owned()
    } else if text::str_eq(kind, "imported") {
        "Imported".to_owned()
    } else if text::str_eq(kind, "extension") {
        "Extension".to_owned()
    } else {
        text::replace_char(kind, '_', ' ')
    }
}

/// The label that players show for a candidate's segment.
pub fn source_label_for_candidate(candidate: &CandidateRow) -> (r: String)
    ensures
        r@ == source_label(payload_json(candidate.source_payload), candidate.provider_kind@),
{
    if let Some(p) = &candidate.source_payload {
        if let Some(v) = p.get_either("label", "title") {
            if let Some(t) = v.as_text() {
                let label = text::trim(t.as_str());
                if !label.as_str().is_empty() {
                    return text::take_chars(label.as_str(), SOURCE_LABEL_MAX_CHARS);
                }
            }
        }
    }
    provider_label_text(candidate.provider_kind.as_str())
}

/// What an active segment keeps of its candidate.
pub open spec fn segment_metadata(c: CandidateRow) -> Json {
    Json::Object(
        seq![
            ("identity_strength"@, Json::Text(c.identity_strength@)),
            ("provider_id"@, Json::Text(c.provider_id@)),
            ("provider_kind"@, Json::Text(c.provider_kind@)),
            (
                "provider_version"@,
                match c.provider_version {
                    Some(v) => Json::Text(v@),
                    None => Json::Null,
                },
            ),
            (
                "source_payload"@,
                match c.source_payload {
                    Some(v) => v@,
                    None => Json::Null,
                },
            ),
        ],
    )
}

/// What an active segment keeps of its candidate.
pub fn active_segment_metadata(candidate: &CandidateRow) -> (v: JsonValue)
    ensures
        v@ == segment_metadata(*candidate),
{
    let version = match &candidate.provider_version {
        Some(t) => JsonValue::Text(t.clone()),
        None => JsonValue::Null,
    };
    let payload = match &candidate.source_payload {
        Some(p) => p.dup(),
        None => JsonValue::Null,
    };
    let mut o: Vec<(String, JsonValue)> = Vec::new();
    o.push(
        ("identity_strength".to_owned(), JsonValue::Text(candidate.identity_strength.clone())),
    );
    o.push(("provider_id".to_owned(), JsonValue::Text(candidate.provider_id.clone())));
    o.push(("provider_kind".to_owned(), JsonValue::Text(candidate.provider_kind.clone())));
    o.push(("provider_version".to_owned(), version));
    o.push(("source_payload".to_owned(), payload));
    proof {
        json::lemma_view_object(o);
        assert(json::members_of(o@) =~= segment_metadata(*candidate)->Object_0);
    }
    JsonValue::Object(o)
}

/// Why a segment is switched off: the reason that was given, or that a user
/// wanted it.
pub open spec fn off_reason(reason: Option<Seq<char>>) -> Seq<char> {
    match reason {
        Some(r) => if text::trim_seq(r).len() == 0 {
            "disabled_by_user"@
        } else {
            text::trim_seq(r)
        },
        None => "disabled_by_user"@,
    }
}

/// What a segment that is switched off keeps.
pub open spec fn off_metadata(reason: Option<Seq<char>>, previous: Json) -> Json {
    Json::Object(
        seq![
            ("disabled_reason"@, Json::Text(off_reason(reason))),
            ("previous_metadata"@, previous),
        ],
    )
}

/// A segment that is switched off.
#[derive(Debug)]
pub struct DisabledSegment {
    /// The status of the segment.
    pub status: &'static str,
    pub metadata: JsonValue,
    /// The state of the candidate that it came from, and why.
    pub candidate_state: &'static str,
    pub candidate_reason: String,
}

/// An active segment as it is after it was switched off. Its candidate is
/// rejected for the same reason, so that it does not come back.
pub fn disable_active_segment(reason: Option<&str>, previous_metadata: &Option<JsonValue>) -> (r:
    DisabledSegment)
    ensures
        r.status@ == "disabled"@,
        r.candidate_state@ == "rejected"@,
        r.candidate_reason@ == off_reason(
            match reason {
                Some(t) => Some(t@),
                None => None,
            },
        ),
        r.metadata@ == off_metadata(
            match reason {
                Some(t) => Some(t@),
                None => None,
            },
            json::json_or_null(json::opt_value(*previous_metadata)),
        ),
{
    let given = match reason {
        Some(t) => text::trim(t),
        None => String::new(),
    };
    proof {
        reveal_strlit("");
        if given@.len() == 0 {
            assert(given@ =~= ""@);
        }
    }
    let why: String = if text::str_eq(given.as_str(), "") {
        "disabled_by_user".to_owned()
    } else {
        given
    };
    let mut o: Vec<(String, JsonValue)> = Vec::new();
    o.push(("disabled_reason".to_owned(), JsonValue::Text(why.clone())));
    o.push(("previous_metadata".to_owned(), json::value_or_null(previous_metadata)));
    proof {
        json::lemma_view_object(o);
        assert(json::members_of(o@) =~= seq![
            ("disabled_reason"@, Json::Text(why@)),
            ("previous_metadata"@, json::json_or_null(json::opt_value(*previous_metadata))),
        ]);
    }
    DisabledSegment {
        status: "disabled",
        metadata: JsonValue::Object(o),
        candidate_state: "rejected",
        candidate_reason: why,
    }
}

/// The length of a file, in microseconds: of its fingerprint, else of its
/// probe, else of its item, the first that is positive.
pub open spec fn file_duration(
    fingerprint_seconds: Option<i64>,
    probe_micros: Option<i64>,
    item_seconds: Option<i64>,
) -> Option<i64> {
    if fingerprint_seconds is Some && fingerprint_seconds->0 > 0 {
        Some(json::clamp_i64(fingerprint_seconds->0 * json::MICROS))
    } else if probe_micros is Some && probe_micros->0 > 0 {
        probe_micros
    } else if item_seconds is Some && item_seconds->0 > 0 {
        Some(json::clamp_i64(item_seconds->0 * json::MICROS))
    } else {
        None
    }
}

/// The length of a file, in microseconds.
pub fn media_duration(
    fingerprint_seconds: Option<i64>,
    probe_micros: Option<i64>,
    item_seconds: Option<i64>,
) -> (r: Option<i64>)
    ensures
        r == file_duration(fingerprint_seconds, probe_micros, item_seconds),
{
    if let Some(s) = fingerprint_seconds {
        if s > 0 {
            return Some(json::saturate_i64(s as i128 * 1_000_000i128));
        }
    }
    if let Some(m) = probe_micros {
        if m > 0 {
            return Some(m);
        }
    }
    if let Some(s) = item_seconds {
        if s > 0 {
            return Some(json::saturate_i64(s as i128 * 1_000_000i128));
        }
    }
    None
}

/// A candidate is accepted just where its type is known, it starts at or after
/// zero and ends after it starts, ends no more than five seconds beyond its file,
/// lies in the part of the file where its type belongs, lasts as long as its type
/// must, and comes from a source that is sure enough of a file it surely names.
/// An intro or a recap starts in the first 35 hundredths of the file and its
/// first fifteen minutes; credits and an outro start in the second half, unless
/// the payload says that they are not the final ones.
pub proof fn accepted_candidates_meet_every_rule(c: CandidateRow, duration: Option<i64>)
    ensures
        rejection(c, duration) is None <==> {
            let kind = c.segment_type@;
            let start = c.start->Micros_0;
            let end = c.end->Micros_0;
            let source = c.provider_kind@;
            let not_final = c.source_payload is Some && json::json_get(
                c.source_payload->0@,
                "non_final"@,
            ) == Some(Json::Bool(true));
            &&& kind == "intro"@ || kind == "recap"@ || kind == "preview"@ || kind == "credits"@
                || kind == "outro"@ || kind == "custom"@
            &&& c.start is Micros && c.end is Micros
            &&& 0 <= start < end
            &&& duration is Some ==> end <= duration->0 + 5_000_000
            &&& duration is Some && (kind == "intro"@ || kind == "recap"@) ==> 100 * start <= 35
                * duration->0 && start <= 900_000_000
            &&& duration is Some && (kind == "credits"@ || kind == "outro"@) ==> 2 * start
                >= duration->0 || not_final
            &&& kind == "intro"@ ==> end - start >= 20_000_000
            &&& kind == "recap"@ || kind == "preview"@ ==> end - start >= 10_000_000
            &&& kind == "credits"@ || kind == "outro"@ ==> end - start >= 15_000_000
            &&& kind == "custom"@ ==> end - start >= 1_000_000
            &&& c.identity_strength@ == "file_fingerprint"@ || c.identity_strength@
                == "external_id_exact"@ || c.identity_strength@ == "external_id_episode"@
            &&& source == "chapter"@ ==> c.confidence >= 700_000
            &&& source == "theintrodb"@ || source == "aniskip"@ || source == "anime_skip"@
                ==> c.confidence >= 750_000
            &&& source != "chapter"@ && source != "theintrodb"@ && source != "aniskip"@ && source
                != "anime_skip"@ ==> c.confidence >= 800_000
        },
{
    lemma_kinds_differ();
    lemma_low_sources_differ();
}

proof fn lemma_kinds_differ()
    ensures
        "intro"@ != "recap"@,
        "intro"@ != "preview"@,
        "intro"@ != "credits"@,
        "intro"@ != "outro"@,
        "intro"@ != "custom"@,
        "recap"@ != "preview"@,
        "recap"@ != "credits"@,
        "recap"@ != "outro"@,
        "recap"@ != "custom"@,
        "preview"@ != "credits"@,
        "preview"@ != "outro"@,
        "preview"@ != "custom"@,
        "credits"@ != "outro"@,
        "credits"@ != "custom"@,
        "outro"@ != "custom"@,
{
    reveal_strlit("intro");
    reveal_strlit("recap");
    reveal_strlit("preview");
    reveal_strlit("credits");
    reveal_strlit("outro");
    reveal_strlit("custom");
    assert("intro"@.len() == 5);
    assert("recap"@.len() == 5);
    assert("preview"@.len() == 7);
    assert("credits"@.len() == 7);
    assert("outro"@.len() == 5);
    assert("custom"@.len() == 6);
    assert("intro"@[0] == 'i');
    assert("recap"@[0] == 'r');
    assert("preview"@[0] == 'p');
    assert("credits"@[0] == 'c');
    assert("outro"@[0] == 'o');
}

proof fn lemma_low_sources_differ()
    ensures
        "chapter"@ != "theintrodb"@,
        "chapter"@ != "aniskip"@,
        "chapter"@ != "anime_skip"@,
        "theintrodb"@ != "aniskip"@,
        "theintrodb"@ != "anime_skip"@,
        "aniskip"@ != "anime_skip"@,
{
    reveal_strlit("chapter");
    reveal_strlit("theintrodb");
    reveal_strlit("aniskip");
    reveal_strlit("anime_skip");
    assert("chapter"@.len() == 7);
    assert("theintrodb"@.len() == 10);
    assert("aniskip"@.len() == 7);
    assert("anime_skip"@.len() == 10);
    assert("chapter"@[0] == 'c');
    assert("theintrodb"@[0] == 't');
    assert("aniskip"@[0] == 'a');
    assert("anime_skip"@[0] == 'a');
}

/// Accepted credits and outros lie in the second half of their file: for a file
/// of known length they start at or after its middle, unless their payload says
/// that they are not the final ones.
pub proof fn accepted_credits_start_in_the_second_half(c: CandidateRow, d: i64)
    requires
        rejection(c, Some(d)) is None,
        c.segment_type@ == "credits"@ || c.segment_type@ == "outro"@,
        c.source_payload is Some ==> json::json_get(c.source_payload->0@, "non_final"@) != Some(
            Json::Bool(true),
        ),
    ensures
        c.start is Micros,
        2 * c.start->Micros_0 >= d,
        c.end is Micros,
        c.end->Micros_0 >= c.start->Micros_0 + 15_000_000,
        c.end->Micros_0 <= d + 5_000_000,
{
    accepted_candidates_meet_every_rule(c, Some(d));
}

/// Each reason for which a candidate is rejected tells which rule it broke, and
/// that it broke none of those before.
pub proof fn reasons_tell_the_broken_rule(c: CandidateRow, duration: Option<i64>)
    ensures
        ({
            let kind = c.segment_type@;
            let start = c.start->Micros_0;
            let end = c.end->Micros_0;
            let known = kind == "intro"@ || kind == "recap"@ || kind == "preview"@ || kind
                == "credits"@ || kind == "outro"@ || kind == "custom"@;
            let ranged = c.start is Micros && c.end is Micros && 0 <= start < end;
            let inside = duration is None || end <= duration->0 + 5_000_000;
            let not_final = c.source_payload is Some && json::json_get(
                c.source_payload->0@,
                "non_final"@,
            ) == Some(Json::Bool(true));
            let late_intro = duration is Some && (kind == "intro"@ || kind == "recap"@) && (100
                * start > 35 * duration->0 || start > 900_000_000);
            let early_credits = duration is Some && (kind == "credits"@ || kind == "outro"@) && 2
                * start < duration->0 && !not_final;
            let short = end - start < if kind == "intro"@ {
                20_000_000
            } else if kind == "recap"@ || kind == "preview"@ {
                10_000_000
            } else if kind == "custom"@ {
                1_000_000
            } else {
                15_000_000int
            };
            let sure = c.identity_strength@ == "file_fingerprint"@ || c.identity_strength@
                == "external_id_exact"@ || c.identity_strength@ == "external_id_episode"@;
            let why = rejection(c, duration);
            let placed = known && ranged && inside && !late_intro && !early_credits;
            &&& why == Some("unsupported_segment_type"@) <==> !known
            &&& why == Some("invalid_time_range"@) <==> known && !ranged
            &&& why == Some("outside_media_duration"@) <==> known && ranged && !inside
            &&& why == Some("outside_early_window"@) <==> known && ranged && inside && late_intro
            &&& why == Some("outside_late_window"@) <==> known && ranged && inside
                && early_credits
            &&& why == Some("segment_too_short"@) <==> placed && short
            &&& why == Some("weak_identity_for_auto_activation"@) <==> placed && !short && !sure
            &&& why == Some("confidence_below_threshold"@) ==> placed && !short && sure
                && c.confidence < 800_000
            &&& placed && !short && sure && c.confidence < 700_000 ==> why == Some(
                "confidence_below_threshold"@,
            )
        }),
{
    lemma_kinds_differ();
    lemma_low_sources_differ();
    reveal_strlit("unsupported_segment_type");
    reveal_strlit("invalid_time_range");
    reveal_strlit("outside_media_duration");
    reveal_strlit("outside_early_window");
    reveal_strlit("outside_late_window");
    reveal_strlit("segment_too_short");
    reveal_strlit("weak_identity_for_auto_activation");
    reveal_strlit("confidence_below_threshold");
    assert("unsupported_segment_type"@.len() == 24);
    assert("invalid_time_range"@.len() == 18);
    assert("outside_media_duration"@.len() == 22);
    assert("outside_early_window"@.len() == 20);
    assert("outside_late_window"@.len() == 19);
    assert("segment_too_short"@.len() == 17);
    assert("weak_identity_for_auto_activation"@.len() == 33);
    assert("confidence_below_threshold"@.len() == 26);
}

/// Of two candidates of a sure identity, an imported one ranks above one from
/// chapters, that one above one from a public database, that one above one from a
/// local detector, that one above one from an extension, and that one above any
/// other, however confident they are.
pub proof fn better_sources_rank_higher(a: CandidateRow, b: CandidateRow)
    requires
        0 <= a.confidence <= 1_000_000,
        0 <= b.confidence <= 1_000_000,
        a.identity_strength@ == "file_fingerprint"@ || a.identity_strength@ == "external_id_exact"@
            || a.identity_strength@ == "external_id_episode"@,
        b.identity_strength@ == "file_fingerprint"@ || b.identity_strength@ == "external_id_exact"@
            || b.identity_strength@ == "external_id_episode"@,
    ensures
        ({
            let level = |k: Seq<char>|
                if k == "imported"@ {
                    5int
                } else if k == "chapter"@ {
                    4
                } else if k == "theintrodb"@ || k == "aniskip"@ || k == "anime_skip"@ {
                    3
                } else if k == "local_audio_recurring"@ || k == "local_visual_recurring"@ {
                    2
                } else if k == "extension"@ {
                    1
                } else {
                    0
                };
            level(a.provider_kind@) > level(b.provider_kind@) ==> outranks(a, b)
        }),
{
    lemma_sources_differ();
    lemma_identities_differ();
}

proof fn lemma_sources_differ()
    ensures
        "imported"@ != "chapter"@,
        "imported"@ != "theintrodb"@,
        "imported"@ != "aniskip"@,
        "imported"@ != "anime_skip"@,
        "imported"@ != "local_audio_recurring"@,
        "imported"@ != "local_visual_recurring"@,
        "imported"@ != "extension"@,
        "imported"@ != "manual"@,
        "chapter"@ != "theintrodb"@,
        "chapter"@ != "aniskip"@,
        "chapter"@ != "anime_skip"@,
        "chapter"@ != "local_audio_recurring"@,
        "chapter"@ != "local_visual_recurring"@,
        "chapter"@ != "extension"@,
        "chapter"@ != "manual"@,
        "theintrodb"@ != "aniskip"@,
        "theintrodb"@ != "anime_skip"@,
        "theintrodb"@ != "local_audio_recurring"@,
        "theintrodb"@ != "local_visual_recurring"@,
        "theintrodb"@ != "extension"@,
        "theintrodb"@ != "manual"@,
        "aniskip"@ != "anime_skip"@,
        "aniskip"@ != "local_audio_recurring"@,
        "aniskip"@ != "local_visual_recurring"@,
        "aniskip"@ != "extension"@,
        "aniskip"@ != "manual"@,
        "anime_skip"@ != "local_audio_recurring"@,
        "anime_skip"@ != "local_visual_recurring"@,
        "anime_skip"@ != "extension"@,
        "anime_skip"@ != "manual"@,
        "local_audio_recurring"@ != "local_visual_recurring"@,
        "local_audio_recurring"@ != "extension"@,
        "local_audio_recurring"@ != "manual"@,
        "local_visual_recurring"@ != "extension"@,
        "local_visual_recurring"@ != "manual"@,
        "extension"@ != "manual"@,
{
    reveal_strlit("imported");
    reveal_strlit("chapter");
    reveal_strlit("theintrodb");
    reveal_strlit("aniskip");
    reveal_strlit("anime_skip");
    reveal_strlit("local_audio_recurring");
    reveal_strlit("local_visual_recurring");
    reveal_strlit("extension");
    reveal_strlit("manual");
    assert("imported"@.len() == 8);
    assert("chapter"@.len() == 7);
    assert("theintrodb"@.len() == 10);
    assert("aniskip"@.len() == 7);
    assert("anime_skip"@.len() == 10);
    assert("local_audio_recurring"@.len() == 21);
    assert("local_visual_recurring"@.len() == 22);
    assert("extension"@.len() == 9);
    assert("manual"@.len() == 6);
    assert("chapter"@[0] == 'c');
    assert("theintrodb"@[0] == 't');
    assert("aniskip"@[0] == 'a');
    assert("anime_skip"@[0] == 'a');
}

proof fn lemma_identities_differ()
    ensures
        "file_fingerprint"@ != "external_id_exact"@,
        "file_fingerprint"@ != "external_id_episode"@,
        "file_fingerprint"@ != "metadata_fuzzy"@,
        "external_id_exact"@ != "external_id_episode"@,
        "external_id_exact"@ != "metadata_fuzzy"@,
        "external_id_episode"@ != "metadata_fuzzy"@,
{
    reveal_strlit("file_fingerprint");
    reveal_strlit("external_id_exact");
    reveal_strlit("external_id_episode");
    reveal_strlit("metadata_fuzzy");
    assert("file_fingerprint"@.len() == 16);
    assert("external_id_exact"@.len() == 17);
    assert("external_id_episode"@.len() == 19);
    assert("metadata_fuzzy"@.len() == 14);
}

/// Of two candidates of one source, the one that names its file more surely ranks
/// above the other; of one source and one identity, the more confident one, and
/// of equal confidence the one that starts first.
pub proof fn surer_candidates_rank_higher(a: CandidateRow, b: CandidateRow)
    requires
        a.provider_kind@ == b.provider_kind@,
        0 <= a.confidence <= 1_000_000,
        0 <= b.confidence <= 1_000_000,
    ensures
        ({
            let level = |k: Seq<char>|
                if k == "file_fingerprint"@ {
                    4int
                } else if k == "external_id_exact"@ {
                    3
                } else if k == "external_id_episode"@ {
                    2
                } else if k == "metadata_fuzzy"@ {
                    1
                } else {
                    0
                };
            level(a.identity_strength@) > level(b.identity_strength@) ==> outranks(a, b)
        }),
        a.identity_strength@ == b.identity_strength@ && a.confidence > b.confidence ==> outranks(
            a,
            b,
        ),
        a.identity_strength@ == b.identity_strength@ && a.confidence == b.confidence && a.start
            is Micros && b.start is Micros ==> (outranks(a, b) <==> a.start->Micros_0
            < b.start->Micros_0),
{
    lemma_sources_differ();
    lemma_identities_differ();
}

/// What becomes active, of candidates that each end after they start: segments
/// of the given ones, by their time, that share no time with one another nor with
/// a locked window. A candidate that does not become active shares time with a
/// locked window, or with an active one that it does not outrank.
pub proof fn active_segments_are_the_best_that_fit(
    s: Seq<CandidateRow>,
    locked: Seq<ActiveWindow>,
)
    requires
        forall|i: int|
            0 <= i < s.len() ==> (#[trigger] s[i]).start is Micros && s[i].end is Micros
                && s[i].start->Micros_0 < s[i].end->Micros_0,
    ensures
        ({
            let r = timeline(chosen(ranking(s), locked));
            &&& forall|i: int| 0 <= i < r.len() ==> s.contains(#[trigger] r[i])
            &&& forall|i: int, j: int|
                0 <= i < j < r.len() ==> (#[trigger] r[i]).end->Micros_0 <= (
                #[trigger] r[j]).start->Micros_0
            &&& forall|i: int, j: int|
                0 <= i < r.len() && 0 <= j < locked.len() ==> (#[trigger] r[i]).end->Micros_0
                    <= (#[trigger] locked[j]).start_micros || locked[j].end_micros
                    <= r[i].start->Micros_0
            &&& forall|k: int|
                0 <= k < s.len() ==> {
                    ||| r.contains(#[trigger] s[k])
                    ||| exists|j: int|
                        0 <= j < locked.len() && s[k].start->Micros_0 < (
                        #[trigger] locked[j]).end_micros && locked[j].start_micros
                            < s[k].end->Micros_0
                    ||| exists|i: int|
                        0 <= i < r.len() && s[k].start->Micros_0 < (
                        #[trigger] r[i]).end->Micros_0 && r[i].start->Micros_0
                            < s[k].end->Micros_0 && !outranks(s[k], r[i])
                }
        }),
{
    assert(all_last(s)) by {
        assert forall|i: int| 0 <= i < s.len() implies lasts(#[trigger] s[i]) by {
            assert(s[i].start is Micros);
        }
    }
    active_segments_follow_each_other(s, locked);
    let before = |a: CandidateRow, b: CandidateRow| earlier(a, b);
    let above = |a: CandidateRow, b: CandidateRow| outranks(a, b);
    let ranked = ranking(s);
    let c = chosen(ranked, locked);
    let r = timeline(c);
    assert forall|i: int, j: int| 0 <= i < j < r.len() implies (#[trigger] r[i]).end->Micros_0 <= (
    #[trigger] r[j]).start->Micros_0 by {
        assert(end_of(r[i]) <= start_of(r[j]));
        assert(s.contains(r[i]) && s.contains(r[j]));
    }
    assert forall|i: int, j: int| 0 <= i < r.len() && 0 <= j < locked.len() implies (
    #[trigger] r[i]).end->Micros_0 <= (#[trigger] locked[j]).start_micros || locked[j].end_micros
        <= r[i].start->Micros_0 by {
        assert(!enters(r[i], locked[j]));
        assert(s.contains(r[i]));
    }
    assert forall|k: int| 0 <= k < s.len() implies {
        ||| r.contains(#[trigger] s[k])
        ||| exists|j: int|
            0 <= j < locked.len() && s[k].start->Micros_0 < (#[trigger] locked[j]).end_micros
                && locked[j].start_micros < s[k].end->Micros_0
        ||| exists|i: int|
            0 <= i < r.len() && s[k].start->Micros_0 < (#[trigger] r[i]).end->Micros_0
                && r[i].start->Micros_0 < s[k].end->Micros_0 && !outranks(s[k], r[i])
    } by {
        let x = s[k];
        assert(s.contains(x));
        assert(x.start is Micros);
        order::lemma_arranged_contains(s, above, x);
        let p = choose|p: int| 0 <= p < ranked.len() && ranked[p] == x;
        passed_over_candidates_are_blocked(ranked, locked, p);
        let earlier_ones = chosen(ranked.take(p), locked);
        if c.contains(x) {
            order::lemma_arranged_contains(c, before, x);
        } else if exists|j: int| 0 <= j < locked.len() && enters(x, #[trigger] locked[j]) {
            let j = choose|j: int| 0 <= j < locked.len() && enters(x, #[trigger] locked[j]);
            assert(x.start->Micros_0 < locked[j].end_micros);
        } else {
            let q = choose|q: int|
                0 <= q < earlier_ones.len() && collide(x, #[trigger] earlier_ones[q]);
            let y = earlier_ones[q];
            assert(earlier_ones.contains(y));
            lemma_chosen_from(ranked.take(p), locked, y);
            let g = choose|g: int| 0 <= g < ranked.take(p).len() && ranked.take(p)[g] == y;
            assert(ranked[g] == y && g < p);
            order::lemma_arranged_permutes(s, above);
            ranked.to_multiset_ensures();
            s.to_multiset_ensures();
            assert(ranked.len() == s.len());
            ranking_is_in_order(s);
            assert(!outranks(ranked[p], ranked[g]));
            assert(c.contains(y));
            order::lemma_arranged_contains(c, before, y);
            let i = choose|i: int| 0 <= i < r.len() && r[i] == y;
            assert(s.contains(r[i]));
            assert(x.start->Micros_0 < r[i].end->Micros_0);
        }
    }
}

proof fn lemma_behind(a: Seq<char>, b: Seq<char>, x: Seq<char>)
    requires
        a != b,
    ensures
        a + "|"@ + x != b + "|"@ + x,
{
    let bar = "|"@;
    let l = a + bar + x;
    let r = b + bar + x;
    if l == r {
        assert(l.len() == a.len() + bar.len() + x.len());
        assert(r.len() == b.len() + bar.len() + x.len());
        assert(a =~= l.take(a.len() as int));
        assert(b =~= r.take(b.len() as int));
    }
}

proof fn lemma_before(h: Seq<char>, x: Seq<char>, y: Seq<char>)
    requires
        x != y,
    ensures
        h + "|"@ + x != h + "|"@ + y,
{
    let head = h + "|"@;
    if head + x == head + y {
        assert((head + x).len() == head.len() + x.len());
        assert((head + y).len() == head.len() + y.len());
        assert(x =~= (head + x).skip(head.len() as int));
        assert(y =~= (head + y).skip(head.len() as int));
    }
}

/// Candidates that differ in one thing alone (their file, item, type, start, end,
/// source or the member that tells one segment of a source from another) have
/// different texts for their ids.
pub proof fn ids_rest_on_every_part(
    file: Seq<char>,
    item_type: Seq<char>,
    item_id: Seq<char>,
    kind: Seq<char>,
    start: Quantity,
    end: Quantity,
    source: Seq<char>,
    source_id: Seq<char>,
    key: Seq<char>,
    other: Seq<char>,
    time: Quantity,
)
    ensures
        ({
            let mine = candidate_key(
                file,
                item_type,
                item_id,
                kind,
                start,
                end,
                source,
                source_id,
                key,
            );
            &&& other != file ==> mine != candidate_key(
                other,
                item_type,
                item_id,
                kind,
                start,
                end,
                source,
                source_id,
                key,
            )
            &&& other != item_type ==> mine != candidate_key(
                file,
                other,
                item_id,
                kind,
                start,
                end,
                source,
                source_id,
                key,
            )
            &&& other != item_id ==> mine != candidate_key(
                file,
                item_type,
                other,
                kind,
                start,
                end,
                source,
                source_id,
                key,
            )
            &&& other != kind ==> mine != candidate_key(
                file,
                item_type,
                item_id,
                other,
                start,
                end,
                source,
                source_id,
                key,
            )
            &&& quantity::quantity_text(time) != quantity::quantity_text(start) ==> mine
                != candidate_key(
                file,
                item_type,
                item_id,
                kind,
                time,
                end,
                source,
                source_id,
                key,
            )
            &&& quantity::quantity_text(time) != quantity::quantity_text(end) ==> mine
                != candidate_key(
                file,
                item_type,
                item_id,
                kind,
                start,
                time,
                source,
                source_id,
                key,
            )
            &&& other != source ==> mine != candidate_key(
                file,
                item_type,
                item_id,
                kind,
                start,
                end,
                other,
                source_id,
                key,
            )
            &&& other != source_id ==> mine != candidate_key(
                file,
                item_type,
                item_id,
                kind,
                start,
                end,
                source,
                other,
                key,
            )
            &&& other != key ==> mine != candidate_key(
                file,
                item_type,
                item_id,
                kind,
                start,
                end,
                source,
                source_id,
                other,
            )
        }),
{
    let bar = "|"@;
    let from = quantity::quantity_text(start);
    let to = quantity::quantity_text(end);
    let at = quantity::quantity_text(time);
    let mine0 = file;
    let mine1 = mine0 + bar + item_type;
    let mine2 = mine1 + bar + item_id;
    let mine3 = mine2 + bar + kind;
    let mine4 = mine3 + bar + from;
    let mine5 = mine4 + bar + to;
    let mine6 = mine5 + bar + source;
    let mine7 = mine6 + bar + source_id;
    let mine8 = mine7 + bar + key;
    if other != file {
        let its0 = other;
        lemma_behind(mine0, its0, item_type);
        let its1 = its0 + bar + item_type;
        lemma_behind(mine1, its1, item_id);
        let its2 = its1 + bar + item_id;
        lemma_behind(mine2, its2, kind);
        let its3 = its2 + bar + kind;
        lemma_behind(mine3, its3, from);
        let its4 = its3 + bar + from;
        lemma_behind(mine4, its4, to);
        let its5 = its4 + bar + to;
        lemma_behind(mine5, its5, source);
        let its6 = its5 + bar + source;
        lemma_behind(mine6, its6, source_id);
        let its7 = its6 + bar + source_id;
        lemma_behind(mine7, its7, key);
        let its8 = its7 + bar + key;
    }
    if other != item_type {
        lemma_before(mine0, item_type, other);
        let its1 = mine0 + bar + other;
        lemma_behind(mine1, its1, item_id);
        let its2 = its1 + bar + item_id;
        lemma_behind(mine2, its2, kind);
        let its3 = its2 + bar + kind;
        lemma_behind(mine3, its3, from);
        let its4 = its3 + bar + from;
        lemma_behind(mine4, its4, to);
        let its5 = its4 + bar + to;
        lemma_behind(mine5, its5, source);
        let its6 = its5 + bar + source;
        lemma_behind(mine6, its6, source_id);
        let its7 = its6 + bar + source_id;
        lemma_behind(mine7, its7, key);
        let its8 = its7 + bar + key;
    }
    if other != item_id {
        lemma_before(mine1, item_id, other);
        let its2 = mine1 + bar + other;
        lemma_behind(mine2, its2, kind);
        let its3 = its2 + bar + kind;
        lemma_behind(mine3, its3, from);
        let its4 = its3 + bar + from;
        lemma_behind(mine4, its4, to);
        let its5 = its4 + bar + to;
        lemma_behind(mine5, its5, source);
        let its6 = its5 + bar + source;
        lemma_behind(mine6, its6, source_id);
        let its7 = its6 + bar + source_id;
        lemma_behind(mine7, its7, key);
        let its8 = its7 + bar + key;
    }
    if other != kind {
        lemma_before(mine2, kind, other);
        let its3 = mine2 + bar + other;
        lemma_behind(mine3, its3, from);
        let its4 = its3 + bar + from;
        lemma_behind(mine4, its4, to);
        let its5 = its4 + bar + to;
        lemma_behind(mine5, its5, source);
        let its6 = its5 + bar + source;
        lemma_behind(mine6, its6, source_id);
        let its7 = its6 + bar + source_id;
        lemma_behind(mine7, its7, key);
        let its8 = its7 + bar + key;
    }
    if at != from {
        lemma_before(mine3, from, at);
        let its4 = mine3 + bar + at;
        lemma_behind(mine4, its4, to);
        let its5 = its4 + bar + to;
        lemma_behind(mine5, its5, source);
        let its6 = its5 + bar + source;
        lemma_behind(mine6, its6, source_id);
        let its7 = its6 + bar + source_id;
        lemma_behind(mine7, its7, key);
        let its8 = its7 + bar + key;
    }
    if at != to {
        lemma_before(mine4, to, at);
        let its5 = mine4 + bar + at;
        lemma_behind(mine5, its5, source);
        let its6 = its5 + bar + source;
        lemma_behind(mine6, its6, source_id);
        let its7 = its6 + bar + source_id;
        lemma_behind(mine7, its7, key);
        let its8 = its7 + bar + key;
    }
    if other != source {
        lemma_before(mine5, source, other);
        let its6 = mine5 + bar + other;
        lemma_behind(mine6, its6, source_id);
        let its7 = its6 + bar + source_id;
        lemma_behind(mine7, its7, key);
        let its8 = its7 + bar + key;
    }
    if other != source_id {
        lemma_before(mine6, source_id, other);
        let its7 = mine6 + bar + other;
        lemma_behind(mine7, its7, key);
        let its8 = its7 + bar + key;
    }
    if other != key {
        lemma_before(mine7, key, other);
        let its8 = mine7 + bar + other;
    }
}

/// What tells one segment of a source from another: the chapter, else the
/// segment's id with its source, else its own id.
pub proof fn chapters_and_ids_tell_segments_apart(payload: Json)
    ensures
        json::json_get(payload, "chapter_id"@) is Some ==> source_member(Some(payload))
            == json::json_get(payload, "chapter_id"@),
        json::json_get(payload, "chapter_id"@) is None && json::json_get(
            payload,
            "provider_segment_id"@,
        ) is Some ==> source_member(Some(payload)) == json::json_get(
            payload,
            "provider_segment_id"@,
        ),
        json::json_get(payload, "chapter_id"@) is None && json::json_get(
            payload,
            "provider_segment_id"@,
        ) is None ==> source_member(Some(payload)) == json::json_get(payload, "id"@),
        source_text(None).len() == 0,
{
}

/// A candidate that is taken names a file that exists, a type, a source and how
/// surely it names the file, none of them manual, and a finite confidence. Its
/// row keeps its times and payload, and its confidence where that lies between
/// nothing and one; beyond, the nearer of the two.
pub proof fn taken_candidates_keep_what_they_say(
    row: CandidateRow,
    input: SegmentCandidateInput,
    file_exists: bool,
    resolved: ResolvedItem,
)
    requires
        candidate_refusal(input, file_exists, resolved) is None,
        normal_form_of(row, input, resolved),
    ensures
        file_exists,
        row.media_file_id@.len() > 0,
        row.segment_type@.len() > 0,
        row.provider_kind@.len() > 0 && row.provider_kind@ != "manual"@,
        row.provider_id@.len() > 0,
        row.identity_strength@.len() > 0 && row.identity_strength@ != "manual"@,
        row.start == input.start,
        row.end == input.end,
        input.confidence is Micros,
        0 <= row.confidence <= 1_000_000,
        0 <= input.confidence->Micros_0 <= 1_000_000 ==> row.confidence
            == input.confidence->Micros_0,
        input.confidence->Micros_0 > 1_000_000 ==> row.confidence == 1_000_000,
        input.confidence->Micros_0 < 0 ==> row.confidence == 0,
        row.source_payload is Some <==> input.source_payload is Some,
        row.source_payload is Some ==> row.source_payload->0@ == input.source_payload->0@,
        row.provider_version is Some <==> input.provider_version is Some,
        input.item_type is Some <==> input.item_id is Some,
        input.item_type is None ==> resolved is Item && row.item_type@
            == resolved->Item_0.item_type@ && row.item_id@ == resolved->Item_0.item_id@,
        input.item_id is Some ==> row.item_id@ == text::trim_seq(input.item_id->0@),
{
    assert(text::snake_seq(input.segment_type@).len() == text::trim_seq(input.segment_type@).len());
}

/// The label of a segment: what its payload calls it, cut to eighty characters,
/// else the name of its source.
pub proof fn labels_name_the_source(payload: Option<Json>, kind: Seq<char>)
    ensures
        ({
            let label = match payload {
                Some(p) => json::json_get(p, "label"@),
                None => None,
            };
            let title = match payload {
                Some(p) => json::json_get(p, "title"@),
                None => None,
            };
            let shown = source_label(payload, kind);
            &&& label is Some && label->0 is Text && 0 < text::trim_seq(label->0->Text_0).len()
                <= 80 ==> shown == text::trim_seq(label->0->Text_0)
            &&& label is Some && label->0 is Text && text::trim_seq(label->0->Text_0).len() > 80
                ==> shown == text::trim_seq(label->0->Text_0).take(80)
            &&& label is None && title is Some && title->0 is Text && 0 < text::trim_seq(
                title->0->Text_0,
            ).len() <= 80 ==> shown == text::trim_seq(title->0->Text_0)
            &&& label is None && title is None ==> {
                &&& kind == "chapter"@ ==> shown == "Embedded chapters"@
                &&& kind == "theintrodb"@ ==> shown == "TheIntroDB"@
                &&& kind == "aniskip"@ ==> shown == "AniSkip"@
                &&& kind == "anime_skip"@ ==> shown == "Anime Skip"@
                &&& kind == "local_audio_recurring"@ ==> shown == "Local audio detector"@
                &&& kind == "local_visual_recurring"@ ==> shown == "Local visual detector"@
                &&& kind == "imported"@ ==> shown == "Imported"@
                &&& kind == "extension"@ ==> shown == "Extension"@
                &&& shown.len() > 0 || kind.len() == 0
            }
        }),
{
    lemma_sources_differ();
    lemma_identities_differ();
    reveal_strlit("Embedded chapters");
    reveal_strlit("TheIntroDB");
    reveal_strlit("AniSkip");
    reveal_strlit("Anime Skip");
    reveal_strlit("Local audio detector");
    reveal_strlit("Local visual detector");
    reveal_strlit("Manual");
    reveal_strlit("Imported");
    reveal_strlit("Extension");
}

/// The length of a file is that of its fingerprint where that is positive, else
/// that of its probe, else that of its item; it is positive or not known.
pub proof fn file_length_is_the_first_known(
    fingerprint_seconds: Option<i64>,
    probe_micros: Option<i64>,
    item_seconds: Option<i64>,
)
    ensures
        ({
            let d = file_duration(fingerprint_seconds, probe_micros, item_seconds);
            let printed = fingerprint_seconds is Some && fingerprint_seconds->0 > 0;
            let probed = probe_micros is Some && probe_micros->0 > 0;
            let listed = item_seconds is Some && item_seconds->0 > 0;
            &&& d is Some <==> printed || probed || listed
            &&& d is Some ==> d->0 > 0
            &&& printed && fingerprint_seconds->0 <= 9_000_000_000_000 ==> d == Some(
                (fingerprint_seconds->0 * 1_000_000) as i64,
            )
            &&& !printed && probed ==> d == probe_micros
            &&& !printed && !probed && listed && item_seconds->0 <= 9_000_000_000_000 ==> d == Some(
                (item_seconds->0 * 1_000_000) as i64,
            )
        }),
{
}

/// A segment is switched off for the reason that was given, without white space
/// around it, or else because the user wanted it; what it held before is kept.
pub proof fn switched_off_segments_keep_their_past(reason: Option<Seq<char>>, previous: Json)
    ensures
        reason is None ==> off_reason(reason) == "disabled_by_user"@,
        reason is Some && text::trim_seq(reason->0).len() == 0 ==> off_reason(reason)
            == "disabled_by_user"@,
        reason is Some && text::trim_seq(reason->0).len() > 0 ==> off_reason(reason)
            == text::trim_seq(reason->0),
        json::json_get(off_metadata(reason, previous), "disabled_reason"@) == Some(
            Json::Text(off_reason(reason)),
        ),
        json::json_get(off_metadata(reason, previous), "previous_metadata"@) == Some(previous),
{
    reveal_strlit("disabled_reason");
    reveal_strlit("previous_metadata");
    assert("disabled_reason"@.len() == 15 && "previous_metadata"@.len() == 17);
    let m = off_metadata(reason, previous)->Object_0;
    json::lemma_lookup_at(m, "disabled_reason"@, 0);
    json::lemma_lookup_at(m, "previous_metadata"@, 1);
}

/// An active segment keeps the source of its candidate, how surely that names the
/// file, and its payload.
pub proof fn active_segments_keep_their_source(c: CandidateRow)
    ensures
        json::json_get(segment_metadata(c), "identity_strength"@) == Some(
            Json::Text(c.identity_strength@),
        ),
        json::json_get(segment_metadata(c), "provider_id"@) == Some(Json::Text(c.provider_id@)),
        json::json_get(segment_metadata(c), "provider_kind"@) == Some(Json::Text(c.provider_kind@)),
        json::json_get(segment_metadata(c), "provider_version"@) == Some(
            match c.provider_version {
                Some(v) => Json::Text(v@),
                None => Json::Null,
            },
        ),
        json::json_get(segment_metadata(c), "source_payload"@) == Some(
            match c.source_payload {
                Some(v) => v@,
                None => Json::Null,
            },
        ),
{
    reveal_strlit("identity_strength");
    reveal_strlit("provider_id");
    reveal_strlit("provider_kind");
    reveal_strlit("provider_version");
    reveal_strlit("source_payload");
    assert("identity_strength"@.len() == 17 && "provider_id"@.len() == 11);
    assert("provider_kind"@.len() == 13 && "provider_version"@.len() == 16);
    assert("source_payload"@.len() == 14);
    let m = segment_metadata(c)->Object_0;
    json::lemma_lookup_at(m, "identity_strength"@, 0);
    json::lemma_lookup_at(m, "provider_id"@, 1);
    json::lemma_lookup_at(m, "provider_kind"@, 2);
    json::lemma_lookup_at(m, "provider_version"@, 3);
    json::lemma_lookup_at(m, "source_payload"@, 4);
}

/// A candidate is validated to be accepted and activated, or rejected with the reason and
/// not activated; never both.
pub proof fn candidates_are_accepted_or_rejected(
    candidate: &CandidateRow,
    duration: Option<i64>,
    r: CandidateValidation,
)
    requires
        call_ensures(validate_candidate, (candidate, duration), r),
    ensures
        r.auto_activate <==> r.reason is None,
        r.auto_activate ==> r.state@ == "accepted"@,
        !r.auto_activate ==> r.state@ == "rejected"@,
        r.reason is Some ==> rejection(*candidate, duration) == Some(r.reason->0@),
        candidate.confidence < 700_000 ==> r.state@ == "rejected"@,
        candidate.start is Micros && candidate.end is Micros && candidate.end->Micros_0
            <= candidate.start->Micros_0 ==> r.state@ == "rejected"@,
{
    accepted_candidates_meet_every_rule(*candidate, duration);
}

/// A segment that is switched off is disabled, and its candidate rejected for the same
/// reason.
pub proof fn switched_off_segments_stay_off(
    reason: Option<&str>,
    previous_metadata: &Option<JsonValue>,
    r: DisabledSegment,
)
    requires
        call_ensures(disable_active_segment, (reason, previous_metadata), r),
    ensures
        r.status@ == "disabled"@,
        r.candidate_state@ == "rejected"@,
        reason is None ==> r.candidate_reason@ == "disabled_by_user"@,
        json::json_get(r.metadata@, "disabled_reason"@) == Some(Json::Text(r.candidate_reason@)),
        previous_metadata is Some ==> json::json_get(r.metadata@, "previous_metadata"@) == Some(
            previous_metadata->0@,
        ),
{
    switched_off_segments_keep_their_past(
        match reason {
            Some(t) => Some(t@),
            None => None,
        },
        json::json_or_null(json::opt_value(*previous_metadata)),
    );
}

/// Why a candidate is refused, by the first that holds: what it does not name, what it
/// names by halves, what is manual or not finite.
pub proof fn refusals_of_candidates(
    input: SegmentCandidateInput,
    file_exists: bool,
    resolved: ResolvedItem,
)
    ensures
        ({
            let blank = |t: Seq<char>| text::trim_seq(t).len() == 0;
            let why = candidate_refusal(input, file_exists, resolved);
            let filed = !blank(input.media_file_id@) && file_exists;
            let whole = filed && input.item_type is None && input.item_id is None && resolved
                is Item;
            &&& blank(input.media_file_id@) ==> why == Some("media_file_id"@ + " is required"@)
            &&& !blank(input.media_file_id@) && !file_exists ==> why == Some(
                "media file not found"@,
            )
            &&& filed && (input.item_type is Some) != (input.item_id is Some) ==> why == Some(
                "item_type and item_id must be provided together"@,
            )
            &&& filed && input.item_type is None && input.item_id is None && resolved is Unlinked
                ==> why == Some("media file is not linked to a media item"@)
            &&& whole && blank(input.segment_type@) ==> why == Some(
                "segment_type"@ + " is required"@,
            )
            &&& whole && !blank(input.segment_type@) && blank(input.provider_kind@) ==> why == Some(
                "provider_kind"@ + " is required"@,
            )
            &&& whole && !blank(input.segment_type@) && !blank(input.provider_kind@) && blank(
                input.provider_id@,
            ) ==> why == Some("provider_id"@ + " is required"@)
            &&& whole && !blank(input.segment_type@) && !blank(input.provider_kind@) && !blank(
                input.provider_id@,
            ) && input.provider_version is None && blank(input.identity_strength@) ==> why == Some(
                "identity_strength"@ + " is required"@,
            )
            &&& why is None ==> input.confidence is Micros && filed
            &&& whole && !blank(input.segment_type@) && !blank(input.provider_kind@) && !blank(
                input.provider_id@,
            ) && input.provider_version is None && !blank(input.identity_strength@)
                && text::snake_seq(input.provider_kind@) != "manual"@ && text::snake_seq(
                input.identity_strength@,
            ) != "manual"@ ==> why == (if input.confidence is Micros {
                None
            } else {
                Some("confidence must be finite"@)
            })
        }),
{
}

/// A version that is named must have text, like the other fields.
pub proof fn versions_need_text(
    input: SegmentCandidateInput,
    file_exists: bool,
    resolved: ResolvedItem,
)
    requires
        input.provider_version is Some,
        text::trim_seq(input.provider_version->0@).len() == 0,
    ensures
        candidate_refusal(input, file_exists, resolved) is Some,
        file_exists && text::trim_seq(input.media_file_id@).len() > 0 && input.item_type is None
            && input.item_id is None && resolved is Item && text::trim_seq(
            input.segment_type@,
        ).len() > 0 && text::trim_seq(input.provider_kind@).len() > 0 && text::trim_seq(
            input.provider_id@,
        ).len() > 0 ==> candidate_refusal(input, file_exists, resolved) == Some(
            "provider_version"@ + " is required"@,
        ),
{
}

} // verus!
