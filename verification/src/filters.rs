//! What a list is filtered by.

use vstd::prelude::*;
use crate::error::{self, opt_text, refuse, SegmentError};
use crate::jobs::MediaSegmentJobListFilters;
use crate::normalize;
use crate::outside;
use crate::text;

verus! {

/// What a list of certifications is filtered by.
#[derive(Debug, Clone, Default)]
pub struct MediaSegmentProviderCertificationFilters {
    pub provider_id: Option<String>,
    pub provider_kind: Option<String>,
    pub status: Option<String>,
    pub limit: Option<i64>,
}

/// What the candidates to look over are filtered by.
#[derive(Debug, Clone, Default)]
pub struct MediaSegmentCandidateReviewFilters {
    pub media_file_id: Option<String>,
    pub item_type: Option<String>,
    pub item_id: Option<String>,
    pub segment_type: Option<String>,
    pub provider_kind: Option<String>,
    pub validation_state: Option<String>,
    pub validation_reason: Option<String>,
    pub low_confidence: Option<bool>,
    pub limit: Option<i64>,
}

/// The text of a UUID, or why it is refused.
pub open spec fn uuid_text_of(value: Seq<char>, field: Seq<char>) -> Result<Seq<char>, Seq<char>> {
    match normalize::required_of(value, field) {
        Ok(s) => if outside::uuid_shape(s) {
            Ok(s)
        } else {
            Err(field + " must be a valid UUID"@)
        },
        Err(m) => Err(m),
    }
}

/// The text of a UUID, without the white space around it.
pub fn normalize_uuid_text(value: &str, field: &str) -> (r: Result<String, SegmentError>)
    ensures
        error::text_agrees(r, uuid_text_of(value@, field@)),
{
    match normalize::normalize_required_text(value, field) {
        Ok(s) => if outside::is_uuid(s.as_str()) {
            Ok(s)
        } else {
            let message = text::join2(field, " must be a valid UUID");
            Err(refuse(message.as_str()))
        },
        Err(e) => Err(e),
    }
}

/// A UUID with its digits in groups, as the ids of jobs are, is taken as it
/// stands wherever it names something.
pub proof fn grouped_uuids_are_taken_as_they_stand(id: Seq<char>, field: Seq<char>)
    requires
        outside::hyphenated_uuid(id),
    ensures
        uuid_text_of(id, field) == Ok::<Seq<char>, Seq<char>>(id),
{
    assert(outside::hex_char(id[0]) && outside::hex_char(id[35]));
    assert(text::trim_start_seq(id) == id);
    assert(text::trim_end_seq(id) == id);
}

/// How many rows a list has at most: a hundred unless said otherwise, between
/// one and five hundred.
pub open spec fn list_limit_of(limit: Option<i64>) -> i64 {
    match limit {
        Some(n) => if n < 1 {
            1
        } else if n > 500 {
            500
        } else {
            n
        },
        None => 100,
    }
}

/// How many rows a list has at most.
pub fn list_limit(limit: Option<i64>) -> (r: i64)
    ensures
        r == list_limit_of(limit),
        1 <= r <= 500,
{
    match limit {
        Some(n) => if n < 1 {
            1
        } else if n > 500 {
            500
        } else {
            n
        },
        None => 100,
    }
}

/// A filter that was not given stays away; one that was given has its normal
/// form, or is refused.
pub open spec fn optional(r: Option<Result<Seq<char>, Seq<char>>>) -> Result<
    Option<Seq<char>>,
    Seq<char>,
> {
    match r {
        None => Ok(None),
        Some(Ok(s)) => Ok(Some(s)),
        Some(Err(m)) => Err(m),
    }
}

/// The filters of a list of jobs, in normal form.
#[derive(Debug, Clone)]
pub struct JobListFilter {
    pub status: Option<String>,
    pub provider_kind: Option<String>,
    pub job_type: Option<String>,
    pub scope_type: Option<String>,
    pub scope_id: Option<String>,
    pub limit: i64,
}

/// The same, as a mathematical value.
#[verifier::ext_equal]
pub struct JobFilter {
    pub status: Option<Seq<char>>,
    pub provider_kind: Option<Seq<char>>,
    pub job_type: Option<Seq<char>>,
    pub scope_type: Option<Seq<char>>,
    pub scope_id: Option<Seq<char>>,
    pub limit: i64,
}

impl View for JobListFilter {
    type V = JobFilter;

    open spec fn view(&self) -> JobFilter {
        JobFilter {
            status: opt_text(self.status),
            provider_kind: opt_text(self.provider_kind),
            job_type: opt_text(self.job_type),
            scope_type: opt_text(self.scope_type),
            scope_id: opt_text(self.scope_id),
            limit: self.limit,
        }
    }
}

/// The filters of a list of jobs, in normal form, or why the first refused one is refused.
pub open spec fn job_filter_of(filters: MediaSegmentJobListFilters) -> Result<JobFilter, Seq<char>> {
    let status = optional(
        match filters.status {
            Some(v) => Some(normalize::job_status_filter_of(v@)),
            None => None,
        },
    );
    let provider_kind = optional(
        match filters.provider_kind {
            Some(v) => Some(normalize::identifier_of(v@, "provider_kind"@)),
            None => None,
        },
    );
    let job_type = optional(
        match filters.job_type {
            Some(v) => Some(normalize::identifier_of(v@, "job_type"@)),
            None => None,
        },
    );
    let scope_type = optional(
        match filters.scope_type {
            Some(v) => Some(normalize::identifier_of(v@, "scope_type"@)),
            None => None,
        },
    );
    let scope_id = optional(
        match filters.scope_id {
            Some(v) => Some(normalize::required_of(v@, "scope_id"@)),
            None => None,
        },
    );
    if status is Err {
        Err(status->Err_0)
    } else if provider_kind is Err {
        Err(provider_kind->Err_0)
    } else if job_type is Err {
        Err(job_type->Err_0)
    } else if scope_type is Err {
        Err(scope_type->Err_0)
    } else if scope_id is Err {
        Err(scope_id->Err_0)
    } else {
        Ok(
            JobFilter {
                status: status->Ok_0,
                provider_kind: provider_kind->Ok_0,
                job_type: job_type->Ok_0,
                scope_type: scope_type->Ok_0,
                scope_id: scope_id->Ok_0,
                limit: list_limit_of(filters.limit),
            },
        )
    }
}

/// The filters of a list of jobs, in normal form.
pub fn normalize_job_filters(filters: &MediaSegmentJobListFilters) -> (r: Result<JobListFilter, SegmentError>)
    ensures
        match (r, job_filter_of(*filters)) {
            (Ok(n), Ok(v)) => n@ == v,
            (Err(e), Err(m)) => e.message@ == m,
            _ => false,
        },
{
    let status = match &filters.status {
        Some(v) => match normalize::normalize_media_segment_job_status_filter(v.as_str()) {
            Ok(s) => Some(s),
            Err(e) => {
                return Err(e);
            },
        },
        None => None,
    };
    let provider_kind = match &filters.provider_kind {
        Some(v) => match normalize::normalize_media_segment_job_identifier_filter(v.as_str(), "provider_kind") {
            Ok(s) => Some(s),
            Err(e) => {
                return Err(e);
            },
        },
        None => None,
    };
    let job_type = match &filters.job_type {
        Some(v) => match normalize::normalize_media_segment_job_identifier_filter(v.as_str(), "job_type") {
            Ok(s) => Some(s),
            Err(e) => {
                return Err(e);
            },
        },
        None => None,
    };
    let scope_type = match &filters.scope_type {
        Some(v) => match normalize::normalize_media_segment_job_identifier_filter(v.as_str(), "scope_type") {
            Ok(s) => Some(s),
            Err(e) => {
                return Err(e);
            },
        },
        None => None,
    };
    let scope_id = match &filters.scope_id {
        Some(v) => match normalize::normalize_required_text(v.as_str(), "scope_id") {
            Ok(s) => Some(s),
            Err(e) => {
                return Err(e);
            },
        },
        None => None,
    };
    Ok(
        JobListFilter {
            status,
            provider_kind,
            job_type,
            scope_type,
            scope_id,
            limit: list_limit(filters.limit),
        },
    )
}

/// The filters of a list of certifications, in normal form.
#[derive(Debug, Clone)]
pub struct CertificationListFilter {
    pub provider_id: Option<String>,
    pub provider_kind: Option<String>,
    pub status: Option<String>,
    pub limit: i64,
}

/// The same, as a mathematical value.
#[verifier::ext_equal]
pub struct CertificationFilter {
    pub provider_id: Option<Seq<char>>,
    pub provider_kind: Option<Seq<char>>,
    pub status: Option<Seq<char>>,
    pub limit: i64,
}

impl View for CertificationListFilter {
    type V = CertificationFilter;

    open spec fn view(&self) -> CertificationFilter {
        CertificationFilter {
            provider_id: opt_text(self.provider_id),
            provider_kind: opt_text(self.provider_kind),
            status: opt_text(self.status),
            limit: self.limit,
        }
    }
}

/// The filters of a list of certifications, in normal form, or why the first refused one is refused.
pub open spec fn certification_filter_of(filters: MediaSegmentProviderCertificationFilters) -> Result<CertificationFilter, Seq<char>> {
    let provider_id = optional(
        match filters.provider_id {
            Some(v) => Some(uuid_text_of(v@, "provider_id"@)),
            None => None,
        },
    );
    let provider_kind = optional(
        match filters.provider_kind {
            Some(v) => Some(normalize::provider_id_of(v@)),
            None => None,
        },
    );
    let status = optional(
        match filters.status {
            Some(v) => Some(normalize::certification_status_of(v@)),
            None => None,
        },
    );
    if provider_id is Err {
        Err(provider_id->Err_0)
    } else if provider_kind is Err {
        Err(provider_kind->Err_0)
    } else if status is Err {
        Err(status->Err_0)
    } else {
        Ok(
            CertificationFilter {
                provider_id: provider_id->Ok_0,
                provider_kind: provider_kind->Ok_0,
                status: status->Ok_0,
                limit: list_limit_of(filters.limit),
            },
        )
    }
}

/// The filters of a list of certifications, in normal form.
pub fn normalize_certification_filters(filters: &MediaSegmentProviderCertificationFilters) -> (r: Result<CertificationListFilter, SegmentError>)
    ensures
        match (r, certification_filter_of(*filters)) {
            (Ok(n), Ok(v)) => n@ == v,
            (Err(e), Err(m)) => e.message@ == m,
            _ => false,
        },
{
    let provider_id = match &filters.provider_id {
        Some(v) => match normalize_uuid_text(v.as_str(), "provider_id") {
            Ok(s) => Some(s),
            Err(e) => {
                return Err(e);
            },
        },
        None => None,
    };
    let provider_kind = match &filters.provider_kind {
        Some(v) => match normalize::normalize_provider_id(v.as_str()) {
            Ok(s) => Some(s),
            Err(e) => {
                return Err(e);
            },
        },
        None => None,
    };
    let status = match &filters.status {
        Some(v) => match normalize::normalize_media_segment_provider_certification_status(v.as_str()) {
            Ok(s) => Some(s),
            Err(e) => {
                return Err(e);
            },
        },
        None => None,
    };
    Ok(
        CertificationListFilter {
            provider_id,
            provider_kind,
            status,
            limit: list_limit(filters.limit),
        },
    )
}

/// The filters of the candidates to look over, in normal form.
#[derive(Debug, Clone)]
pub struct ReviewListFilter {
    pub media_file_id: Option<String>,
    pub item_type: Option<String>,
    pub item_id: Option<String>,
    pub segment_type: Option<String>,
    pub provider_kind: Option<String>,
    pub validation_state: Option<String>,
    pub validation_reason: Option<String>,
    pub low_confidence: bool,
    pub limit: i64,
}

/// The same, as a mathematical value.
#[verifier::ext_equal]
pub struct ReviewFilter {
    pub media_file_id: Option<Seq<char>>,
    pub item_type: Option<Seq<char>>,
    pub item_id: Option<Seq<char>>,
    pub segment_type: Option<Seq<char>>,
    pub provider_kind: Option<Seq<char>>,
    pub validation_state: Option<Seq<char>>,
    pub validation_reason: Option<Seq<char>>,
    pub low_confidence: bool,
    pub limit: i64,
}

impl View for ReviewListFilter {
    type V = ReviewFilter;

    open spec fn view(&self) -> ReviewFilter {
        ReviewFilter {
            media_file_id: opt_text(self.media_file_id),
            item_type: opt_text(self.item_type),
            item_id: opt_text(self.item_id),
            segment_type: opt_text(self.segment_type),
            provider_kind: opt_text(self.provider_kind),
            validation_state: opt_text(self.validation_state),
            validation_reason: opt_text(self.validation_reason),
            low_confidence: self.low_confidence,
            limit: self.limit,
        }
    }
}

/// The filters of the candidates to look over, in normal form, or why the first refused one is refused.
pub open spec fn review_filter_of(filters: MediaSegmentCandidateReviewFilters) -> Result<ReviewFilter, Seq<char>> {
    let media_file_id = optional(
        match filters.media_file_id {
            Some(v) => Some(normalize::required_of(v@, "media_file_id"@)),
            None => None,
        },
    );
    let item_type = optional(
        match filters.item_type {
            Some(v) => Some(normalize::candidate_item_type_filter_of(v@)),
            None => None,
        },
    );
    let item_id = optional(
        match filters.item_id {
            Some(v) => Some(normalize::required_of(v@, "item_id"@)),
            None => None,
        },
    );
    let segment_type = optional(
        match filters.segment_type {
            Some(v) => Some(normalize::segment_type_filter_of(v@)),
            None => None,
        },
    );
    let provider_kind = optional(
        match filters.provider_kind {
            Some(v) => Some(normalize::identifier_of(v@, "provider_kind"@)),
            None => None,
        },
    );
    let validation_state = optional(
        match filters.validation_state {
            Some(v) => Some(normalize::validation_state_filter_of(v@)),
            None => None,
        },
    );
    let validation_reason = optional(
        match filters.validation_reason {
            Some(v) => Some(normalize::validation_reason_filter_of(v@)),
            None => None,
        },
    );
    if media_file_id is Err {
        Err(media_file_id->Err_0)
    } else if item_type is Err {
        Err(item_type->Err_0)
    } else if item_id is Err {
        Err(item_id->Err_0)
    } else if segment_type is Err {
        Err(segment_type->Err_0)
    } else if provider_kind is Err {
        Err(provider_kind->Err_0)
    } else if validation_state is Err {
        Err(validation_state->Err_0)
    } else if validation_reason is Err {
        Err(validation_reason->Err_0)
    } else {
        Ok(
            ReviewFilter {
                media_file_id: media_file_id->Ok_0,
                item_type: item_type->Ok_0,
                item_id: item_id->Ok_0,
                segment_type: segment_type->Ok_0,
                provider_kind: provider_kind->Ok_0,
                validation_state: validation_state->Ok_0,
                validation_reason: validation_reason->Ok_0,
                low_confidence: filters.low_confidence == Some(true),
                limit: list_limit_of(filters.limit),
            },
        )
    }
}

/// The filters of the candidates to look over, in normal form.
pub fn normalize_review_filters(filters: &MediaSegmentCandidateReviewFilters) -> (r: Result<ReviewListFilter, SegmentError>)
    ensures
        match (r, review_filter_of(*filters)) {
            (Ok(n), Ok(v)) => n@ == v,
            (Err(e), Err(m)) => e.message@ == m,
            _ => false,
        },
{
    let media_file_id = match &filters.media_file_id {
        Some(v) => match normalize::normalize_required_text(v.as_str(), "media_file_id") {
            Ok(s) => Some(s),
            Err(e) => {
                return Err(e);
            },
        },
        None => None,
    };
    let item_type = match &filters.item_type {
        Some(v) => match normalize::normalize_optional_candidate_item_type(v.as_str()) {
            Ok(s) => Some(s),
            Err(e) => {
                return Err(e);
            },
        },
        None => None,
    };
    let item_id = match &filters.item_id {
        Some(v) => match normalize::normalize_required_text(v.as_str(), "item_id") {
            Ok(s) => Some(s),
            Err(e) => {
                return Err(e);
            },
        },
        None => None,
    };
    let segment_type = match &filters.segment_type {
        Some(v) => match normalize::normalize_candidate_segment_filter(v.as_str()) {
            Ok(s) => Some(s),
            Err(e) => {
                return Err(e);
            },
        },
        None => None,
    };
    let provider_kind = match &filters.provider_kind {
        Some(v) => match normalize::normalize_media_segment_job_identifier_filter(v.as_str(), "provider_kind") {
            Ok(s) => Some(s),
            Err(e) => {
                return Err(e);
            },
        },
        None => None,
    };
    let validation_state = match &filters.validation_state {
        Some(v) => match normalize::normalize_candidate_validation_state_filter(v.as_str()) {
            Ok(s) => Some(s),
            Err(e) => {
                return Err(e);
            },
        },
        None => None,
    };
    let validation_reason = match &filters.validation_reason {
        Some(v) => match normalize::normalize_candidate_validation_reason_filter(v.as_str()) {
            Ok(s) => Some(s),
            Err(e) => {
                return Err(e);
            },
        },
        None => None,
    };
    let low_confidence = match filters.low_confidence {
        Some(b) => b,
        None => false,
    };
    Ok(
        ReviewListFilter {
            media_file_id,
            item_type,
            item_id,
            segment_type,
            provider_kind,
            validation_state,
            validation_reason,
            low_confidence,
            limit: list_limit(filters.limit),
        },
    )
}

/// Jobs are listed by what a request names, in its normal form, and a hundred of them
/// unless it says how many, up to five hundred.
pub proof fn job_filters_are_kept(filters: MediaSegmentJobListFilters)
    requires
        job_filter_of(filters) is Ok,
    ensures
        ({
            let f = job_filter_of(filters)->Ok_0;
            &&& filters.status is None ==> f.status is None
            &&& filters.status is Some ==> f.status == Some(text::snake_seq(filters.status->0@))
            &&& filters.provider_kind is None ==> f.provider_kind is None
            &&& filters.provider_kind is Some ==> f.provider_kind == Some(text::snake_seq(filters.provider_kind->0@))
            &&& filters.job_type is None ==> f.job_type is None
            &&& filters.job_type is Some ==> f.job_type == Some(text::snake_seq(filters.job_type->0@))
            &&& filters.scope_type is None ==> f.scope_type is None
            &&& filters.scope_type is Some ==> f.scope_type == Some(text::snake_seq(filters.scope_type->0@))
            &&& filters.scope_id is None ==> f.scope_id is None
            &&& filters.scope_id is Some ==> f.scope_id == Some(text::trim_seq(filters.scope_id->0@))
            &&& f.limit == match filters.limit {
                Some(n) => if n < 1 {
                    1
                } else if n > 500 {
                    500
                } else {
                    n
                },
                None => 100,
            }
        }),
{
}

/// Certifications are listed by what a request names, in its normal form.
pub proof fn certification_filters_are_kept(filters: MediaSegmentProviderCertificationFilters)
    requires
        certification_filter_of(filters) is Ok,
    ensures
        ({
            let f = certification_filter_of(filters)->Ok_0;
            &&& filters.provider_id is None ==> f.provider_id is None
            &&& filters.provider_id is Some ==> f.provider_id == Some(text::trim_seq(filters.provider_id->0@))
            &&& filters.provider_kind is None ==> f.provider_kind is None
            &&& filters.provider_kind is Some ==> f.provider_kind == Some(text::snake_seq(filters.provider_kind->0@))
            &&& filters.status is None ==> f.status is None
            &&& filters.status is Some ==> f.status == Some(text::snake_seq(filters.status->0@))
            &&& f.limit == match filters.limit {
                Some(n) => if n < 1 {
                    1
                } else if n > 500 {
                    500
                } else {
                    n
                },
                None => 100,
            }
        }),
{
}

/// Candidates are listed by what a request names, in its normal form.
pub proof fn candidate_filters_are_kept(filters: MediaSegmentCandidateReviewFilters)
    requires
        review_filter_of(filters) is Ok,
    ensures
        ({
            let f = review_filter_of(filters)->Ok_0;
            &&& filters.media_file_id is None ==> f.media_file_id is None
            &&& filters.media_file_id is Some ==> f.media_file_id == Some(text::trim_seq(filters.media_file_id->0@))
            &&& filters.item_type is None ==> f.item_type is None
            &&& filters.item_type is Some ==> f.item_type == Some(text::snake_seq(filters.item_type->0@))
            &&& filters.item_id is None ==> f.item_id is None
            &&& filters.item_id is Some ==> f.item_id == Some(text::trim_seq(filters.item_id->0@))
            &&& filters.segment_type is None ==> f.segment_type is None
            &&& filters.segment_type is Some ==> f.segment_type == Some(text::snake_seq(filters.segment_type->0@))
            &&& filters.provider_kind is None ==> f.provider_kind is None
            &&& filters.provider_kind is Some ==> f.provider_kind == Some(text::snake_seq(filters.provider_kind->0@))
            &&& filters.validation_state is None ==> f.validation_state is None
            &&& filters.validation_state is Some ==> f.validation_state == Some(text::snake_seq(filters.validation_state->0@))
            &&& filters.validation_reason is None ==> f.validation_reason is None
            &&& filters.validation_reason is Some ==> f.validation_reason == Some(text::snake_seq(filters.validation_reason->0@))
            &&& f.limit == match filters.limit {
                Some(n) => if n < 1 {
                    1
                } else if n > 500 {
                    500
                } else {
                    n
                },
                None => 100,
            }
            &&& f.low_confidence <==> filters.low_confidence == Some(true)
        }),
{
}

/// A list of jobs is refused just where a filter that is named has no text, or names a
/// status that there is not.
pub proof fn job_filters_are_refused_without_text(filters: MediaSegmentJobListFilters)
    ensures
        job_filter_of(filters) is Ok <==> {
            &&& filters.status is Some ==> normalize::job_status_filter_of(filters.status->0@) is Ok
            &&& filters.provider_kind is Some ==> text::trim_seq(filters.provider_kind->0@).len()
                > 0
            &&& filters.job_type is Some ==> text::trim_seq(filters.job_type->0@).len() > 0
            &&& filters.scope_type is Some ==> text::trim_seq(filters.scope_type->0@).len() > 0
            &&& filters.scope_id is Some ==> text::trim_seq(filters.scope_id->0@).len() > 0
        },
{
}

/// A filter without text is refused by its name, and an id that is none by its name too.
pub proof fn refused_filters_are_named(value: Seq<char>, field: Seq<char>)
    ensures
        text::trim_seq(value).len() == 0 ==> uuid_text_of(value, field) == Err::<
            Seq<char>,
            Seq<char>,
        >(field + " is required"@),
        text::trim_seq(value).len() > 0 && outside::uuid_shape(text::trim_seq(value))
            ==> uuid_text_of(value, field) == Ok::<Seq<char>, Seq<char>>(text::trim_seq(value)),
        text::trim_seq(value).len() > 0 && !outside::uuid_shape(text::trim_seq(value))
            ==> uuid_text_of(value, field) == Err::<Seq<char>, Seq<char>>(
            field + " must be a valid UUID"@,
        ),
{
}

/// The first filter that is refused names itself.
pub proof fn first_refused_filter_is_named(
    jobs: MediaSegmentJobListFilters,
    review: MediaSegmentCandidateReviewFilters,
    certifications: MediaSegmentProviderCertificationFilters,
)
    ensures
        ({
            let blank = |t: Option<String>| t is Some && text::trim_seq(t->0@).len() == 0;
            let e = job_filter_of(jobs);
            let f = review_filter_of(review);
            let g = certification_filter_of(certifications);
            &&& blank(jobs.status) ==> e is Err && e->Err_0 == "status"@ + " is required"@
            &&& jobs.status is None && blank(jobs.provider_kind) ==> e is Err && e->Err_0
                == "provider_kind"@ + " is required"@
            &&& jobs.status is None && jobs.provider_kind is None && blank(jobs.job_type) ==> e
                is Err && e->Err_0 == "job_type"@ + " is required"@
            &&& jobs.status is None && jobs.provider_kind is None && jobs.job_type is None && blank(
                jobs.scope_type,
            ) ==> e is Err && e->Err_0 == "scope_type"@ + " is required"@
            &&& jobs.status is None && jobs.provider_kind is None && jobs.job_type is None
                && jobs.scope_type is None && blank(jobs.scope_id) ==> e is Err && e->Err_0
                == "scope_id"@ + " is required"@
            &&& blank(review.media_file_id) ==> f is Err && f->Err_0 == "media_file_id"@
                + " is required"@
            &&& review.media_file_id is None && blank(review.item_type) ==> f is Err && f->Err_0
                == "item_type"@ + " is required"@
            &&& review.media_file_id is None && review.item_type is None && blank(review.item_id)
                ==> f is Err && f->Err_0 == "item_id"@ + " is required"@
            &&& review.media_file_id is None && review.item_type is None && review.item_id is None
                && blank(review.segment_type) ==> f is Err && f->Err_0 == "segment_type"@
                + " is required"@
            &&& review.media_file_id is None && review.item_type is None && review.item_id is None
                && review.segment_type is None && blank(review.provider_kind) ==> f is Err
                && f->Err_0 == "provider_kind"@ + " is required"@
            &&& blank(certifications.provider_id) ==> g is Err && g->Err_0 == "provider_id"@
                + " is required"@
        }),
{
}

} // verus!
