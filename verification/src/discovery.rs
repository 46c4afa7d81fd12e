//! Which catalogue services are asked, in what order, and with what token.

use vstd::prelude::*;
use crate::catalogues;
use crate::consts;
use crate::error::{self, opt_text, SegmentError};
use crate::json::{self, Json, JsonValue};
use crate::metadata::{self, DiscoveryResult, Found, MediaIdentity, MediaType};
use crate::reading::as_array;
use crate::text;
use crate::tvdb::{self, map_search_results};

verus! {

/// How the catalogue services are configured.
#[derive(Debug, Clone)]
pub struct MetadataConfig {
    pub enable_anilist: bool,
    pub enable_aniapi: bool,
    pub enable_consumet: bool,
    pub enable_cinemeta: bool,
    pub enable_tvdb: bool,
    pub cinemeta_base_url: String,
    pub tvdb_base_url: String,
    pub tvdb_api_key: Option<String>,
    pub ttl_seconds: u64,
    pub request_timeout_seconds: u64,
}

impl MetadataConfig {
    /// For how long what is known of a work stays good.
    pub fn ttl_seconds(&self) -> (r: u64)
        ensures
            r == self.ttl_seconds,
    {
        self.ttl_seconds
    }
}

/// A service that knows works.
#[derive(Debug, Clone, Copy, PartialEq, Eq, Structural)]
pub enum MetadataSource {
    Anilist,
    Aniapi,
    Consumet,
    Cinemeta,
}

/// `sources` followed by one more where it is switched on.
pub open spec fn with_source(
    sources: Seq<MetadataSource>,
    on: bool,
    source: MetadataSource,
) -> Seq<MetadataSource> {
    if on {
        sources.push(source)
    } else {
        sources
    }
}

/// The services to ask in turn, until one knows the work. A work without the
/// id that its services go by is not looked up.
pub open spec fn sources_of(config: MetadataConfig, identity: MediaIdentity) -> Seq<MetadataSource> {
    match identity.media_type {
        MediaType::Anime => if identity.external_ids.anilist is None {
            Seq::empty()
        } else {
            with_source(
                with_source(
                    with_source(Seq::empty(), config.enable_anilist, MetadataSource::Anilist),
                    config.enable_aniapi,
                    MetadataSource::Aniapi,
                ),
                config.enable_consumet,
                MetadataSource::Consumet,
            )
        },
        _ => if identity.external_ids.imdb is None {
            Seq::empty()
        } else {
            with_source(Seq::empty(), config.enable_cinemeta, MetadataSource::Cinemeta)
        },
    }
}

/// The services to ask in turn, until one knows the work.
pub fn metadata_sources(config: &MetadataConfig, identity: &MediaIdentity) -> (r: Vec<MetadataSource>)
    ensures
        r@ == sources_of(*config, *identity),
{
    let mut out: Vec<MetadataSource> = Vec::new();
    match identity.media_type {
        MediaType::Anime => {
            if identity.external_ids.anilist.is_some() {
                if config.enable_anilist {
                    out.push(MetadataSource::Anilist);
                }
                if config.enable_aniapi {
                    out.push(MetadataSource::Aniapi);
                }
                if config.enable_consumet {
                    out.push(MetadataSource::Consumet);
                }
            }
        },
        _ => {
            if identity.external_ids.imdb.is_some() && config.enable_cinemeta {
                out.push(MetadataSource::Cinemeta);
            }
        },
    }
    out
}

/// A service that is searched.
#[derive(Debug, Clone, Copy, PartialEq, Eq, Structural)]
pub enum DiscoverySource {
    Anilist,
    Tvdb,
    Cinemeta,
}

/// What a search does next.
#[derive(Debug)]
pub enum DiscoveryStep {
    Ask(DiscoverySource),
    Done(Vec<DiscoveryResult>),
}

/// What a search does next, as a mathematical value.
#[verifier::ext_equal]
pub ghost enum Step {
    Ask(DiscoverySource),
    Done(Seq<Found>),
}

impl View for DiscoveryStep {
    type V = Step;

    open spec fn view(&self) -> Step {
        match self {
            DiscoveryStep::Ask(s) => Step::Ask(*s),
            DiscoveryStep::Done(r) => Step::Done(metadata::founds(r@)),
        }
    }
}

/// The kind of work that is searched for where none is asked for.
pub open spec fn requested(media_type: Option<MediaType>) -> MediaType {
    match media_type {
        Some(t) => t,
        None => MediaType::Movie,
    }
}

/// The last service of every search, where it is switched on.
pub open spec fn last_step(config: MetadataConfig) -> Step {
    if config.enable_cinemeta {
        Step::Ask(DiscoverySource::Cinemeta)
    } else {
        Step::Done(Seq::empty())
    }
}

/// The first service of a search.
pub open spec fn first_step(config: MetadataConfig, media_type: MediaType) -> Step {
    match media_type {
        MediaType::Anime => if config.enable_anilist {
            Step::Ask(DiscoverySource::Anilist)
        } else {
            last_step(config)
        },
        _ => Step::Ask(DiscoverySource::Tvdb),
    }
}

/// The step after a service has answered: its works where it found some. A
/// service that failed or found nothing is passed over.
pub open spec fn step_after(
    config: MetadataConfig,
    asked: DiscoverySource,
    answer: Option<Seq<Found>>,
) -> Step {
    if answer is Some && answer->0.len() > 0 {
        Step::Done(answer->0)
    } else if asked is Cinemeta {
        Step::Done(Seq::empty())
    } else {
        last_step(config)
    }
}

/// Some found works that may be absent, as mathematical values.
pub open spec fn opt_founds(v: Option<Vec<DiscoveryResult>>) -> Option<Seq<Found>> {
    match v {
        Some(v) => Some(metadata::founds(v@)),
        None => None,
    }
}

fn last_discovery(config: &MetadataConfig) -> (r: DiscoveryStep)
    ensures
        r@ == last_step(*config),
{
    if config.enable_cinemeta {
        DiscoveryStep::Ask(DiscoverySource::Cinemeta)
    } else {
        let none: Vec<DiscoveryResult> = Vec::new();
        proof {
            assert(metadata::founds(none@) =~= Seq::empty());
        }
        DiscoveryStep::Done(none)
    }
}

/// The first step of a search for works of a kind, films where none is asked
/// for.
pub fn begin_discovery(config: &MetadataConfig, media_type: Option<MediaType>) -> (r: DiscoveryStep)
    ensures
        r@ == first_step(*config, requested(media_type)),
{
    let wanted = match media_type {
        Some(t) => t,
        None => MediaType::Movie,
    };
    match wanted {
        MediaType::Anime => if config.enable_anilist {
            DiscoveryStep::Ask(DiscoverySource::Anilist)
        } else {
            last_discovery(config)
        },
        _ => DiscoveryStep::Ask(DiscoverySource::Tvdb),
    }
}

/// The step of a search after a service has answered, or failed.
pub fn next_discovery(
    config: &MetadataConfig,
    asked: DiscoverySource,
    answer: Option<Vec<DiscoveryResult>>,
) -> (r: DiscoveryStep)
    ensures
        r@ == step_after(*config, asked, opt_founds(answer)),
{
    match answer {
        Some(found) => if found.len() > 0 {
            return DiscoveryStep::Done(found);
        },
        None => {},
    }
    match asked {
        DiscoverySource::Cinemeta => {
            let none: Vec<DiscoveryResult> = Vec::new();
            proof {
                assert(metadata::founds(none@) =~= Seq::empty());
            }
            DiscoveryStep::Done(none)
        },
        _ => last_discovery(config),
    }
}

/// How many services a search may still ask after one.
pub open spec fn remaining(s: DiscoverySource) -> nat {
    if s is Cinemeta {
        0
    } else {
        1
    }
}

/// A search ends: whatever is answered, each further service leaves fewer to
/// ask, and the works that it ends with are those of the service asked last.
pub proof fn searches_end(
    config: MetadataConfig,
    asked: DiscoverySource,
    answer: Option<Seq<Found>>,
)
    ensures
        match step_after(config, asked, answer) {
            Step::Ask(next) => {
                &&& remaining(next) < remaining(asked)
                &&& answer is Some ==> answer->0.len() == 0
            },
            Step::Done(found) => found.len() > 0 ==> answer == Some(found),
        },
{
}

/// Whether the TVDB service is switched on and has an address and a key.
pub open spec fn tvdb_on(config: MetadataConfig) -> bool {
    &&& config.enable_tvdb
    &&& text::trim_seq(config.tvdb_base_url@).len() > 0
    &&& config.tvdb_api_key is Some
    &&& text::trim_seq(config.tvdb_api_key->0@).len() > 0
}

fn blank(s: &str) -> (r: bool)
    ensures
        r == (text::trim_seq(s@).len() == 0),
{
    let t = text::trim(s);
    proof {
        reveal_strlit("");
        if t@.len() == 0 {
            assert(t@ =~= ""@);
        }
    }
    text::str_eq(t.as_str(), "")
}

/// Whether the TVDB service is switched on and has an address and a key.
pub fn tvdb_enabled(config: &MetadataConfig) -> (r: bool)
    ensures
        r == tvdb_on(*config),
{
    config.enable_tvdb && !blank(config.tvdb_base_url.as_str()) && match &config.tvdb_api_key {
        Some(key) => !blank(key.as_str()),
        None => false,
    }
}

/// The parameters of a TVDB search.
pub open spec fn tvdb_parameters(
    config: MetadataConfig,
    query: Seq<char>,
    media_type: MediaType,
) -> Option<Seq<(Seq<char>, Seq<char>)>> {
    if !tvdb_on(config) || text::trim_seq(query).len() == 0 || media_type is Anime {
        None
    } else {
        Some(
            seq![
                ("query"@, text::trim_seq(query)),
                ("type"@, catalogues::kind_name(media_type)),
            ],
        )
    }
}

/// Some parameters of a request, as mathematical values.
pub open spec fn parameters_of(v: Seq<(&'static str, String)>) -> Seq<(Seq<char>, Seq<char>)> {
    v.map_values(|p: (&'static str, String)| (p.0@, p.1@))
}

/// The parameters of a TVDB search; none where the service is not asked.
pub fn tvdb_search_request(config: &MetadataConfig, query: &str, media_type: MediaType) -> (r: Option<
    Vec<(&'static str, String)>,
>)
    ensures
        match r {
            Some(p) => tvdb_parameters(*config, query@, media_type) == Some(parameters_of(p@)),
            None => tvdb_parameters(*config, query@, media_type) is None,
        },
{
    if !tvdb_enabled(config) || blank(query) {
        return None;
    }
    match media_type {
        MediaType::Anime => {
            return None;
        },
        _ => {},
    }
    let mut out: Vec<(&'static str, String)> = Vec::new();
    out.push(("query", text::trim(query)));
    out.push(("type", catalogues::media_kind(media_type).to_owned()));
    proof {
        assert(parameters_of(out@) =~= tvdb_parameters(*config, query@, media_type)->0);
    }
    Some(out)
}

/// The works in a TVDB payload.
pub open spec fn tvdb_found(payload: Option<Json>, query: Seq<char>, media_type: MediaType) -> Seq<Found> {
    match json::json_get_opt(payload, "data"@) {
        Some(Json::Array(items)) => tvdb::found_all(items, query, media_type),
        _ => Seq::empty(),
    }
}

/// The works in a TVDB payload, where there is one.
pub fn tvdb_search_results(payload: Option<&JsonValue>, query: &str, media_type: MediaType) -> (r: Vec<
    DiscoveryResult,
>)
    ensures
        metadata::founds(r@) == tvdb_found(json::opt_json(payload), query@, media_type),
{
    match payload {
        Some(p) => match p.get("data") {
            Some(v) => match as_array(v) {
                Some(items) => {
                    return map_search_results(items, query, media_type);
                },
                None => {},
            },
            None => {},
        },
        None => {},
    }
    let none: Vec<DiscoveryResult> = Vec::new();
    proof {
        assert(metadata::founds(none@) =~= Seq::empty());
    }
    none
}

/// A token of the TVDB service, and the second until which it is good.
#[derive(Debug, Clone)]
pub struct TvdbToken {
    pub token: String,
    pub expires_at: u64,
}

/// Where the token of a request comes from.
#[derive(Debug)]
pub enum TokenPlan {
    /// The service is not asked.
    Without,
    /// The kept token is still good.
    Keep(String),
    /// A new token is asked for.
    Login { url: String, body: JsonValue },
}

/// Where the token of a request comes from, as a mathematical value.
#[verifier::ext_equal]
pub ghost enum TokenStep {
    Without,
    Keep(Seq<char>),
    Login { url: Seq<char>, body: Json },
}

impl View for TokenPlan {
    type V = TokenStep;

    open spec fn view(&self) -> TokenStep {
        match self {
            TokenPlan::Without => TokenStep::Without,
            TokenPlan::Keep(t) => TokenStep::Keep(t@),
            TokenPlan::Login { url, body } => TokenStep::Login { url: url@, body: body@ },
        }
    }
}

/// Where the token of a request comes from at a second.
pub open spec fn token_step(config: MetadataConfig, kept: Option<TvdbToken>, now: u64) -> TokenStep {
    if !tvdb_on(config) {
        TokenStep::Without
    } else if kept is Some && now < kept->0.expires_at {
        TokenStep::Keep(kept->0.token@)
    } else if catalogues::base_of(config.tvdb_base_url@).len() == 0 {
        TokenStep::Without
    } else {
        TokenStep::Login {
            url: catalogues::base_of(config.tvdb_base_url@) + "/login"@,
            body: Json::Object(
                seq![("apikey"@, Json::Text(text::trim_seq(config.tvdb_api_key->0@)))],
            ),
        }
    }
}

/// Where the token of a request comes from at a second.
pub fn plan_tvdb_token(config: &MetadataConfig, kept: &Option<TvdbToken>, now: u64) -> (r: TokenPlan)
    ensures
        r@ == token_step(*config, *kept, now),
{
    if !tvdb_enabled(config) {
        return TokenPlan::Without;
    }
    match kept {
        Some(t) => if now < t.expires_at {
            return TokenPlan::Keep(t.token.clone());
        },
        None => {},
    }
    let base = catalogues::normalize_base_url(config.tvdb_base_url.as_str());
    proof {
        reveal_strlit("");
        if base@.len() == 0 {
            assert(base@ =~= ""@);
        }
    }
    if text::str_eq(base.as_str(), "") {
        return TokenPlan::Without;
    }
    match &config.tvdb_api_key {
        Some(key) => {
            let mut o: Vec<(String, JsonValue)> = Vec::new();
            o.push(("apikey".to_owned(), JsonValue::Text(text::trim(key.as_str()))));
            let url = text::join2(base.as_str(), "/login");
            proof {
                json::lemma_view_object(o);
                assert(json::members_of(o@) =~= seq![
                    ("apikey"@, Json::Text(text::trim_seq(config.tvdb_api_key->0@))),
                ]);
            }
            TokenPlan::Login { url, body: JsonValue::Object(o) }
        },
        None => TokenPlan::Without,
    }
}

/// The token that a login gave at a second, or why it gave none.
pub open spec fn login_outcome(
    success: bool,
    status: Seq<char>,
    token: Option<Seq<char>>,
    now: u64,
) -> Result<(Seq<char>, int), Seq<char>> {
    if !success {
        Err("tvdb login failed "@ + status)
    } else {
        match token {
            Some(t) => Ok((t, now + consts::TVDB_TOKEN_TTL_SECONDS)),
            None => Err("tvdb login response missing token"@),
        }
    }
}

/// The token that a login gave at a second, or why it gave none. `status` is
/// the status of the reply in words, and `token` what its payload holds.
pub fn conclude_tvdb_login(success: bool, status: &str, token: Option<String>, now: u64) -> (r: Result<
    TvdbToken,
    SegmentError,
>)
    requires
        now + consts::TVDB_TOKEN_TTL_SECONDS <= u64::MAX,
    ensures
        match (r, login_outcome(success, status@, opt_text(token), now)) {
            (Ok(t), Ok((text, until))) => t.token@ == text && t.expires_at == until,
            (Err(e), Err(m)) => e.message@ == m,
            _ => false,
        },
{
    if !success {
        return Err(SegmentError { message: text::join2("tvdb login failed ", status) });
    }
    match token {
        Some(token) => Ok(
            TvdbToken { token, expires_at: now + consts::TVDB_TOKEN_TTL_SECONDS },
        ),
        None => Err(error::refuse("tvdb login response missing token")),
    }
}

/// What a reply of the TVDB service asks for.
#[derive(Debug)]
pub enum TvdbReply {
    /// The token is dropped and the request made once more.
    Renew,
    /// Nothing is known.
    Unknown,
    /// The payload is read.
    Read,
}

/// What a reply asks for, or why it is refused.
pub open spec fn reply_step(code: u16, status: Seq<char>, renewed: bool) -> Result<TvdbReply, Seq<char>> {
    if code == 401 && !renewed {
        Ok(TvdbReply::Renew)
    } else if code == 404 {
        Ok(TvdbReply::Unknown)
    } else if 200 <= code < 300 {
        Ok(TvdbReply::Read)
    } else {
        Err("tvdb returned "@ + status)
    }
}

/// What a reply with a status asks for. `renewed` says that the token was
/// renewed already, and `status` is the status in words.
pub fn conclude_tvdb_reply(code: u16, status: &str, renewed: bool) -> (r: Result<
    TvdbReply,
    SegmentError,
>)
    ensures
        match (r, reply_step(code, status@, renewed)) {
            (Ok(a), Ok(b)) => a == b,
            (Err(e), Err(m)) => e.message@ == m,
            _ => false,
        },
{
    if code == 401 && !renewed {
        Ok(TvdbReply::Renew)
    } else if code == 404 {
        Ok(TvdbReply::Unknown)
    } else if 200 <= code && code < 300 {
        Ok(TvdbReply::Read)
    } else {
        Err(SegmentError { message: text::join2("tvdb returned ", status) })
    }
}

/// A request is made anew at most once, whatever the replies.
pub proof fn tokens_are_renewed_once(code: u16, status: Seq<char>)
    ensures
        reply_step(code, status, true) != Ok::<TvdbReply, Seq<char>>(TvdbReply::Renew),
{
}

/// A token that a login gave is kept in use until it runs out, and no longer.
pub proof fn kept_tokens_are_good(config: MetadataConfig, kept: TvdbToken, now: u64)
    requires
        tvdb_on(config),
    ensures
        now < kept.expires_at ==> token_step(config, Some(kept), now) == TokenStep::Keep(kept.token@),
        now >= kept.expires_at ==> !(token_step(config, Some(kept), now) is Keep),
{
}

/// The services that are asked about a work: for anime that AniList knows, AniList,
/// AniAPI and Consumet in this order, and for a film or series with an IMDb id
/// Cinemeta, each where it is switched on; none for any other.
pub proof fn works_are_looked_up_by_their_id(config: MetadataConfig, identity: MediaIdentity)
    ensures
        ({
            let s = sources_of(config, identity);
            let anime = identity.media_type is Anime && identity.external_ids.anilist is Some;
            let film = !(identity.media_type is Anime) && identity.external_ids.imdb is Some;
            &&& s.contains(MetadataSource::Anilist) <==> anime && config.enable_anilist
            &&& s.contains(MetadataSource::Aniapi) <==> anime && config.enable_aniapi
            &&& s.contains(MetadataSource::Consumet) <==> anime && config.enable_consumet
            &&& s.contains(MetadataSource::Cinemeta) <==> film && config.enable_cinemeta
            &&& forall|i: int|
                0 <= i < s.len() && #[trigger] s[i] == MetadataSource::Anilist ==> i == 0
            &&& forall|i: int|
                0 <= i < s.len() && #[trigger] s[i] == MetadataSource::Consumet ==> i == s.len() - 1
            &&& s.len() <= 3
        }),
{
    let s = sources_of(config, identity);
    let anime = identity.media_type is Anime && identity.external_ids.anilist is Some;
    let film = !(identity.media_type is Anime) && identity.external_ids.imdb is Some;
    let none = Seq::<MetadataSource>::empty();
    if anime {
        let a = with_source(none, config.enable_anilist, MetadataSource::Anilist);
        let b = with_source(a, config.enable_aniapi, MetadataSource::Aniapi);
        assert(s == with_source(b, config.enable_consumet, MetadataSource::Consumet));
        if config.enable_anilist {
            assert(s[0] == MetadataSource::Anilist);
        }
        if config.enable_aniapi {
            assert(s[b.len() - 1] == MetadataSource::Aniapi);
        }
        if config.enable_consumet {
            assert(s[s.len() - 1] == MetadataSource::Consumet);
        }
    } else if film && config.enable_cinemeta {
        assert(s[0] == MetadataSource::Cinemeta);
    } else {
        assert(s =~= none);
    }
}

/// A search begins at AniList for anime where that is on, and at TVDB for anything else;
/// a service that found something ends it, and one that found nothing or failed hands it
/// on to Cinemeta where that is on and was not asked yet.
pub proof fn searches_go_on_to_cinemeta(
    config: MetadataConfig,
    media_type: Option<MediaType>,
    asked: DiscoverySource,
    answer: Option<Seq<Found>>,
)
    ensures
        media_type == Some(MediaType::Anime) && config.enable_anilist ==> first_step(
            config,
            requested(media_type),
        ) == Step::Ask(DiscoverySource::Anilist),
        media_type == Some(MediaType::Anime) && !config.enable_anilist && config.enable_cinemeta
            ==> first_step(config, requested(media_type)) == Step::Ask(DiscoverySource::Cinemeta),
        media_type != Some(MediaType::Anime) ==> first_step(config, requested(media_type))
            == Step::Ask(DiscoverySource::Tvdb),
        media_type is None ==> requested(media_type) == MediaType::Movie,
        answer is Some && answer->0.len() > 0 ==> step_after(config, asked, answer) == Step::Done(
            answer->0,
        ),
        (answer is None || answer->0.len() == 0) && asked != DiscoverySource::Cinemeta
            && config.enable_cinemeta ==> step_after(config, asked, answer) == Step::Ask(
            DiscoverySource::Cinemeta,
        ),
        (answer is None || answer->0.len() == 0) && (asked == DiscoverySource::Cinemeta
            || !config.enable_cinemeta) ==> step_after(config, asked, answer) == Step::Done(
            Seq::empty(),
        ),
{
}

/// TVDB is asked where it is switched on and has an address and a key, for films and
/// series and never for anime, by the text that is searched for.
pub proof fn tvdb_is_asked_where_it_is_on(
    config: MetadataConfig,
    query: Seq<char>,
    media_type: MediaType,
)
    ensures
        tvdb_on(config) <==> config.enable_tvdb && text::trim_seq(config.tvdb_base_url@).len() > 0
            && config.tvdb_api_key is Some && text::trim_seq(config.tvdb_api_key->0@).len() > 0,
        tvdb_parameters(config, query, media_type) is Some <==> tvdb_on(config) && text::trim_seq(
            query,
        ).len() > 0 && media_type != MediaType::Anime,
        tvdb_parameters(config, query, media_type) is Some ==> {
            let p = tvdb_parameters(config, query, media_type)->0;
            &&& p.len() == 2
            &&& p[0] == ("query"@, text::trim_seq(query))
            &&& media_type == MediaType::Movie ==> p[1] == ("type"@, "movie"@)
            &&& media_type == MediaType::Series ==> p[1] == ("type"@, "series"@)
        },
{
}

/// A token of TVDB comes from a login with the key, is good for twelve hours, and is
/// kept in use until then.
pub proof fn tokens_last_twelve_hours(
    config: MetadataConfig,
    kept: Option<TvdbToken>,
    now: u64,
    success: bool,
    status: Seq<char>,
    token: Option<Seq<char>>,
)
    ensures
        success && token is Some ==> login_outcome(success, status, token, now) == Ok::<
            (Seq<char>, int),
            Seq<char>,
        >((token->0, now + 43_200)),
        success && token is None ==> login_outcome(success, status, token, now) is Err,
        !success ==> login_outcome(success, status, token, now) == Err::<
            (Seq<char>, int),
            Seq<char>,
        >("tvdb login failed "@ + status),
        !tvdb_on(config) ==> token_step(config, kept, now) is Without,
        tvdb_on(config) && (kept is None || now >= kept->0.expires_at) ==> match token_step(
            config,
            kept,
            now,
        ) {
            TokenStep::Login { url, body } => text::has_suffix_seq(url, "/login"@)
                && json::json_get(body, "apikey"@) == Some(
                Json::Text(text::trim_seq(config.tvdb_api_key->0@)),
            ),
            TokenStep::Without => catalogues::base_of(config.tvdb_base_url@).len() == 0,
            TokenStep::Keep(_) => false,
        },
{
    if tvdb_on(config) {
        let m = seq![("apikey"@, Json::Text(text::trim_seq(config.tvdb_api_key->0@)))];
        json::lemma_lookup_at(m, "apikey"@, 0);
        let base = catalogues::base_of(config.tvdb_base_url@);
        let url = base + "/login"@;
        assert(url.skip(url.len() - "/login"@.len()) =~= "/login"@);
    }
}

/// A reply of TVDB that the token is not good has it renewed, once; a page that is not
/// found means that nothing is known; a success is read, and anything else refused.
pub proof fn replies_of_tvdb(code: u16, status: Seq<char>, renewed: bool)
    ensures
        reply_step(code, status, renewed) == Ok::<TvdbReply, Seq<char>>(TvdbReply::Renew) <==> code
            == 401 && !renewed,
        reply_step(code, status, renewed) == Ok::<TvdbReply, Seq<char>>(TvdbReply::Unknown) <==> code
            == 404,
        reply_step(code, status, renewed) == Ok::<TvdbReply, Seq<char>>(TvdbReply::Read) <==> 200
            <= code <= 299,
        reply_step(code, status, renewed) is Err ==> reply_step(code, status, renewed)->Err_0
            == "tvdb returned "@ + status,
{
}

/// A login that gave no token says so, and the works of a payload are those of its data.
pub proof fn logins_without_a_token(
    status: Seq<char>,
    now: u64,
    payload: Json,
    items: Seq<Json>,
    query: Seq<char>,
    media_type: MediaType,
)
    ensures
        login_outcome(true, status, None, now) == Err::<(Seq<char>, int), Seq<char>>(
            "tvdb login response missing token"@,
        ),
        json::json_get(payload, "data"@) == Some(Json::Array(items)) ==> tvdb_found(
            Some(payload),
            query,
            media_type,
        ) == tvdb::found_all(items, query, media_type),
        json::json_get(payload, "data"@) is None ==> tvdb_found(
            Some(payload),
            query,
            media_type,
        ).len() == 0,
        tvdb_found(None, query, media_type).len() == 0,
{
}

} // verus!
