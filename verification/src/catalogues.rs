//! Works in the Cinemeta, AniList and AniAPI catalogues.

use vstd::prelude::*;
use vstd::utf8::encode_utf8;
use crate::error::opt_text;
use crate::json::{self, opt_text_value, set_member, value_or_null, Json, JsonValue};
use crate::marketplace::{self, texts_value};
use crate::metadata::{
    self, dup_text, dup_texts, find_first_score, trimmed_text, DiscoveryResult, ExternalIds, Found, Ids,
    Known, MediaIdentity, MediaType, MetadataResult,
};
use crate::number;
use crate::outside;
use crate::quantity::Quantity;
use crate::reading::{self, find_first_member};
use crate::settings::{self, whole_value};
use crate::text;
use crate::tvdb::{self, find_whole_year};

verus! {

/// The address without white space around it or slashes at its end.
pub open spec fn base_of(base_url: Seq<char>) -> Seq<char> {
    text::trim_end_char_seq(text::trim_seq(base_url), '/')
}

/// The address without white space around it or slashes at its end.
pub fn normalize_base_url(base_url: &str) -> (r: String)
    ensures
        r@ == base_of(base_url@),
{
    text::trim_end_char(text::trim(base_url).as_str(), '/')
}

/// The name of a kind of work in an address.
pub open spec fn kind_name(media_type: MediaType) -> Seq<char> {
    match media_type {
        MediaType::Movie => "movie"@,
        _ => "series"@,
    }
}

/// The name of a kind of work in an address.
pub fn media_kind(media_type: MediaType) -> (r: &'static str)
    ensures
        r@ == kind_name(media_type),
{
    match media_type {
        MediaType::Movie => "movie",
        _ => "series",
    }
}

/// The address of a search for a title.
pub open spec fn cinemeta_search_address(
    query: Seq<char>,
    media_type: MediaType,
    base_url: Seq<char>,
) -> Option<Seq<char>> {
    if base_of(base_url).len() == 0 {
        None
    } else {
        Some(
            base_of(base_url) + "/meta/"@ + kind_name(media_type) + "/search="@
                + outside::percent_encoded(encode_utf8(query)) + ".json"@,
        )
    }
}

/// The address of what is known of a work: by its IMDb id where it has one,
/// else by its title.
pub open spec fn cinemeta_address(
    media_type: MediaType,
    title: Seq<char>,
    imdb: Option<Seq<char>>,
    base_url: Seq<char>,
) -> Option<Seq<char>> {
    match imdb {
        Some(id) => if base_of(base_url).len() == 0 {
            None
        } else {
            Some(
                base_of(base_url) + "/meta/"@ + kind_name(media_type) + "/"@ + id + ".json"@,
            )
        },
        None => cinemeta_search_address(title, media_type, base_url),
    }
}

fn is_empty_text(s: &str) -> (r: bool)
    ensures
        r == (s@.len() == 0),
{
    proof {
        reveal_strlit("");
        if s@.len() == 0 {
            assert(s@ =~= ""@);
        }
    }
    text::str_eq(s, "")
}

/// The address of a search for a title; none where no address is configured.
pub fn cinemeta_search_url(query: &str, media_type: MediaType, base_url: &str) -> (r: Option<String>)
    ensures
        opt_text(r) == cinemeta_search_address(query@, media_type, base_url@),
{
    let base = normalize_base_url(base_url);
    if is_empty_text(base.as_str()) {
        return None;
    }
    let encoded = outside::url_encode(query);
    let mut url = base;
    url.append("/meta/");
    url.append(media_kind(media_type));
    url.append("/search=");
    url.append(encoded.as_str());
    url.append(".json");
    Some(url)
}

/// The address of what is known of a work; none where no address is
/// configured.
pub fn cinemeta_fetch_url(identity: &MediaIdentity, base_url: &str) -> (r: Option<String>)
    ensures
        opt_text(r) == cinemeta_address(
            identity.media_type,
            identity.title@,
            opt_text(identity.external_ids.imdb),
            base_url@,
        ),
{
    match &identity.external_ids.imdb {
        Some(imdb) => {
            let base = normalize_base_url(base_url);
            if is_empty_text(base.as_str()) {
                return None;
            }
            let mut url = base;
            url.append("/meta/");
            url.append(media_kind(identity.media_type));
            url.append("/");
            url.append(imdb.as_str());
            url.append(".json");
            Some(url)
        },
        None => cinemeta_search_url(identity.title.as_str(), identity.media_type, base_url),
    }
}

/// A work in the Cinemeta catalogue.
#[derive(Debug, Clone)]
pub struct CineMetaItem {
    pub imdb_id: Option<String>,
    /// In minutes.
    pub runtime: Option<i32>,
    pub description: Option<String>,
    pub genres: Option<Vec<String>>,
    pub year: Option<i32>,
    /// All other members.
    pub rest: JsonValue,
}

/// A whole number that may be absent, in JSON.
pub open spec fn opt_whole_json(n: Option<i32>) -> Json {
    match n {
        Some(n) => settings::whole_json(n as i64),
        None => Json::Null,
    }
}

fn opt_whole_value(n: Option<i32>) -> (v: JsonValue)
    ensures
        v@ == opt_whole_json(n),
{
    match n {
        Some(n) => whole_value(n as i64),
        None => JsonValue::Null,
    }
}

/// Texts that may be absent, in JSON.
pub open spec fn opt_texts_json(t: Option<Seq<Seq<char>>>) -> Json {
    match t {
        Some(t) => marketplace::texts_json(t),
        None => Json::Null,
    }
}

fn opt_texts_value(t: &Option<Vec<String>>) -> (v: JsonValue)
    ensures
        v@ == opt_texts_json(metadata::opt_texts(*t)),
{
    match t {
        Some(t) => texts_value(t),
        None => JsonValue::Null,
    }
}

/// `members` with every one of `more` set in turn.
pub open spec fn with_members(
    members: Seq<(Seq<char>, Json)>,
    more: Seq<(Seq<char>, Json)>,
) -> Seq<(Seq<char>, Json)>
    decreases more.len(),
{
    if more.len() == 0 {
        members
    } else {
        json::with_member(with_members(members, more.drop_last()), more.last().0, more.last().1)
    }
}

/// The members of a Cinemeta work that have names of their own.
pub open spec fn cinemeta_members(item: CineMetaItem) -> Seq<(Seq<char>, Json)> {
    seq![
        ("description"@, json::opt_text_json(opt_text(item.description))),
        ("genres"@, opt_texts_json(metadata::opt_texts(item.genres))),
        ("imdb_id"@, json::opt_text_json(opt_text(item.imdb_id))),
        ("runtime"@, opt_whole_json(item.runtime)),
        ("year"@, opt_whole_json(item.year)),
    ]
}

/// A Cinemeta work as one JSON object.
pub open spec fn cinemeta_json(item: CineMetaItem) -> Json {
    Json::Object(with_members(cinemeta_members(item), json::json_members(item.rest@)))
}

fn cinemeta_value(item: &CineMetaItem) -> (v: JsonValue)
    ensures
        v@ == cinemeta_json(*item),
{
    let mut o: Vec<(String, JsonValue)> = Vec::new();
    o.push(("description".to_owned(), opt_text_value(&item.description)));
    o.push(("genres".to_owned(), opt_texts_value(&item.genres)));
    o.push(("imdb_id".to_owned(), opt_text_value(&item.imdb_id)));
    o.push(("runtime".to_owned(), opt_whole_value(item.runtime)));
    o.push(("year".to_owned(), opt_whole_value(item.year)));
    let ghost own = cinemeta_members(*item);
    let rest = json::members_dup(&item.rest);
    let ghost more = json::members_of(rest@);
    proof {
        assert(json::members_of(o@) =~= own);
        assert(more.take(0) =~= Seq::empty());
    }
    let mut i: usize = 0;
    while i < rest.len()
        invariant
            i <= rest@.len(),
            more == json::members_of(rest@),
            json::members_of(o@) == with_members(own, more.take(i as int)),
        decreases rest@.len() - i,
    {
        proof {
            assert(more.take(i + 1).drop_last() =~= more.take(i as int));
            assert(more.take(i + 1).last() == (rest@[i as int].0@, rest@[i as int].1@));
        }
        set_member(&mut o, rest[i].0.as_str(), rest[i].1.dup());
        i += 1;
    }
    proof {
        assert(more.take(i as int) =~= more);
        json::lemma_view_object(o);
    }
    JsonValue::Object(o)
}

/// The seconds in some minutes.
pub open spec fn minutes_seconds(m: Option<i32>) -> Option<int> {
    match m {
        Some(m) => Some(m * 60),
        None => None,
    }
}

/// The seconds of some minutes for each of some episodes; of one where their
/// number is not known.
pub open spec fn episodes_seconds(minutes: Option<i32>, episodes: Option<i32>) -> Option<int> {
    match (minutes, episodes) {
        (Some(d), Some(e)) => Some(d * 60 * e),
        (Some(d), None) => Some(d * 60),
        _ => None,
    }
}

/// Whether a number of seconds, where there is one, can be held.
pub open spec fn holds_seconds(s: Option<int>) -> bool {
    s is Some ==> i32::MIN <= s->0 <= i32::MAX
}

/// A number of seconds as it is held.
pub open spec fn held_seconds(s: Option<int>) -> Option<i32> {
    match s {
        Some(n) => Some(n as i32),
        None => None,
    }
}

/// What the catalogue says of a work that was looked up by its id.
pub open spec fn cinemeta_known(item: CineMetaItem) -> Known {
    Known {
        metadata_json: cinemeta_json(item),
        runtime_seconds: held_seconds(minutes_seconds(item.runtime)),
        external_ids: Some(Ids { imdb: opt_text(item.imdb_id), ..metadata::no_ids() }),
        description: opt_text(item.description),
        genres: metadata::opt_texts(item.genres),
    }
}

/// What the catalogue says of a work that was looked up by its id.
pub fn cinemeta_metadata(item: &CineMetaItem) -> (r: MetadataResult)
    requires
        holds_seconds(minutes_seconds(item.runtime)),
    ensures
        r@ == cinemeta_known(*item),
{
    let mut ids = ExternalIds::none();
    ids.imdb = dup_text(&item.imdb_id);
    MetadataResult {
        metadata_json: cinemeta_value(item),
        runtime_seconds: match item.runtime {
            Some(m) => Some(m * 60),
            None => None,
        },
        external_ids: Some(ids),
        description: dup_text(&item.description),
        genres: dup_texts(&item.genres),
    }
}

/// What the catalogue says of the last of the works that a title search found.
pub open spec fn cinemeta_found_known(items: Seq<CineMetaItem>) -> Option<Known> {
    if items.len() == 0 {
        None
    } else {
        let item = items.last();
        Some(
            Known {
                external_ids: match item.imdb_id {
                    Some(id) => Some(Ids { imdb: Some(id@), ..metadata::no_ids() }),
                    None => None,
                },
                ..cinemeta_known(item)
            },
        )
    }
}

/// What the catalogue says of the last of the works that a title search found.
pub fn cinemeta_search_metadata(items: &Vec<CineMetaItem>) -> (r: Option<MetadataResult>)
    requires
        items@.len() > 0 ==> holds_seconds(minutes_seconds(items@.last().runtime)),
    ensures
        match r {
            Some(m) => cinemeta_found_known(items@) == Some(m@),
            None => cinemeta_found_known(items@) is None,
        },
{
    if items.len() == 0 {
        return None;
    }
    let item = &items[items.len() - 1];
    let mut known = cinemeta_metadata(item);
    if item.imdb_id.is_none() {
        known.external_ids = None;
    }
    Some(known)
}

pub open spec fn cinemeta_title_names() -> Seq<Seq<char>> {
    seq!["name"@, "title"@]
}

/// The text under the first of some names that is there, or another text.
pub open spec fn text_or(j: Json, keys: Seq<Seq<char>>, other: Seq<char>) -> Seq<char> {
    match reading::first_member(j, keys) {
        Some(Json::Text(s)) => s,
        _ => other,
    }
}

fn find_text_or(value: &JsonValue, keys: &Vec<&str>, other: &str) -> (r: String)
    ensures
        r@ == text_or(value@, reading::names(keys@), other@),
{
    match find_first_member(value, keys) {
        Some(v) => match v.as_text() {
            Some(s) => s.clone(),
            None => other.to_owned(),
        },
        None => other.to_owned(),
    }
}

/// A Cinemeta work that a search found.
pub open spec fn cinemeta_found(item: CineMetaItem, query: Seq<char>, media_type: MediaType) -> Found {
    Found {
        title: text_or(item.rest@, cinemeta_title_names(), query),
        media_type,
        year: match item.year {
            Some(y) => Some(y),
            None => tvdb::whole_year(item.rest@, "year"@),
        },
        external_ids: Some(Ids { imdb: opt_text(item.imdb_id), ..metadata::no_ids() }),
        description: opt_text(item.description),
        poster_url: None,
        popularity_score: None,
    }
}

fn cinemeta_result(item: &CineMetaItem, query: &str, media_type: MediaType) -> (r: DiscoveryResult)
    ensures
        r@ == cinemeta_found(*item, query@, media_type),
{
    let keys: Vec<&str> = vec!["name", "title"];
    proof {
        assert(reading::names(keys@) =~= cinemeta_title_names());
    }
    let mut ids = ExternalIds::none();
    ids.imdb = dup_text(&item.imdb_id);
    DiscoveryResult {
        title: find_text_or(&item.rest, &keys, query),
        media_type,
        year: match item.year {
            Some(y) => Some(y),
            None => find_whole_year(&item.rest, "year"),
        },
        external_ids: Some(ids),
        description: dup_text(&item.description),
        poster_url: None,
        popularity_score: None,
    }
}

/// The Cinemeta works that a search found, in their order.
pub fn cinemeta_search_results(items: &Vec<CineMetaItem>, query: &str, media_type: MediaType) -> (r: Vec<
    DiscoveryResult,
>)
    ensures
        metadata::founds(r@) == items@.map_values(
            |i: CineMetaItem| cinemeta_found(i, query@, media_type),
        ),
{
    let mut out: Vec<DiscoveryResult> = Vec::new();
    let mut i: usize = 0;
    while i < items.len()
        invariant
            i <= items@.len(),
            out@.len() == i,
            forall|j: int|
                0 <= j < i ==> #[trigger] out@[j]@ == cinemeta_found(items@[j], query@, media_type),
        decreases items@.len() - i,
    {
        out.push(cinemeta_result(&items[i], query, media_type));
        i += 1;
    }
    proof {
        assert(metadata::founds(out@) =~= items@.map_values(
            |i: CineMetaItem| cinemeta_found(i, query@, media_type),
        ));
    }
    out
}

/// The trimmed text under the first of some names that is there.
pub open spec fn shown_under(j: Json, keys: Seq<Seq<char>>) -> Option<Seq<char>> {
    match reading::first_member(j, keys) {
        Some(v) => metadata::shown_text(v),
        None => None,
    }
}

fn find_shown(value: &JsonValue, keys: &Vec<&str>) -> (r: Option<String>)
    ensures
        opt_text(r) == shown_under(value@, reading::names(keys@)),
{
    match find_first_member(value, keys) {
        Some(v) => trimmed_text(v),
        None => None,
    }
}

pub open spec fn cinemeta_poster_names() -> Seq<Seq<char>> {
    seq!["poster"@, "posterUrl"@, "image"@, "thumbnail"@]
}

/// The address of a Cinemeta work's poster.
pub fn extract_poster_url(rest: &JsonValue) -> (r: Option<String>)
    ensures
        opt_text(r) == shown_under(rest@, cinemeta_poster_names()),
{
    let keys: Vec<&str> = vec!["poster", "posterUrl", "image", "thumbnail"];
    proof {
        assert(reading::names(keys@) =~= cinemeta_poster_names());
    }
    find_shown(rest, &keys)
}

pub open spec fn cinemeta_score_names() -> Seq<Seq<char>> {
    seq!["popularity"@, "imdbRating"@, "rank"@, "votes"@]
}

/// How popular a Cinemeta work is.
pub fn extract_popularity_score(rest: &JsonValue) -> (r: Option<Quantity>)
    ensures
        r == metadata::first_score(rest@, cinemeta_score_names()),
{
    let keys: Vec<&str> = vec!["popularity", "imdbRating", "rank", "votes"];
    proof {
        assert(reading::names(keys@) =~= cinemeta_score_names());
    }
    find_first_score(rest, &keys)
}

/// A work in the AniList catalogue.
#[derive(Debug, Clone)]
pub struct MediaItem {
    pub id: i32,
    pub title: Option<JsonValue>,
    pub episodes: Option<i32>,
    /// Of one episode, in minutes.
    pub duration: Option<i32>,
    pub format: Option<String>,
    pub description: Option<String>,
    pub genres: Option<Vec<String>>,
    pub start_date: Option<JsonValue>,
    pub cover_image: Option<JsonValue>,
    pub banner_image: Option<String>,
    pub popularity: Option<i32>,
}

/// An AniList work as one JSON object.
pub open spec fn anilist_json(m: MediaItem) -> Json {
    Json::Object(
        seq![
            ("bannerImage"@, json::opt_text_json(opt_text(m.banner_image))),
            ("coverImage"@, json::json_or_null(json::opt_value(m.cover_image))),
            ("description"@, json::opt_text_json(opt_text(m.description))),
            ("duration"@, opt_whole_json(m.duration)),
            ("episodes"@, opt_whole_json(m.episodes)),
            ("format"@, json::opt_text_json(opt_text(m.format))),
            ("genres"@, opt_texts_json(metadata::opt_texts(m.genres))),
            ("id"@, settings::whole_json(m.id as i64)),
            ("popularity"@, opt_whole_json(m.popularity)),
            ("startDate"@, json::json_or_null(json::opt_value(m.start_date))),
            ("title"@, json::json_or_null(json::opt_value(m.title))),
        ],
    )
}

fn anilist_value(m: &MediaItem) -> (v: JsonValue)
    ensures
        v@ == anilist_json(*m),
{
    let mut o: Vec<(String, JsonValue)> = Vec::new();
    o.push(("bannerImage".to_owned(), opt_text_value(&m.banner_image)));
    o.push(("coverImage".to_owned(), value_or_null(&m.cover_image)));
    o.push(("description".to_owned(), opt_text_value(&m.description)));
    o.push(("duration".to_owned(), opt_whole_value(m.duration)));
    o.push(("episodes".to_owned(), opt_whole_value(m.episodes)));
    o.push(("format".to_owned(), opt_text_value(&m.format)));
    o.push(("genres".to_owned(), opt_texts_value(&m.genres)));
    o.push(("id".to_owned(), whole_value(m.id as i64)));
    o.push(("popularity".to_owned(), opt_whole_value(m.popularity)));
    o.push(("startDate".to_owned(), value_or_null(&m.start_date)));
    o.push(("title".to_owned(), value_or_null(&m.title)));
    proof {
        json::lemma_view_object(o);
        assert(json::members_of(o@) =~= anilist_json(*m)->Object_0);
    }
    JsonValue::Object(o)
}

/// What AniList says of a work.
pub open spec fn anilist_known(m: MediaItem) -> Known {
    Known {
        metadata_json: anilist_json(m),
        runtime_seconds: held_seconds(episodes_seconds(m.duration, m.episodes)),
        external_ids: Some(
            Ids { anilist: Some(text::decimal_int(m.id as int)), ..metadata::no_ids() },
        ),
        description: opt_text(m.description),
        genres: metadata::opt_texts(m.genres),
    }
}

/// Whether the time of a work's episodes can be worked out and held.
pub open spec fn holds_runtime(minutes: Option<i32>, episodes: Option<i32>) -> bool {
    &&& holds_seconds(minutes_seconds(minutes))
    &&& holds_seconds(episodes_seconds(minutes, episodes))
}

fn episodes_runtime(minutes: Option<i32>, episodes: Option<i32>) -> (r: Option<i32>)
    requires
        holds_runtime(minutes, episodes),
    ensures
        r == held_seconds(episodes_seconds(minutes, episodes)),
{
    match minutes {
        Some(d) => match episodes {
            Some(e) => {
                let each: i32 = d * 60;
                Some(each * e)
            },
            None => Some(d * 60),
        },
        None => None,
    }
}

/// What AniList says of a work.
pub fn metadata_from_media(media: &MediaItem) -> (r: MetadataResult)
    requires
        holds_runtime(media.duration, media.episodes),
    ensures
        r@ == anilist_known(*media),
{
    let mut ids = ExternalIds::none();
    ids.anilist = Some(text::i64_text(media.id as i64));
    MetadataResult {
        metadata_json: anilist_value(media),
        runtime_seconds: episodes_runtime(media.duration, media.episodes),
        external_ids: Some(ids),
        description: dup_text(&media.description),
        genres: dup_texts(&media.genres),
    }
}

pub open spec fn cover_names() -> Seq<Seq<char>> {
    seq!["extraLarge"@, "large"@, "medium"@]
}

/// The address of an AniList work's cover.
pub fn extract_cover_image_url(media: &MediaItem) -> (r: Option<String>)
    ensures
        opt_text(r) == match media.cover_image {
            Some(v) => shown_under(v@, cover_names()),
            None => None,
        },
{
    let keys: Vec<&str> = vec!["extraLarge", "large", "medium"];
    proof {
        assert(reading::names(keys@) =~= cover_names());
    }
    match &media.cover_image {
        Some(v) => find_shown(v, &keys),
        None => None,
    }
}

pub open spec fn anilist_title_names() -> Seq<Seq<char>> {
    seq!["romaji"@, "english"@, "native"@]
}

/// An AniList work that a search found.
pub open spec fn anilist_found(m: MediaItem, query: Seq<char>) -> Found {
    Found {
        title: match m.title {
            Some(t) => text_or(t@, anilist_title_names(), query),
            None => query,
        },
        media_type: MediaType::Anime,
        year: match m.start_date {
            Some(d) => tvdb::whole_year(d@, "year"@),
            None => None,
        },
        external_ids: Some(
            Ids { anilist: Some(text::decimal_int(m.id as int)), ..metadata::no_ids() },
        ),
        description: opt_text(m.description),
        poster_url: None,
        popularity_score: None,
    }
}

fn anilist_result(media: &MediaItem, query: &str) -> (r: DiscoveryResult)
    ensures
        r@ == anilist_found(*media, query@),
{
    let keys: Vec<&str> = vec!["romaji", "english", "native"];
    proof {
        assert(reading::names(keys@) =~= anilist_title_names());
    }
    let mut ids = ExternalIds::none();
    ids.anilist = Some(text::i64_text(media.id as i64));
    DiscoveryResult {
        title: match &media.title {
            Some(t) => find_text_or(t, &keys, query),
            None => query.to_owned(),
        },
        media_type: MediaType::Anime,
        year: match &media.start_date {
            Some(d) => find_whole_year(d, "year"),
            None => None,
        },
        external_ids: Some(ids),
        description: dup_text(&media.description),
        poster_url: None,
        popularity_score: None,
    }
}

/// The AniList works that a search found, in their order.
pub fn anilist_search_results(items: &Vec<MediaItem>, query: &str) -> (r: Vec<DiscoveryResult>)
    ensures
        metadata::founds(r@) == items@.map_values(|m: MediaItem| anilist_found(m, query@)),
{
    let mut out: Vec<DiscoveryResult> = Vec::new();
    let mut i: usize = 0;
    while i < items.len()
        invariant
            i <= items@.len(),
            out@.len() == i,
            forall|j: int| 0 <= j < i ==> #[trigger] out@[j]@ == anilist_found(items@[j], query@),
        decreases items@.len() - i,
    {
        out.push(anilist_result(&items[i], query));
        i += 1;
    }
    proof {
        assert(metadata::founds(out@) =~= items@.map_values(|m: MediaItem| anilist_found(m, query@)));
    }
    out
}

/// The whole number that a text stands for, with an optional sign, where it
/// can be held.
pub open spec fn whole_in(s: Seq<char>) -> Option<i32> {
    let body = number::unsigned(s);
    let value = number::digits_value(body);
    let signed = if number::negative(s) {
        -value
    } else {
        value
    };
    if body.len() > 0 && (forall|i: int| 0 <= i < body.len() ==> '0' <= #[trigger] body[i] <= '9')
        && i32::MIN <= signed <= i32::MAX {
        Some(signed as i32)
    } else {
        None
    }
}

/// More digits do not make a number smaller.
proof fn lemma_digits_grow(s: Seq<char>, k: int)
    requires
        0 <= k <= s.len(),
        forall|i: int| 0 <= i < s.len() ==> '0' <= #[trigger] s[i] <= '9',
    ensures
        0 <= number::digits_value(s.take(k)) <= number::digits_value(s),
    decreases s.len() - k, s.len(),
{
    if k == s.len() {
        assert(s.take(k) =~= s);
        if s.len() > 0 {
            lemma_digits_grow(s.drop_last(), s.len() - 1);
            assert(s.drop_last().take(s.len() - 1) =~= s.drop_last());
            assert('0' <= s[s.len() - 1] <= '9');
        }
    } else {
        assert(s.take(k) =~= s.drop_last().take(k));
        lemma_digits_grow(s.drop_last(), k);
        assert('0' <= s[s.len() - 1] <= '9');
    }
}

fn parse_whole(s: &str) -> (r: Option<i32>)
    ensures
        r == whole_in(s@),
{
    let v = text::chars_of(s);
    let n: usize = v.len();
    let minus = n > 0 && v[0] == '-';
    let start: usize = if n > 0 && (v[0] == '-' || v[0] == '+') {
        1
    } else {
        0
    };
    let ghost body = number::unsigned(s@);
    proof {
        assert(body =~= v@.skip(start as int));
    }
    if start == n {
        return None;
    }
    let mut value: i64 = 0;
    let mut i: usize = start;
    proof {
        assert(body.take(0) =~= Seq::empty());
    }
    while i < n
        invariant
            start <= i <= n == v@.len(),
            start <= 1,
            body == v@.skip(start as int),
            body == number::unsigned(s@),
            forall|j: int| 0 <= j < i - start ==> '0' <= #[trigger] body[j] <= '9',
            value == number::digits_value(body.take(i - start)),
            0 <= value <= 2_147_483_648,
        decreases n - i,
    {
        let c = v[i];
        proof {
            assert(body[i - start] == c);
        }
        if !('0' <= c && c <= '9') {
            return None;
        }
        proof {
            assert(body.take(i - start + 1).drop_last() =~= body.take(i - start));
            assert(body.take(i - start + 1).last() == c);
        }
        value = value * 10 + (c as u32 - 48) as i64;
        i += 1;
        if value > 2_147_483_648 {
            proof {
                if forall|j: int| 0 <= j < body.len() ==> '0' <= #[trigger] body[j] <= '9' {
                    lemma_digits_grow(body, i - start);
                }
            }
            return None;
        }
    }
    proof {
        assert(body.take(n - start) =~= body);
    }
    if minus {
        Some((-value) as i32)
    } else if value <= 2_147_483_647 {
        Some(value as i32)
    } else {
        None
    }
}

/// How a work is looked up in AniList.
#[derive(Debug)]
pub enum AnilistLookup {
    ById(i32),
    ByTitle(String),
}

/// How a work is looked up in AniList, as a mathematical value.
pub ghost enum Lookup {
    ById(i32),
    ByTitle(Seq<char>),
}

impl View for AnilistLookup {
    type V = Lookup;

    open spec fn view(&self) -> Lookup {
        match self {
            AnilistLookup::ById(id) => Lookup::ById(*id),
            AnilistLookup::ByTitle(t) => Lookup::ByTitle(t@),
        }
    }
}

/// The lookups to try in turn: by the id where there is one, else by the title
/// and, for a later season, by the title with its season.
pub open spec fn anilist_lookups(
    title: Seq<char>,
    season: Option<i32>,
    anilist: Option<Seq<char>>,
) -> Seq<Lookup> {
    match anilist {
        Some(id) => match whole_in(id) {
            Some(n) => seq![Lookup::ById(n)],
            None => Seq::empty(),
        },
        None => if season is Some && season->0 > 1 {
            seq![
                Lookup::ByTitle(title),
                Lookup::ByTitle(title + " Season "@ + text::decimal_int(season->0 as int)),
            ]
        } else {
            seq![Lookup::ByTitle(title)]
        },
    }
}

/// Some lookups, as mathematical values.
pub open spec fn lookups_of(v: Seq<AnilistLookup>) -> Seq<Lookup> {
    v.map_values(|l: AnilistLookup| l@)
}

/// The lookups of a work in AniList to try in turn.
pub fn plan_anilist_lookups(identity: &MediaIdentity) -> (r: Vec<AnilistLookup>)
    ensures
        lookups_of(r@) == anilist_lookups(
            identity.title@,
            identity.season,
            opt_text(identity.external_ids.anilist),
        ),
{
    let mut out: Vec<AnilistLookup> = Vec::new();
    match &identity.external_ids.anilist {
        Some(id) => {
            match parse_whole(id.as_str()) {
                Some(n) => {
                    out.push(AnilistLookup::ById(n));
                },
                None => {},
            }
        },
        None => {
            out.push(AnilistLookup::ByTitle(identity.title.clone()));
            match identity.season {
                Some(n) => if n > 1 {
                    let number = text::i64_text(n as i64);
                    out.push(
                        AnilistLookup::ByTitle(
                            text::join3(identity.title.as_str(), " Season ", number.as_str()),
                        ),
                    );
                },
                None => {},
            }
        },
    }
    proof {
        assert(lookups_of(out@) =~= anilist_lookups(
            identity.title@,
            identity.season,
            opt_text(identity.external_ids.anilist),
        ));
    }
    out
}

/// The address of a search in AniAPI.
pub open spec fn aniapi_address(title: Seq<char>) -> Seq<char> {
    "https://api.aniapi.com/v1/anime?title="@ + outside::percent_encoded(encode_utf8(title))
}

/// The address of a search in AniAPI.
pub fn aniapi_url(identity: &MediaIdentity) -> (r: String)
    ensures
        r@ == aniapi_address(identity.title@),
{
    let encoded = outside::url_encode(identity.title.as_str());
    text::join2("https://api.aniapi.com/v1/anime?title=", encoded.as_str())
}

/// A work in the AniAPI catalogue.
#[derive(Debug, Clone)]
pub struct AniApiAnime {
    pub id: i64,
    pub titles: JsonValue,
    pub episodes_count: Option<i32>,
    /// Of one episode, in minutes.
    pub episode_duration: Option<i32>,
    pub description: Option<String>,
    pub genres: Option<Vec<String>>,
}

/// An AniAPI work as one JSON object.
pub open spec fn aniapi_json(a: AniApiAnime) -> Json {
    Json::Object(
        seq![
            ("description"@, json::opt_text_json(opt_text(a.description))),
            ("episode_duration"@, opt_whole_json(a.episode_duration)),
            ("episodes_count"@, opt_whole_json(a.episodes_count)),
            ("genres"@, opt_texts_json(metadata::opt_texts(a.genres))),
            ("id"@, settings::whole_json(a.id)),
            ("titles"@, a.titles@),
        ],
    )
}

fn aniapi_value(a: &AniApiAnime) -> (v: JsonValue)
    ensures
        v@ == aniapi_json(*a),
{
    let mut o: Vec<(String, JsonValue)> = Vec::new();
    o.push(("description".to_owned(), opt_text_value(&a.description)));
    o.push(("episode_duration".to_owned(), opt_whole_value(a.episode_duration)));
    o.push(("episodes_count".to_owned(), opt_whole_value(a.episodes_count)));
    o.push(("genres".to_owned(), opt_texts_value(&a.genres)));
    o.push(("id".to_owned(), whole_value(a.id)));
    o.push(("titles".to_owned(), a.titles.dup()));
    proof {
        json::lemma_view_object(o);
        assert(json::members_of(o@) =~= aniapi_json(*a)->Object_0);
    }
    JsonValue::Object(o)
}

/// What AniAPI says of the last of the works that a search found.
pub open spec fn aniapi_known(items: Seq<AniApiAnime>) -> Option<Known> {
    if items.len() == 0 {
        None
    } else {
        let a = items.last();
        Some(
            Known {
                metadata_json: aniapi_json(a),
                runtime_seconds: held_seconds(
                    episodes_seconds(a.episode_duration, a.episodes_count),
                ),
                external_ids: None,
                description: opt_text(a.description),
                genres: metadata::opt_texts(a.genres),
            },
        )
    }
}

/// What AniAPI says of the last of the works that a search found.
pub fn aniapi_metadata(items: &Vec<AniApiAnime>) -> (r: Option<MetadataResult>)
    requires
        items@.len() > 0 ==> holds_runtime(items@.last().episode_duration, items@.last().episodes_count),
    ensures
        match r {
            Some(m) => aniapi_known(items@) == Some(m@),
            None => aniapi_known(items@) is None,
        },
{
    if items.len() == 0 {
        return None;
    }
    let a = &items[items.len() - 1];
    Some(
        MetadataResult {
            metadata_json: aniapi_value(a),
            runtime_seconds: episodes_runtime(a.episode_duration, a.episodes_count),
            external_ids: None,
            description: dup_text(&a.description),
            genres: dup_texts(&a.genres),
        },
    )
}

/// An address is used without white space round it and without slashes at its end.
pub proof fn addresses_end_without_slashes(b: Seq<char>, n: nat)
    requires
        b.len() > 0,
        '!' <= b[0] <= '~',
        '!' <= b.last() <= '~',
        b.last() != '/',
    ensures
        base_of(b + Seq::new(n, |i: int| '/')) == b,
{
    let s = b + Seq::new(n, |i: int| '/');
    let none = Seq::<char>::empty();
    assert(none + s + none =~= s);
    assert(s[0] == b[0]);
    assert(s.last() == '/' || s.last() == b.last());
    text::outer_white_space_is_left_out(none, s, none);
    text::trailing_characters_are_left_out(b, n, '/');
}

/// A work is looked up at Cinemeta by its IMDb id where it has one, else by its title,
/// among the films or among the series; nowhere without an address.
pub proof fn cinemeta_is_asked_by_id_or_title(
    media_type: MediaType,
    title: Seq<char>,
    imdb: Option<Seq<char>>,
    base_url: Seq<char>,
)
    ensures
        ({
            let base = base_of(base_url);
            let kind = if media_type == MediaType::Movie {
                "movie"@
            } else {
                "series"@
            };
            let r = cinemeta_address(media_type, title, imdb, base_url);
            &&& base.len() == 0 ==> r is None
            &&& base.len() > 0 && imdb is Some ==> r == Some(
                base + "/meta/"@ + kind + "/"@ + imdb->0 + ".json"@,
            )
            &&& base.len() > 0 && imdb is None ==> r == Some(
                base + "/meta/"@ + kind + "/search="@ + outside::percent_encoded(
                    encode_utf8(title),
                ) + ".json"@,
            )
            &&& imdb is None ==> r == cinemeta_search_address(title, media_type, base_url)
        }),
{
}

/// The length of a work is in seconds: the minutes of a film, or of an episode for each
/// of its episodes, of one where their number is not known.
pub proof fn lengths_are_in_seconds(minutes: Option<i32>, episodes: Option<i32>)
    ensures
        minutes is None ==> minutes_seconds(minutes) is None && episodes_seconds(minutes, episodes)
            is None,
        minutes is Some ==> minutes_seconds(minutes) == Some(60 * minutes->0),
        minutes is Some && episodes is None ==> episodes_seconds(minutes, episodes) == Some(
            60 * minutes->0,
        ),
        minutes is Some && episodes is Some ==> episodes_seconds(minutes, episodes) == Some(
            60 * minutes->0 * episodes->0,
        ),
{
}

/// What Cinemeta says of a work: its length, its IMDb id, its description and genres.
pub proof fn cinemeta_tells_of_works(item: CineMetaItem)
    requires
        item.runtime is Some ==> 0 <= item.runtime->0 <= 30_000_000,
    ensures
        ({
            let k = cinemeta_known(item);
            &&& item.runtime is Some ==> k.runtime_seconds == Some((60 * item.runtime->0) as i32)
            &&& item.runtime is None ==> k.runtime_seconds is None
            &&& k.external_ids is Some
            &&& item.imdb_id is Some ==> k.external_ids->0.imdb == Some(item.imdb_id->0@)
            &&& item.imdb_id is None ==> k.external_ids->0.imdb is None
            &&& k.external_ids->0.tmdb is None && k.external_ids->0.anilist is None
            &&& item.description is Some ==> k.description == Some(item.description->0@)
            &&& item.description is None ==> k.description is None
            &&& item.genres is Some ==> k.genres == Some(number::texts(item.genres->0@))
        }),
{
}

/// Of the works that a title search found at Cinemeta, the last counts.
pub proof fn last_found_works_count(items: Seq<CineMetaItem>)
    ensures
        items.len() == 0 ==> cinemeta_found_known(items) is None,
        items.len() > 0 ==> {
            let k = cinemeta_found_known(items);
            let item = items[items.len() - 1];
            &&& k is Some
            &&& k->0.metadata_json == cinemeta_json(item)
            &&& item.imdb_id is Some ==> k->0.external_ids is Some && k->0.external_ids->0.imdb
                == Some(item.imdb_id->0@)
            &&& item.imdb_id is None ==> k->0.external_ids is None
        },
{
}

/// A work that a search at Cinemeta found has the title that it is given there, or else
/// what was searched for, the kind that was searched for, its year and its IMDb id.
pub proof fn works_found_at_cinemeta(item: CineMetaItem, query: Seq<char>, media_type: MediaType)
    ensures
        ({
            let f = cinemeta_found(item, query, media_type);
            &&& f.media_type == media_type
            &&& item.year is Some ==> f.year == item.year
            &&& f.external_ids is Some
            &&& item.imdb_id is Some ==> f.external_ids->0.imdb == Some(item.imdb_id->0@)
            &&& match json::json_get(item.rest@, "name"@) {
                Some(Json::Text(t)) => f.title == t,
                Some(_) => f.title == query,
                None => match json::json_get(item.rest@, "title"@) {
                    Some(Json::Text(t)) => f.title == t,
                    _ => f.title == query,
                },
            }
        }),
{
    let names = cinemeta_title_names();
    assert(names[0] == "name"@ && names[1] == "title"@);
    assert(names.drop_first() =~= seq!["title"@]);
    assert(names.drop_first().drop_first() =~= Seq::empty());
    reveal_with_fuel(reading::first_member, 3);
}

/// A work that a search at AniList found is anime under its number there, with its title
/// in Latin letters before the English and the native one, or else what was searched for.
pub proof fn works_found_at_anilist(m: MediaItem, query: Seq<char>)
    ensures
        ({
            let f = anilist_found(m, query);
            &&& f.media_type == MediaType::Anime
            &&& f.external_ids is Some && f.external_ids->0.anilist == Some(
                text::decimal_int(m.id as int),
            )
            &&& m.title is None ==> f.title == query
            &&& m.title is Some ==> match json::json_get(m.title->0@, "romaji"@) {
                Some(Json::Text(t)) => f.title == t,
                Some(_) => f.title == query,
                None => match json::json_get(m.title->0@, "english"@) {
                    Some(Json::Text(t)) => f.title == t,
                    Some(_) => f.title == query,
                    None => match json::json_get(m.title->0@, "native"@) {
                        Some(Json::Text(t)) => f.title == t,
                        _ => f.title == query,
                    },
                },
            }
        }),
{
    let names = anilist_title_names();
    assert(names[0] == "romaji"@ && names[1] == "english"@ && names[2] == "native"@);
    assert(names.drop_first() =~= seq!["english"@, "native"@]);
    assert(names.drop_first().drop_first() =~= seq!["native"@]);
    assert(names.drop_first().drop_first().drop_first() =~= Seq::empty());
    reveal_with_fuel(reading::first_member, 4);
}

/// What AniList says of a work: the time of its episodes together, and its number there.
pub proof fn anilist_tells_of_works(m: MediaItem)
    requires
        m.duration is Some ==> 0 <= m.duration->0 <= 10_000,
        m.episodes is Some ==> 0 <= m.episodes->0 <= 3_000,
    ensures
        ({
            let k = anilist_known(m);
            &&& m.duration is Some && m.episodes is Some ==> k.runtime_seconds == Some(
                (60 * m.duration->0 * m.episodes->0) as i32,
            )
            &&& m.duration is Some && m.episodes is None ==> k.runtime_seconds == Some(
                (60 * m.duration->0) as i32,
            )
            &&& m.duration is None ==> k.runtime_seconds is None
            &&& k.external_ids is Some && k.external_ids->0.anilist == Some(
                text::decimal_int(m.id as int),
            )
            &&& m.description is Some ==> k.description == Some(m.description->0@)
        }),
{
}

/// A work is looked up at AniList by its number where it has one; else by its title, and
/// a season behind the first by its title with the season as well.
pub proof fn anilist_is_asked_by_number_or_title(
    title: Seq<char>,
    season: Option<i32>,
    anilist: Option<Seq<char>>,
)
    ensures
        ({
            let r = anilist_lookups(title, season, anilist);
            &&& anilist is Some && whole_in(anilist->0) is Some ==> r == seq![
                Lookup::ById(whole_in(anilist->0)->0),
            ]
            &&& anilist is Some && whole_in(anilist->0) is None ==> r.len() == 0
            &&& anilist is None ==> r.len() >= 1 && r[0] == Lookup::ByTitle(title)
            &&& anilist is None && season is Some && season->0 > 1 ==> r.len() == 2 && r[1]
                == Lookup::ByTitle(title + " Season "@ + text::decimal_int(season->0 as int))
            &&& anilist is None && (season is None || season->0 <= 1) ==> r.len() == 1
        }),
{
}

/// Of the works that AniAPI found, the last counts, with the time of its episodes
/// together.
pub proof fn aniapi_tells_of_works(items: Seq<AniApiAnime>)
    ensures
        items.len() == 0 ==> aniapi_known(items) is None,
        items.len() > 0 ==> {
            let a = items[items.len() - 1];
            let k = aniapi_known(items);
            &&& k is Some
            &&& k->0.metadata_json == aniapi_json(a)
            &&& k->0.external_ids is None
            &&& a.episode_duration is None ==> k->0.runtime_seconds is None
            &&& a.episode_duration is Some && a.episodes_count is Some && 0 <= a.episode_duration->0
                <= 10_000 && 0 <= a.episodes_count->0 <= 3_000 ==> k->0.runtime_seconds == Some(
                (60 * a.episode_duration->0 * a.episodes_count->0) as i32,
            )
        },
{
    if items.len() > 0 {
        let a = items[items.len() - 1];
        if a.episode_duration is Some && a.episodes_count is Some {
            let d = a.episode_duration->0 as int;
            let e = a.episodes_count->0 as int;
            assert(60 * d * e == d * 60 * e) by (nonlinear_arith);
        }
    }
}

/// A whole number in a text is its digits, negated behind a minus sign.
pub proof fn whole_numbers_are_read(n: nat)
    requires
        n <= 0x7fff_ffff,
    ensures
        whole_in(text::decimal(n)) == Some(n as i32),
        whole_in(seq!['-'] + text::decimal(n)) == Some((-n) as i32),
{
    let d = text::decimal(n);
    text::digits_give_the_number_back(n);
    lemma_value_is_fold(d);
    assert('0' <= d[0] <= '9');
    assert((seq!['-'] + d).drop_first() =~= d);
    assert((seq!['-'] + d)[0] == '-');
}

proof fn lemma_value_is_fold(s: Seq<char>)
    ensures
        number::digits_value(s) == s.fold_left(
            0int,
            |v: int, c: char| v * 10 + (c as int - '0' as int),
        ),
    decreases s.len(),
{
    if s.len() > 0 {
        lemma_value_is_fold(s.drop_last());
    }
}

/// What a catalogue says of a work is kept under the names that the catalogue has for it.
pub proof fn works_are_kept(m: MediaItem, a: AniApiAnime, item: CineMetaItem)
    ensures
        ({
            let kept = anilist_json(m);
            &&& json::json_get(kept, "id"@) == Some(settings::whole_json(m.id as i64))
            &&& json::json_get(kept, "episodes"@) == Some(opt_whole_json(m.episodes))
            &&& json::json_get(kept, "duration"@) == Some(opt_whole_json(m.duration))
            &&& json::json_get(kept, "popularity"@) == Some(opt_whole_json(m.popularity))
            &&& json::json_get(kept, "description"@) == Some(
                json::opt_text_json(opt_text(m.description)),
            )
            &&& json::json_get(kept, "format"@) == Some(json::opt_text_json(opt_text(m.format)))
            &&& json::json_get(kept, "bannerImage"@) == Some(
                json::opt_text_json(opt_text(m.banner_image)),
            )
        }),
        ({
            let kept = aniapi_json(a);
            &&& json::json_get(kept, "id"@) == Some(settings::whole_json(a.id))
            &&& json::json_get(kept, "episodes_count"@) == Some(opt_whole_json(a.episodes_count))
            &&& json::json_get(kept, "episode_duration"@) == Some(
                opt_whole_json(a.episode_duration),
            )
            &&& json::json_get(kept, "titles"@) == Some(a.titles@)
            &&& json::json_get(kept, "description"@) == Some(
                json::opt_text_json(opt_text(a.description)),
            )
        }),
        ({
            let named = Json::Object(cinemeta_members(item));
            &&& json::json_get(named, "description"@) == Some(
                json::opt_text_json(opt_text(item.description)),
            )
            &&& json::json_get(named, "genres"@) == Some(
                opt_texts_json(metadata::opt_texts(item.genres)),
            )
            &&& json::json_get(named, "imdb_id"@) == Some(
                json::opt_text_json(opt_text(item.imdb_id)),
            )
            &&& json::json_get(named, "runtime"@) == Some(opt_whole_json(item.runtime))
            &&& json::json_get(named, "year"@) == Some(opt_whole_json(item.year))
        }),
{
    lemma_anilist_names_differ();
    lemma_aniapi_names_differ();
    lemma_cinemeta_names_differ();
    let x = anilist_json(m)->Object_0;
    json::lemma_lookup_at(x, "bannerImage"@, 0);
    json::lemma_lookup_at(x, "description"@, 2);
    json::lemma_lookup_at(x, "duration"@, 3);
    json::lemma_lookup_at(x, "episodes"@, 4);
    json::lemma_lookup_at(x, "format"@, 5);
    json::lemma_lookup_at(x, "id"@, 7);
    json::lemma_lookup_at(x, "popularity"@, 8);
    let y = aniapi_json(a)->Object_0;
    json::lemma_lookup_at(y, "description"@, 0);
    json::lemma_lookup_at(y, "episode_duration"@, 1);
    json::lemma_lookup_at(y, "episodes_count"@, 2);
    json::lemma_lookup_at(y, "id"@, 4);
    json::lemma_lookup_at(y, "titles"@, 5);
    let z = cinemeta_members(item);
    json::lemma_lookup_at(z, "description"@, 0);
    json::lemma_lookup_at(z, "genres"@, 1);
    json::lemma_lookup_at(z, "imdb_id"@, 2);
    json::lemma_lookup_at(z, "runtime"@, 3);
    json::lemma_lookup_at(z, "year"@, 4);
}

proof fn lemma_anilist_names_differ()
    ensures
        "bannerImage"@ != "coverImage"@,
        "bannerImage"@ != "description"@,
        "bannerImage"@ != "duration"@,
        "bannerImage"@ != "episodes"@,
        "bannerImage"@ != "format"@,
        "bannerImage"@ != "genres"@,
        "bannerImage"@ != "id"@,
        "bannerImage"@ != "popularity"@,
        "coverImage"@ != "description"@,
        "coverImage"@ != "duration"@,
        "coverImage"@ != "episodes"@,
        "coverImage"@ != "format"@,
        "coverImage"@ != "genres"@,
        "coverImage"@ != "id"@,
        "coverImage"@ != "popularity"@,
        "description"@ != "duration"@,
        "description"@ != "episodes"@,
        "description"@ != "format"@,
        "description"@ != "genres"@,
        "description"@ != "id"@,
        "description"@ != "popularity"@,
        "duration"@ != "episodes"@,
        "duration"@ != "format"@,
        "duration"@ != "genres"@,
        "duration"@ != "id"@,
        "duration"@ != "popularity"@,
        "episodes"@ != "format"@,
        "episodes"@ != "genres"@,
        "episodes"@ != "id"@,
        "episodes"@ != "popularity"@,
        "format"@ != "genres"@,
        "format"@ != "id"@,
        "format"@ != "popularity"@,
        "genres"@ != "id"@,
        "genres"@ != "popularity"@,
        "id"@ != "popularity"@,
{
    reveal_strlit("bannerImage");
    reveal_strlit("coverImage");
    reveal_strlit("description");
    reveal_strlit("duration");
    reveal_strlit("episodes");
    reveal_strlit("format");
    reveal_strlit("genres");
    reveal_strlit("id");
    reveal_strlit("popularity");
    assert("bannerImage"@.len() == 11);
    assert("coverImage"@.len() == 10);
    assert("description"@.len() == 11);
    assert("duration"@.len() == 8);
    assert("episodes"@.len() == 8);
    assert("format"@.len() == 6);
    assert("genres"@.len() == 6);
    assert("id"@.len() == 2);
    assert("popularity"@.len() == 10);
    assert("bannerImage"@[0] == 'b');
    assert("coverImage"@[0] == 'c');
    assert("description"@[0] == 'd');
    assert("duration"@[0] == 'd');
    assert("episodes"@[0] == 'e');
    assert("format"@[0] == 'f');
    assert("genres"@[0] == 'g');
    assert("popularity"@[0] == 'p');
}

proof fn lemma_aniapi_names_differ()
    ensures
        "description"@ != "episode_duration"@,
        "description"@ != "episodes_count"@,
        "description"@ != "genres"@,
        "description"@ != "id"@,
        "description"@ != "titles"@,
        "episode_duration"@ != "episodes_count"@,
        "episode_duration"@ != "genres"@,
        "episode_duration"@ != "id"@,
        "episode_duration"@ != "titles"@,
        "episodes_count"@ != "genres"@,
        "episodes_count"@ != "id"@,
        "episodes_count"@ != "titles"@,
        "genres"@ != "id"@,
        "genres"@ != "titles"@,
        "id"@ != "titles"@,
{
    reveal_strlit("description");
    reveal_strlit("episode_duration");
    reveal_strlit("episodes_count");
    reveal_strlit("genres");
    reveal_strlit("id");
    reveal_strlit("titles");
    assert("description"@.len() == 11);
    assert("episode_duration"@.len() == 16);
    assert("episodes_count"@.len() == 14);
    assert("genres"@.len() == 6);
    assert("id"@.len() == 2);
    assert("titles"@.len() == 6);
    assert("genres"@[0] == 'g');
    assert("titles"@[0] == 't');
}

proof fn lemma_cinemeta_names_differ()
    ensures
        "description"@ != "genres"@,
        "description"@ != "imdb_id"@,
        "description"@ != "runtime"@,
        "description"@ != "year"@,
        "genres"@ != "imdb_id"@,
        "genres"@ != "runtime"@,
        "genres"@ != "year"@,
        "imdb_id"@ != "runtime"@,
        "imdb_id"@ != "year"@,
        "runtime"@ != "year"@,
{
    reveal_strlit("description");
    reveal_strlit("genres");
    reveal_strlit("imdb_id");
    reveal_strlit("runtime");
    reveal_strlit("year");
    assert("description"@.len() == 11);
    assert("genres"@.len() == 6);
    assert("imdb_id"@.len() == 7);
    assert("runtime"@.len() == 7);
    assert("year"@.len() == 4);
    assert("imdb_id"@[0] == 'i');
    assert("runtime"@[0] == 'r');
}

/// The other members of a Cinemeta work are kept too, and go before those that have names
/// of their own.
pub proof fn other_members_are_kept(
    members: Seq<(Seq<char>, Json)>,
    more: Seq<(Seq<char>, Json)>,
    k: int,
)
    requires
        0 <= k < more.len(),
        forall|i: int| k < i < more.len() ==> (#[trigger] more[i]).0 != more[k].0,
    ensures
        json::lookup(with_members(members, more), more[k].0) == Some(more[k].1),
    decreases more.len(),
{
    let rest = more.drop_last();
    json::lemma_lookup_with_member(
        with_members(members, rest),
        more.last().0,
        more.last().1,
        more[k].0,
    );
    if k < rest.len() {
        assert(more[more.len() - 1].0 != more[k].0);
        assert(rest[k] == more[k]);
        assert forall|i: int| k < i < rest.len() implies (#[trigger] rest[i]).0 != rest[k].0 by {
            assert(more[i].0 != more[k].0);
        }
        other_members_are_kept(members, rest, k);
    }
}

/// The poster and the popularity of a work are read under any of their names, where those
/// before it are not there.
pub proof fn posters_are_read_under_their_names(j: Json, k: int, v: Json, n: i64)
    ensures
        ({
            let names = seq!["poster"@, "posterUrl"@, "image"@, "thumbnail"@];
            0 <= k < names.len() && json::json_get(j, names[k]) == Some(v) && (forall|i: int|
                0 <= i < k ==> json::json_get(j, #[trigger] names[i]) is None) ==> shown_under(
                j,
                cinemeta_poster_names(),
            ) == metadata::shown_text(v)
        }),
        ({
            let names = seq!["extraLarge"@, "large"@, "medium"@];
            0 <= k < names.len() && json::json_get(j, names[k]) == Some(v) && (forall|i: int|
                0 <= i < k ==> json::json_get(j, #[trigger] names[i]) is None) ==> shown_under(
                j,
                cover_names(),
            ) == metadata::shown_text(v)
        }),
        ({
            let names = seq!["popularity"@, "imdbRating"@, "rank"@, "votes"@];
            0 <= k < names.len() && json::json_get(j, names[k]) == Some(
                Json::Number(json::JsonNumber::Fraction(n)),
            ) && (forall|i: int| 0 <= i < k ==> json::json_get(j, #[trigger] names[i]) is None)
                ==> metadata::first_score(j, cinemeta_score_names()) == Some(Quantity::Micros(n))
        }),
{
    lemma_named(j, cinemeta_poster_names(), k, v);
    lemma_named(j, cover_names(), k, v);
    let names = cinemeta_score_names();
    if 0 <= k < names.len() && json::json_get(j, names[k]) == Some(
        Json::Number(json::JsonNumber::Fraction(n)),
    ) && (forall|i: int| 0 <= i < k ==> json::json_get(j, #[trigger] names[i]) is None) {
        metadata::first_scores_count(j, names, k, n);
    }
}

proof fn lemma_named(j: Json, names: Seq<Seq<char>>, k: int, v: Json)
    ensures
        0 <= k < names.len() && json::json_get(j, names[k]) == Some(v) && (forall|i: int|
            0 <= i < k ==> json::json_get(j, #[trigger] names[i]) is None)
            ==> reading::first_member(j, names) == Some(v),
{
    if 0 <= k < names.len() && json::json_get(j, names[k]) == Some(v) && (forall|i: int|
        0 <= i < k ==> json::json_get(j, #[trigger] names[i]) is None) {
        reading::first_member_there_counts(j, names, k);
    }
}

/// A title is searched for at AniAPI as it is, encoded for an address.
pub proof fn aniapi_is_asked_by_title(title: Seq<char>)
    ensures
        aniapi_address(title) == "https://api.aniapi.com/v1/anime?title="@
            + outside::percent_encoded(encode_utf8(title)),
{
}

} // verus!
