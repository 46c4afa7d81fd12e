use media_segments::catalogues::{
    aniapi_metadata, aniapi_url, anilist_search_results, cinemeta_fetch_url, cinemeta_metadata,
    cinemeta_search_metadata, cinemeta_search_results, cinemeta_search_url, extract_cover_image_url,
    extract_popularity_score, extract_poster_url, metadata_from_media, normalize_base_url,
    plan_anilist_lookups, AniApiAnime, AnilistLookup, CineMetaItem, MediaItem,
};
use media_segments::discovery::{
    begin_discovery, conclude_tvdb_login, conclude_tvdb_reply, metadata_sources, next_discovery,
    plan_tvdb_token, tvdb_enabled, tvdb_search_request, tvdb_search_results, DiscoverySource,
    DiscoveryStep, MetadataConfig, MetadataSource, TokenPlan, TvdbReply, TvdbToken,
};
use media_segments::json::{JsonNumber, JsonValue};
use media_segments::metadata::{ExternalIds, MediaIdentity, MediaType};
use media_segments::metrics::{init_metrics, MetricKind};
use media_segments::network::{announced_address, announced_host, SERVICE_TYPE};
use media_segments::quantity::Quantity;
use media_segments::reading::as_array;
use media_segments::tvdb::{extract_year, map_search_results, parse_year_text};

fn from_serde(v: &serde_json::Value) -> JsonValue {
    match v {
        serde_json::Value::Null => JsonValue::Null,
        serde_json::Value::Bool(b) => JsonValue::Bool(*b),
        serde_json::Value::Number(n) => {
            if let Some(u) = n.as_u64() {
                JsonValue::Number(JsonNumber::Unsigned(u))
            } else if let Some(i) = n.as_i64() {
                JsonValue::Number(JsonNumber::Negative(i))
            } else {
                let f: f64 = n.as_f64().expect("a number");
                JsonValue::Number(JsonNumber::Fraction((f * 1_000_000.0).round() as i64))
            }
        }
        serde_json::Value::String(s) => JsonValue::Text(s.clone()),
        serde_json::Value::Array(a) => JsonValue::Array(a.iter().map(from_serde).collect()),
        serde_json::Value::Object(o) => {
            JsonValue::Object(o.iter().map(|(k, v)| (k.clone(), from_serde(v))).collect())
        }
    }
}

fn js(text: &str) -> JsonValue {
    let value: serde_json::Value = serde_json::from_str(text).expect("valid JSON");
    from_serde(&value)
}

fn to_serde(v: &JsonValue) -> serde_json::Value {
    match v {
        JsonValue::Null => serde_json::Value::Null,
        JsonValue::Bool(b) => serde_json::Value::Bool(*b),
        JsonValue::Number(JsonNumber::Unsigned(n)) => serde_json::Value::from(*n),
        JsonValue::Number(JsonNumber::Negative(n)) => serde_json::Value::from(*n),
        JsonValue::Number(JsonNumber::Fraction(n)) => serde_json::Value::from(*n as f64 / 1_000_000.0),
        JsonValue::Text(s) => serde_json::Value::from(s.as_str()),
        JsonValue::Array(a) => serde_json::Value::Array(a.iter().map(to_serde).collect()),
        JsonValue::Object(o) => {
            serde_json::Value::Object(o.iter().map(|(k, v)| (k.clone(), to_serde(v))).collect())
        }
    }
}

fn parsed(text: &str) -> serde_json::Value {
    serde_json::from_str(text).expect("valid JSON")
}

fn items(text: &str) -> Vec<JsonValue> {
    as_array(&js(text)).expect("an array").clone()
}

fn config() -> MetadataConfig {
    MetadataConfig {
        enable_anilist: true,
        enable_aniapi: true,
        enable_consumet: true,
        enable_cinemeta: true,
        enable_tvdb: true,
        cinemeta_base_url: "https://cinemeta.test/".to_string(),
        tvdb_base_url: " https://tvdb.test/v4/ ".to_string(),
        tvdb_api_key: Some(" stub-key ".to_string()),
        ttl_seconds: 3_600,
        request_timeout_seconds: 5,
    }
}

fn identity(media_type: MediaType) -> MediaIdentity {
    MediaIdentity {
        media_type,
        title: "Fight Club".to_string(),
        season: None,
        external_ids: ExternalIds::none(),
    }
}

fn film(imdb_id: &str, name: &str) -> CineMetaItem {
    CineMetaItem {
        imdb_id: Some(imdb_id.to_string()),
        runtime: Some(139),
        description: Some("Desc".to_string()),
        genres: Some(vec!["Drama".to_string()]),
        year: None,
        rest: js(&format!(r#"{{"name": "{name}", "year": 1999, "poster": " https://p.test/1.jpg "}}"#)),
    }
}

fn anime(id: i32) -> MediaItem {
    MediaItem {
        id,
        title: Some(js(r#"{"romaji": "Hagane", "english": "Fullmetal"}"#)),
        episodes: Some(2),
        duration: Some(24),
        format: Some("TV".to_string()),
        description: None,
        genres: None,
        start_date: Some(js(r#"{"year": 2009}"#)),
        cover_image: Some(js(r#"{"large": "https://c.test/1.png"}"#)),
        banner_image: None,
        popularity: Some(7),
    }
}

#[test]
fn maps_tvdb_movie_search_result() {
    let items = items(
        r#"[{
            "id": "550",
            "type": "movie",
            "name": "Fight Club",
            "overview": "Desc",
            "year": "1999",
            "remote_ids": [
                { "sourceName": "IMDB", "id": "tt0137523" },
                { "sourceName": "TheMovieDB.com", "id": "550" }
            ]
        }]"#,
    );
    let mapped = map_search_results(&items, "fight club", MediaType::Movie);
    assert_eq!(mapped.len(), 1);
    let result = &mapped[0];
    assert_eq!(result.title, "Fight Club");
    assert_eq!(result.year, Some(1999));
    let ids = result.external_ids.as_ref().expect("external ids");
    assert_eq!(ids.imdb.as_deref(), Some("tt0137523"));
    assert_eq!(ids.tmdb.as_deref(), Some("550"));
    assert_eq!(ids.tvdb_movie.as_deref(), Some("550"));
}

#[test]
fn ignores_non_series_results_for_series_search() {
    let items = items(
        r#"[
            { "id": "123", "type": "movie", "name": "Movie Result" },
            { "id": "456", "type": "series", "name": "Series Result" }
        ]"#,
    );
    let mapped = map_search_results(&items, "query", MediaType::Series);
    assert_eq!(mapped.len(), 1);
    assert_eq!(mapped[0].title, "Series Result");
    let ids = mapped[0].external_ids.as_ref().expect("external ids");
    assert_eq!(ids.tvdb_series.as_deref(), Some("456"));
}

#[test]
fn a_result_without_a_kind_counts_unless_it_says_otherwise() {
    let items = items(
        r#"[{"tvdb_id": 7, "isMovie": 0}, {"tvdbId": -8, "isMovie": 1, "score": "3.5", "image": "i"},
            {"name": "no id"}]"#,
    );
    let films = map_search_results(&items, "query", MediaType::Movie);
    assert_eq!(films.len(), 1);
    assert_eq!(films[0].title, "query");
    assert_eq!(films[0].popularity_score, Some(Quantity::Micros(3_500_000)));
    assert_eq!(films[0].poster_url.as_deref(), Some("i"));
    assert_eq!(
        films[0].external_ids.as_ref().and_then(|i| i.tvdb.clone()).as_deref(),
        Some("-8")
    );
    assert_eq!(map_search_results(&items, "query", MediaType::Series).len(), 2);
}

#[test]
fn an_entry_without_an_id_ends_the_search_for_remote_ids() {
    let items = items(
        r#"[{"id": "1", "remoteIds": [{"source": "IMDB"}, {"source": "IMDB", "id": "tt1"}]}]"#,
    );
    let mapped = map_search_results(&items, "q", MediaType::Movie);
    assert_eq!(mapped[0].external_ids.as_ref().and_then(|i| i.imdb.clone()), None);
}

#[test]
fn years_are_read_from_numbers_and_dates() {
    assert_eq!(parse_year_text("1999-10-15"), Some(1999));
    assert_eq!(parse_year_text("99"), None);
    assert_eq!(extract_year(&js(r#"{"year": 2001}"#)), Some(2001));
    assert_eq!(extract_year(&js(r#"{"year": "x", "first_air_time": "2002"}"#)), None);
    assert_eq!(extract_year(&js(r#"{"first_air_time": "2002-01-01"}"#)), Some(2002));
    assert_eq!(extract_year(&js(r#"{"firstAired": "2003"}"#)), Some(2003));
    assert_eq!(extract_year(&js(r#"{"year": 4294967297}"#)), Some(1));
}

#[test]
fn discovery_search_uses_tvdb_for_movies_when_configured() {
    let config = config();
    assert!(tvdb_enabled(&config));
    assert!(matches!(
        begin_discovery(&config, Some(MediaType::Movie)),
        DiscoveryStep::Ask(DiscoverySource::Tvdb)
    ));
    let request = tvdb_search_request(&config, " Fight Club ", MediaType::Movie).expect("a request");
    assert_eq!(
        request,
        vec![("query", "Fight Club".to_string()), ("type", "movie".to_string())]
    );
    let payload = js(
        r#"{"status": "success", "data": [{"id": "550", "type": "movie", "name": "Fight Club",
            "overview": "Test overview", "year": "1999",
            "remote_ids": [{"sourceName": "IMDB", "id": "tt0137523"}]}]}"#,
    );
    let found = tvdb_search_results(Some(&payload), "Fight Club", MediaType::Movie);
    match next_discovery(&config, DiscoverySource::Tvdb, Some(found)) {
        DiscoveryStep::Done(results) => {
            assert_eq!(results.len(), 1);
            let ids = results[0].external_ids.as_ref().expect("external ids");
            assert_eq!(ids.tvdb_movie.as_deref(), Some("550"));
            assert_eq!(ids.imdb.as_deref(), Some("tt0137523"));
        }
        DiscoveryStep::Ask(_) => panic!("the search is over"),
    }
}

#[test]
fn discovery_search_falls_back_to_cinemeta_when_tvdb_empty_for_movie_and_series() {
    let config = config();
    let empty = tvdb_search_results(Some(&js(r#"{"data": []}"#)), "Fight Club", MediaType::Movie);
    assert!(matches!(
        next_discovery(&config, DiscoverySource::Tvdb, Some(empty)),
        DiscoveryStep::Ask(DiscoverySource::Cinemeta)
    ));
    assert!(matches!(
        next_discovery(&config, DiscoverySource::Tvdb, None),
        DiscoveryStep::Ask(DiscoverySource::Cinemeta)
    ));
    let shown = cinemeta_search_results(
        &vec![film("tt0903747", "Breaking Bad")],
        "Breaking Bad",
        MediaType::Series,
    );
    assert_eq!(shown.len(), 1);
    assert_eq!(shown[0].title, "Breaking Bad");
    assert_eq!(shown[0].media_type, MediaType::Series);
    let ids = shown[0].external_ids.as_ref().expect("series ids");
    assert_eq!(ids.imdb.as_deref(), Some("tt0903747"));
    let found = cinemeta_search_results(
        &vec![film("tt0137523", "Fight Club")],
        "Fight Club",
        MediaType::Movie,
    );
    assert_eq!(found.len(), 1);
    assert_eq!(found[0].title, "Fight Club");
    assert_eq!(found[0].media_type, MediaType::Movie);
    assert_eq!(found[0].year, Some(1999));
    match next_discovery(&config, DiscoverySource::Cinemeta, Some(found)) {
        DiscoveryStep::Done(results) => {
            let ids = results[0].external_ids.as_ref().expect("movie ids");
            assert_eq!(ids.imdb.as_deref(), Some("tt0137523"));
        }
        DiscoveryStep::Ask(_) => panic!("the search is over"),
    }
    assert!(matches!(
        next_discovery(&config, DiscoverySource::Cinemeta, None),
        DiscoveryStep::Done(results) if results.is_empty()
    ));
}

#[test]
fn anime_is_searched_in_anilist_first() {
    let mut config = config();
    assert!(matches!(
        begin_discovery(&config, Some(MediaType::Anime)),
        DiscoveryStep::Ask(DiscoverySource::Anilist)
    ));
    config.enable_anilist = false;
    assert!(matches!(
        begin_discovery(&config, Some(MediaType::Anime)),
        DiscoveryStep::Ask(DiscoverySource::Cinemeta)
    ));
    config.enable_cinemeta = false;
    assert!(matches!(begin_discovery(&config, Some(MediaType::Anime)), DiscoveryStep::Done(_)));
    assert!(tvdb_search_request(&config, "q", MediaType::Anime).is_none());
    assert!(tvdb_search_request(&config, "  ", MediaType::Movie).is_none());
}

#[test]
fn a_token_is_kept_until_it_runs_out() {
    let config = config();
    let token = conclude_tvdb_login(true, "200 OK", Some("stub-token".to_string()), 100).expect("a token");
    assert_eq!(token.expires_at, 43_300);
    let kept = Some(token);
    assert!(matches!(plan_tvdb_token(&config, &kept, 43_299), TokenPlan::Keep(t) if t == "stub-token"));
    match plan_tvdb_token(&config, &kept, 43_300) {
        TokenPlan::Login { url, body } => {
            assert_eq!(url, "https://tvdb.test/v4/login");
            assert_eq!(to_serde(&body), parsed(r#"{"apikey": "stub-key"}"#));
        }
        _ => panic!("a new token is needed"),
    }
    let none: Option<TvdbToken> = None;
    let mut off = config;
    off.tvdb_api_key = Some("  ".to_string());
    assert!(matches!(plan_tvdb_token(&off, &none, 0), TokenPlan::Without));
    off.tvdb_api_key = Some("k".to_string());
    off.tvdb_base_url = "/".to_string();
    assert!(matches!(plan_tvdb_token(&off, &none, 0), TokenPlan::Without));
}

#[test]
fn a_login_can_fail_in_two_ways() {
    assert_eq!(
        conclude_tvdb_login(false, "500 Internal Server Error", None, 0).expect_err("failed").message,
        "tvdb login failed 500 Internal Server Error"
    );
    assert_eq!(
        conclude_tvdb_login(true, "200 OK", None, 0).expect_err("failed").message,
        "tvdb login response missing token"
    );
}

#[test]
fn a_token_is_renewed_once() {
    assert!(matches!(conclude_tvdb_reply(401, "401 Unauthorized", false), Ok(TvdbReply::Renew)));
    assert_eq!(
        conclude_tvdb_reply(401, "401 Unauthorized", true).expect_err("refused").message,
        "tvdb returned 401 Unauthorized"
    );
    assert!(matches!(conclude_tvdb_reply(404, "404 Not Found", false), Ok(TvdbReply::Unknown)));
    assert!(matches!(conclude_tvdb_reply(200, "200 OK", false), Ok(TvdbReply::Read)));
    assert!(conclude_tvdb_reply(503, "503 Service Unavailable", false).is_err());
}

#[test]
fn works_are_looked_up_where_they_have_an_id() {
    let config = config();
    let mut anime = identity(MediaType::Anime);
    assert!(metadata_sources(&config, &anime).is_empty());
    anime.external_ids.anilist = Some("5114".to_string());
    assert_eq!(
        metadata_sources(&config, &anime),
        vec![MetadataSource::Anilist, MetadataSource::Aniapi, MetadataSource::Consumet]
    );
    let mut movie = identity(MediaType::Movie);
    assert!(metadata_sources(&config, &movie).is_empty());
    movie.external_ids.imdb = Some("tt0137523".to_string());
    assert_eq!(metadata_sources(&config, &movie), vec![MetadataSource::Cinemeta]);
    assert_eq!(config.ttl_seconds(), 3_600);
}

#[test]
fn cinemeta_addresses_name_the_kind_and_the_work() {
    let mut movie = identity(MediaType::Movie);
    assert_eq!(
        cinemeta_fetch_url(&movie, " https://cinemeta.test// ").as_deref(),
        Some("https://cinemeta.test/meta/movie/search=Fight%20Club.json")
    );
    movie.external_ids.imdb = Some("tt0137523".to_string());
    assert_eq!(
        cinemeta_fetch_url(&movie, "https://cinemeta.test").as_deref(),
        Some("https://cinemeta.test/meta/movie/tt0137523.json")
    );
    assert_eq!(cinemeta_fetch_url(&movie, " / "), None);
    assert_eq!(
        cinemeta_search_url("Ünder & above", MediaType::Anime, "https://c.test").as_deref(),
        Some("https://c.test/meta/series/search=%C3%9Cnder%20%26%20above.json")
    );
    assert_eq!(normalize_base_url(" https://c.test/ "), "https://c.test");
    assert_eq!(
        aniapi_url(&identity(MediaType::Anime)),
        "https://api.aniapi.com/v1/anime?title=Fight%20Club"
    );
}

#[test]
fn cinemeta_works_are_kept_whole() {
    let known = cinemeta_metadata(&film("tt0137523", "Fight Club"));
    assert_eq!(known.runtime_seconds, Some(8_340));
    assert_eq!(
        to_serde(&known.metadata_json),
        parsed(
            r#"{"description": "Desc", "genres": ["Drama"], "imdb_id": "tt0137523",
                "name": "Fight Club", "poster": " https://p.test/1.jpg ", "runtime": 139, "year": 1999}"#
        )
    );
    let mut unnamed = film("tt1", "First");
    unnamed.imdb_id = None;
    let last = cinemeta_search_metadata(&vec![film("tt0137523", "Fight Club"), unnamed]).expect("a work");
    assert!(last.external_ids.is_none());
    assert!(cinemeta_search_metadata(&Vec::new()).is_none());
    let rest = film("tt1", "First").rest;
    assert_eq!(extract_poster_url(&rest).as_deref(), Some("https://p.test/1.jpg"));
    assert_eq!(extract_popularity_score(&js(r#"{"imdbRating": "8.8"}"#)), Some(Quantity::Micros(8_800_000)));
    assert_eq!(extract_popularity_score(&js(r#"{"popularity": "none", "votes": 3}"#)), Some(Quantity::Micros(3_000_000)));
}

#[test]
fn anilist_works_are_kept_whole() {
    let known = metadata_from_media(&anime(5_114));
    assert_eq!(known.runtime_seconds, Some(2_880));
    assert_eq!(
        known.external_ids.as_ref().and_then(|i| i.anilist.clone()).as_deref(),
        Some("5114")
    );
    let json = to_serde(&known.metadata_json);
    assert_eq!(json["bannerImage"], serde_json::Value::Null);
    assert_eq!(json["startDate"]["year"], serde_json::Value::from(2009));
    let mut one = anime(1);
    one.episodes = None;
    assert_eq!(metadata_from_media(&one).runtime_seconds, Some(1_440));
    let found = anilist_search_results(&vec![anime(5_114)], "q");
    assert_eq!(found[0].title, "Hagane");
    assert_eq!(found[0].year, Some(2009));
    assert_eq!(extract_cover_image_url(&anime(1)).as_deref(), Some("https://c.test/1.png"));
}

#[test]
fn anilist_is_asked_by_id_or_by_title() {
    let mut work = identity(MediaType::Anime);
    work.season = Some(2);
    let lookups = plan_anilist_lookups(&work);
    assert_eq!(lookups.len(), 2);
    assert!(matches!(&lookups[0], AnilistLookup::ByTitle(t) if t == "Fight Club"));
    assert!(matches!(&lookups[1], AnilistLookup::ByTitle(t) if t == "Fight Club Season 2"));
    work.season = Some(1);
    assert_eq!(plan_anilist_lookups(&work).len(), 1);
    work.external_ids.anilist = Some("+5114".to_string());
    assert!(matches!(plan_anilist_lookups(&work)[0], AnilistLookup::ById(5_114)));
    work.external_ids.anilist = Some("2147483648".to_string());
    assert!(plan_anilist_lookups(&work).is_empty());
    work.external_ids.anilist = Some("-2147483648".to_string());
    assert!(matches!(plan_anilist_lookups(&work)[0], AnilistLookup::ById(i32::MIN)));
    work.external_ids.anilist = Some("-".to_string());
    assert!(plan_anilist_lookups(&work).is_empty());
}

#[test]
fn aniapi_works_are_kept_whole() {
    let work = AniApiAnime {
        id: 9,
        titles: js(r#"{"en": "Title"}"#),
        episodes_count: Some(12),
        episode_duration: Some(10),
        description: None,
        genres: None,
    };
    let known = aniapi_metadata(&vec![work]).expect("a work");
    assert_eq!(known.runtime_seconds, Some(7_200));
    assert!(known.external_ids.is_none());
    assert_eq!(
        to_serde(&known.metadata_json),
        parsed(
            r#"{"description": null, "episode_duration": 10, "episodes_count": 12, "genres": null,
                "id": 9, "titles": {"en": "Title"}}"#
        )
    );
    assert!(aniapi_metadata(&Vec::new()).is_none());
}

#[test]
fn every_family_of_metrics_has_a_name_of_its_own() {
    let families = init_metrics();
    assert_eq!(families.len(), 43);
    for (i, f) in families.iter().enumerate() {
        assert!(f.name.starts_with("elixir_"));
        assert!(!f.labels.is_empty());
        assert!(families.iter().skip(i + 1).all(|g| g.name != f.name));
    }
    let jobs = families
        .iter()
        .find(|f| f.name == "elixir_media_segment_jobs_total")
        .expect("the family of jobs");
    assert_eq!(jobs.kind, MetricKind::Counter);
    assert_eq!(jobs.labels, vec!["provider_kind", "job_type", "status"]);
    assert_eq!(families[0].name, "elixir_play_decisions_total");
    assert_eq!(families[42].name, "elixir_autoplay_transitions_total");
}

#[test]
fn families_are_accepted_by_a_registry() {
    let registry = prometheus::Registry::new();
    for f in init_metrics() {
        let registered = match f.kind {
            MetricKind::Counter => registry.register(Box::new(
                prometheus::IntCounterVec::new(prometheus::Opts::new(f.name, f.help), &f.labels).expect("counters"),
            )),
            MetricKind::Gauge => registry.register(Box::new(
                prometheus::IntGaugeVec::new(prometheus::Opts::new(f.name, f.help), &f.labels).expect("gauges"),
            )),
            MetricKind::Histogram => registry.register(Box::new(
                prometheus::HistogramVec::new(prometheus::HistogramOpts::new(f.name, f.help), &f.labels)
                    .expect("histograms"),
            )),
        };
        assert!(registered.is_ok(), "{} is refused", f.name);
    }
}

#[test]
fn the_server_is_announced_under_its_local_name() {
    assert_eq!(SERVICE_TYPE, "_elixir-media._tcp.local.");
    assert_eq!(announced_host(Some("den")), "den.local.");
    assert_eq!(announced_host(Some("den.local")), "den.local.");
    assert_eq!(announced_host(None), "elixir-host.local.");
    assert_eq!(announced_address("0.0.0.0", true), "127.0.0.1");
    assert_eq!(announced_address("192.168.1.4", true), "192.168.1.4");
    assert_eq!(announced_address("den", false), "127.0.0.1");
}
