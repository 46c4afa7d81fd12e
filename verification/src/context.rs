//! What is known of the film or episode that a file holds.

use vstd::prelude::*;
use crate::error::{self, refuse, SegmentError};
use crate::normalize::{self, normalize_external_id_for_provider, normalize_imdb_id, normalize_numeric_id};
use crate::reading;
use crate::text;

verus! {

/// What is known of the film or episode that a file holds. The duration is in
/// microseconds.
#[derive(Debug, Clone)]
pub struct ProviderMediaContext {
    pub media_file_id: String,
    pub item_type: String,
    pub item_id: String,
    pub imdb_id: Option<String>,
    pub tmdb_id: Option<String>,
    pub tvdb_id: Option<String>,
    pub anilist_id: Option<String>,
    pub mal_id: Option<String>,
    pub season_number: Option<i32>,
    pub episode_number: Option<i32>,
    pub absolute_episode_number: Option<i32>,
    pub duration: Option<i64>,
}

/// The same, as a mathematical value.
#[verifier::ext_equal]
pub struct MediaContext {
    pub media_file_id: Seq<char>,
    pub item_type: Seq<char>,
    pub item_id: Seq<char>,
    pub imdb_id: Option<Seq<char>>,
    pub tmdb_id: Option<Seq<char>>,
    pub tvdb_id: Option<Seq<char>>,
    pub anilist_id: Option<Seq<char>>,
    pub mal_id: Option<Seq<char>>,
    pub season_number: Option<i32>,
    pub episode_number: Option<i32>,
    pub absolute_episode_number: Option<i32>,
    pub duration: Option<i64>,
}

impl View for ProviderMediaContext {
    type V = MediaContext;

    open spec fn view(&self) -> MediaContext {
        MediaContext {
            media_file_id: self.media_file_id@,
            item_type: self.item_type@,
            item_id: self.item_id@,
            imdb_id: error::opt_text(self.imdb_id),
            tmdb_id: error::opt_text(self.tmdb_id),
            tvdb_id: error::opt_text(self.tvdb_id),
            anilist_id: error::opt_text(self.anilist_id),
            mal_id: error::opt_text(self.mal_id),
            season_number: self.season_number,
            episode_number: self.episode_number,
            absolute_episode_number: self.absolute_episode_number,
            duration: self.duration,
        }
    }
}

/// Stored identifiers: the provider's name and the identifier, the most
/// trusted one of each provider first.
pub open spec fn id_pairs(rows: Seq<(String, String)>) -> Seq<(Seq<char>, Seq<char>)> {
    rows.map_values(|r: (String, String)| (r.0@, r.1@))
}

/// The most trusted identifier of a provider.
pub open spec fn stored_id(rows: Seq<(Seq<char>, Seq<char>)>, provider: Seq<char>) -> Option<
    Seq<char>,
>
    decreases rows.len(),
{
    if rows.len() == 0 {
        None
    } else if rows[0].0 == provider {
        Some(rows[0].1)
    } else {
        stored_id(rows.drop_first(), provider)
    }
}

/// The first of some providers whose most trusted identifier is well formed.
pub open spec fn first_id(rows: Seq<(Seq<char>, Seq<char>)>, providers: Seq<Seq<char>>) -> Option<
    Seq<char>,
>
    decreases providers.len(),
{
    if providers.len() == 0 {
        None
    } else {
        let here = match stored_id(rows, providers[0]) {
            Some(v) => normalize::external_id_of(providers[0], v),
            None => None,
        };
        if here is Some {
            here
        } else {
            first_id(rows, providers.drop_first())
        }
    }
}

fn find_stored_id<'a>(rows: &'a Vec<(String, String)>, provider: &str) -> (r: Option<&'a String>)
    ensures
        match r {
            Some(v) => stored_id(id_pairs(rows@), provider@) == Some(v@),
            None => stored_id(id_pairs(rows@), provider@) is None,
        },
{
    let ghost all = id_pairs(rows@);
    let mut i: usize = 0;
    proof {
        assert(all.skip(0) =~= all);
    }
    while i < rows.len()
        invariant
            i <= rows@.len(),
            all == id_pairs(rows@),
            stored_id(all, provider@) == stored_id(all.skip(i as int), provider@),
        decreases rows@.len() - i,
    {
        proof {
            assert(all.skip(i as int)[0] == all[i as int]);
            assert(all.skip(i as int).drop_first() =~= all.skip(i + 1));
        }
        if text::str_eq(rows[i].0.as_str(), provider) {
            return Some(&rows[i].1);
        }
        i += 1;
    }
    None
}

/// The first of some providers whose most trusted identifier is well formed.
pub fn load_external_id(rows: &Vec<(String, String)>, providers: &Vec<&str>) -> (r: Option<String>)
    ensures
        error::opt_text(r) == first_id(id_pairs(rows@), reading::names(providers@)),
{
    let ghost all = reading::names(providers@);
    let mut i: usize = 0;
    proof {
        assert(all.skip(0) =~= all);
    }
    while i < providers.len()
        invariant
            i <= providers@.len(),
            all == reading::names(providers@),
            first_id(id_pairs(rows@), all) == first_id(id_pairs(rows@), all.skip(i as int)),
        decreases providers@.len() - i,
    {
        proof {
            assert(all.skip(i as int)[0] == providers@[i as int]@);
            assert(all.skip(i as int).drop_first() =~= all.skip(i + 1));
        }
        match find_stored_id(rows, providers[i]) {
            Some(v) => {
                let id = normalize_external_id_for_provider(providers[i], v.as_str());
                if id.is_some() {
                    return id;
                }
            },
            None => {},
        }
        i += 1;
    }
    None
}

/// The identifier in a column of the item, else the first stored one.
pub open spec fn id_or_stored(column: Option<Seq<char>>, stored: Option<Seq<char>>) -> Option<
    Seq<char>,
> {
    if column is Some {
        column
    } else {
        stored
    }
}

/// The well formed IMDb identifier in a column.
pub open spec fn imdb_column(column: Option<Seq<char>>) -> Option<Seq<char>> {
    match column {
        Some(v) => normalize::imdb_of(v),
        None => None,
    }
}

/// The well formed numeric identifier in a column.
pub open spec fn numeric_column(column: Option<Seq<char>>) -> Option<Seq<char>> {
    match column {
        Some(v) => normalize::numeric_of(v),
        None => None,
    }
}

fn imdb_or(column: &Option<String>, stored: Option<String>) -> (r: Option<String>)
    ensures
        error::opt_text(r) == id_or_stored(
            imdb_column(error::opt_text(*column)),
            error::opt_text(stored),
        ),
{
    match column {
        Some(v) => match normalize_imdb_id(v.as_str()) {
            Some(id) => Some(id),
            None => stored,
        },
        None => stored,
    }
}

fn numeric_or(column: &Option<String>, stored: Option<String>) -> (r: Option<String>)
    ensures
        error::opt_text(r) == id_or_stored(
            numeric_column(error::opt_text(*column)),
            error::opt_text(stored),
        ),
{
    match column {
        Some(v) => match normalize_numeric_id(v.as_str()) {
            Some(id) => Some(id),
            None => stored,
        },
        None => stored,
    }
}

/// A film, as it is stored.
#[derive(Debug, Clone)]
pub struct MovieRow {
    pub movie_id: String,
    pub external_imdb: Option<String>,
    pub external_tmdb: Option<String>,
    /// The identifiers of the film.
    pub external_ids: Vec<(String, String)>,
}

/// An episode and its series, as they are stored.
#[derive(Debug, Clone)]
pub struct EpisodeRow {
    pub episode_id: String,
    pub season_number: Option<i64>,
    pub episode_number: Option<i64>,
    pub absolute_episode_number: Option<i64>,
    pub external_imdb: Option<String>,
    pub external_tvdb_series: Option<String>,
    pub external_anilist: Option<String>,
    /// The identifiers of the episode.
    pub episode_external_ids: Vec<(String, String)>,
    /// The identifiers of the series.
    pub series_external_ids: Vec<(String, String)>,
}

/// What is known of a film.
pub open spec fn movie_context_of(media_file_id: Seq<char>, row: MovieRow, duration: Option<i64>) -> MediaContext {
    let ids = id_pairs(row.external_ids@);
    MediaContext {
        media_file_id,
        item_type: "movie"@,
        item_id: row.movie_id@,
        imdb_id: id_or_stored(
            imdb_column(error::opt_text(row.external_imdb)),
            first_id(ids, seq!["imdb"@, "imdb_id"@]),
        ),
        tmdb_id: id_or_stored(
            numeric_column(error::opt_text(row.external_tmdb)),
            first_id(ids, seq!["tmdb"@, "tmdb_id"@]),
        ),
        tvdb_id: None,
        anilist_id: None,
        mal_id: None,
        season_number: None,
        episode_number: None,
        absolute_episode_number: None,
        duration,
    }
}

/// A stored number cut to 32 bits.
pub open spec fn short_number(n: Option<i64>) -> Option<i32> {
    match n {
        Some(n) => Some(n as i32),
        None => None,
    }
}

/// What is known of an episode.
pub open spec fn episode_context_of(media_file_id: Seq<char>, row: EpisodeRow, duration: Option<i64>) -> MediaContext {
    let episode_ids = id_pairs(row.episode_external_ids@);
    let series_ids = id_pairs(row.series_external_ids@);
    MediaContext {
        media_file_id,
        item_type: "episode"@,
        item_id: row.episode_id@,
        imdb_id: id_or_stored(
            imdb_column(error::opt_text(row.external_imdb)),
            first_id(series_ids, seq!["imdb"@, "imdb_id"@]),
        ),
        tmdb_id: None,
        tvdb_id: id_or_stored(
            numeric_column(error::opt_text(row.external_tvdb_series)),
            first_id(series_ids, seq!["tvdb"@, "tvdb_series"@, "thetvdb"@]),
        ),
        anilist_id: id_or_stored(
            numeric_column(error::opt_text(row.external_anilist)),
            first_id(series_ids, seq!["anilist"@, "ani_list"@]),
        ),
        mal_id: id_or_stored(
            first_id(episode_ids, seq!["mal"@, "myanimelist"@]),
            first_id(series_ids, seq!["mal"@, "myanimelist"@]),
        ),
        season_number: short_number(row.season_number),
        episode_number: short_number(row.episode_number),
        absolute_episode_number: short_number(row.absolute_episode_number),
        duration,
    }
}

/// What is known of a film.
pub fn movie_context(media_file_id: &str, row: &MovieRow, duration: Option<i64>) -> (r: ProviderMediaContext)
    ensures
        r@ == movie_context_of(media_file_id@, *row, duration),
{
    let imdb_names: Vec<&str> = vec!["imdb", "imdb_id"];
    let tmdb_names: Vec<&str> = vec!["tmdb", "tmdb_id"];
    proof {
        assert(reading::names(imdb_names@) =~= seq!["imdb"@, "imdb_id"@]);
        assert(reading::names(tmdb_names@) =~= seq!["tmdb"@, "tmdb_id"@]);
    }
    let stored_imdb = load_external_id(&row.external_ids, &imdb_names);
    let stored_tmdb = load_external_id(&row.external_ids, &tmdb_names);
    ProviderMediaContext {
        media_file_id: media_file_id.to_owned(),
        item_type: "movie".to_owned(),
        item_id: row.movie_id.clone(),
        imdb_id: imdb_or(&row.external_imdb, stored_imdb),
        tmdb_id: numeric_or(&row.external_tmdb, stored_tmdb),
        tvdb_id: None,
        anilist_id: None,
        mal_id: None,
        season_number: None,
        episode_number: None,
        absolute_episode_number: None,
        duration,
    }
}

fn shorten(n: Option<i64>) -> (r: Option<i32>)
    ensures
        r == short_number(n),
{
    match n {
        Some(n) => Some(#[verifier::truncate] (n as i32)),
        None => None,
    }
}

/// What is known of an episode.
pub fn episode_context(media_file_id: &str, row: &EpisodeRow, duration: Option<i64>) -> (r: ProviderMediaContext)
    ensures
        r@ == episode_context_of(media_file_id@, *row, duration),
{
    let imdb_names: Vec<&str> = vec!["imdb", "imdb_id"];
    let tvdb_names: Vec<&str> = vec!["tvdb", "tvdb_series", "thetvdb"];
    let anilist_names: Vec<&str> = vec!["anilist", "ani_list"];
    let mal_names: Vec<&str> = vec!["mal", "myanimelist"];
    proof {
        assert(reading::names(imdb_names@) =~= seq!["imdb"@, "imdb_id"@]);
        assert(reading::names(tvdb_names@) =~= seq!["tvdb"@, "tvdb_series"@, "thetvdb"@]);
        assert(reading::names(anilist_names@) =~= seq!["anilist"@, "ani_list"@]);
        assert(reading::names(mal_names@) =~= seq!["mal"@, "myanimelist"@]);
    }
    let stored_imdb = load_external_id(&row.series_external_ids, &imdb_names);
    let stored_tvdb = load_external_id(&row.series_external_ids, &tvdb_names);
    let stored_anilist = load_external_id(&row.series_external_ids, &anilist_names);
    let mal_id = match load_external_id(&row.episode_external_ids, &mal_names) {
        Some(id) => Some(id),
        None => load_external_id(&row.series_external_ids, &mal_names),
    };
    ProviderMediaContext {
        media_file_id: media_file_id.to_owned(),
        item_type: "episode".to_owned(),
        item_id: row.episode_id.clone(),
        imdb_id: imdb_or(&row.external_imdb, stored_imdb),
        tmdb_id: None,
        tvdb_id: numeric_or(&row.external_tvdb_series, stored_tvdb),
        anilist_id: numeric_or(&row.external_anilist, stored_anilist),
        mal_id,
        season_number: shorten(row.season_number),
        episode_number: shorten(row.episode_number),
        absolute_episode_number: shorten(row.absolute_episode_number),
        duration,
    }
}

/// What is known of the film that a file holds, else of the episode; a file
/// that holds neither is refused.
pub fn load_provider_media_context(
    media_file_id: &str,
    movie: Option<&MovieRow>,
    episode: Option<&EpisodeRow>,
    duration: Option<i64>,
) -> (r: Result<ProviderMediaContext, SegmentError>)
    ensures
        match r {
            Ok(c) => match movie {
                Some(m) => c@ == movie_context_of(media_file_id@, *m, duration),
                None => episode is Some && c@ == episode_context_of(
                    media_file_id@,
                    *episode->0,
                    duration,
                ),
            },
            Err(e) => movie is None && episode is None && e.message@
                == "media file is not linked to a movie or episode"@,
        },
{
    match movie {
        Some(m) => Ok(movie_context(media_file_id, m, duration)),
        None => match episode {
            Some(e) => Ok(episode_context(media_file_id, e, duration)),
            None => Err(refuse("media file is not linked to a movie or episode")),
        },
    }
}

/// The identifiers in what is known of a film are in normal form: taking the
/// normal form of one changes nothing.
pub proof fn film_ids_are_normal(media_file_id: Seq<char>, row: MovieRow, duration: Option<i64>)
    ensures
        ({
            let c = movie_context_of(media_file_id, row, duration);
            &&& c.imdb_id is Some ==> normalize::imdb_of(c.imdb_id->0) == c.imdb_id
            &&& c.tmdb_id is Some ==> normalize::numeric_of(c.tmdb_id->0) == c.tmdb_id
        }),
{
    let ids = id_pairs(row.external_ids@);
    lemma_column_normal(error::opt_text(row.external_imdb), error::opt_text(row.external_tmdb));
    lemma_first_imdb(ids, seq!["imdb"@, "imdb_id"@]);
    reveal_strlit("tmdb");
    reveal_strlit("tmdb_id");
    reveal_strlit("imdb");
    reveal_strlit("imdb_id");
    assert("tmdb"@[0] == 't' && "tmdb_id"@[0] == 't' && "imdb"@[0] == 'i' && "imdb_id"@[0] == 'i');
    lemma_first_numeric(ids, seq!["tmdb"@, "tmdb_id"@]);
}

proof fn lemma_column_normal(imdb: Option<Seq<char>>, numeric: Option<Seq<char>>)
    ensures
        imdb_column(imdb) is Some ==> normalize::imdb_of(imdb_column(imdb)->0) == imdb_column(imdb),
        numeric_column(numeric) is Some ==> normalize::numeric_of(numeric_column(numeric)->0)
            == numeric_column(numeric),
{
    if imdb is Some {
        normalize::external_id_normal_form_is_stable("imdb"@, imdb->0);
    }
    if numeric is Some {
        reveal_strlit("mal");
        reveal_strlit("imdb");
        reveal_strlit("imdb_id");
        assert("mal"@[0] == 'm' && "imdb"@[0] == 'i' && "imdb_id"@[0] == 'i');
        normalize::external_id_normal_form_is_stable("mal"@, numeric->0);
    }
}

proof fn lemma_first_imdb(ids: Seq<(Seq<char>, Seq<char>)>, providers: Seq<Seq<char>>)
    requires
        forall|i: int|
            0 <= i < providers.len() ==> (#[trigger] providers[i] == "imdb"@ || providers[i]
                == "imdb_id"@),
    ensures
        first_id(ids, providers) is Some ==> normalize::imdb_of(first_id(ids, providers)->0)
            == first_id(ids, providers),
    decreases providers.len(),
{
    if providers.len() > 0 {
        assert(providers[0] == "imdb"@ || providers[0] == "imdb_id"@);
        let rest = providers.drop_first();
        assert forall|i: int| 0 <= i < rest.len() implies (#[trigger] rest[i] == "imdb"@ || rest[i]
            == "imdb_id"@) by {
            assert(rest[i] == providers[i + 1]);
        }
        lemma_first_imdb(ids, rest);
        if stored_id(ids, providers[0]) is Some {
            normalize::external_id_normal_form_is_stable(
                providers[0],
                stored_id(ids, providers[0])->0,
            );
        }
    }
}

proof fn lemma_first_numeric(ids: Seq<(Seq<char>, Seq<char>)>, providers: Seq<Seq<char>>)
    requires
        forall|i: int|
            0 <= i < providers.len() ==> (#[trigger] providers[i] != "imdb"@ && providers[i]
                != "imdb_id"@),
    ensures
        first_id(ids, providers) is Some ==> normalize::numeric_of(first_id(ids, providers)->0)
            == first_id(ids, providers),
    decreases providers.len(),
{
    if providers.len() > 0 {
        assert(providers[0] != "imdb"@ && providers[0] != "imdb_id"@);
        let rest = providers.drop_first();
        assert forall|i: int| 0 <= i < rest.len() implies (#[trigger] rest[i] != "imdb"@ && rest[i]
            != "imdb_id"@) by {
            assert(rest[i] == providers[i + 1]);
        }
        lemma_first_numeric(ids, rest);
        if stored_id(ids, providers[0]) is Some {
            normalize::external_id_normal_form_is_stable(
                providers[0],
                stored_id(ids, providers[0])->0,
            );
        }
    }
}

/// The identifier of a provider is the first that is stored of it.
pub proof fn first_stored_identifier_counts(
    rows: Seq<(Seq<char>, Seq<char>)>,
    provider: Seq<char>,
    k: int,
)
    ensures
        0 <= k < rows.len() && rows[k].0 == provider && (forall|i: int|
            0 <= i < k ==> (#[trigger] rows[i]).0 != provider) ==> stored_id(rows, provider)
            == Some(rows[k].1),
        (forall|i: int| 0 <= i < rows.len() ==> (#[trigger] rows[i]).0 != provider) ==> stored_id(
            rows,
            provider,
        ) is None,
    decreases rows.len(),
{
    if rows.len() > 0 {
        let rest = rows.drop_first();
        first_stored_identifier_counts(rest, provider, k - 1);
        assert forall|i: int| 0 <= i < rest.len() implies #[trigger] rest[i] == rows[i + 1] by {}
        if 0 < k < rows.len() && (forall|i: int|
            0 <= i < k ==> (#[trigger] rows[i]).0 != provider) {
            assert(rows[0].0 != provider);
            assert forall|i: int| 0 <= i < k - 1 implies (#[trigger] rest[i]).0 != provider by {
                assert(rows[i + 1].0 != provider);
            }
        }
        if forall|i: int| 0 <= i < rows.len() ==> (#[trigger] rows[i]).0 != provider {
            assert(rows[0].0 != provider);
            assert forall|i: int| 0 <= i < rest.len() implies (
            #[trigger] rest[i]).0 != provider by {
                assert(rows[i + 1].0 != provider);
            }
        }
    }
}

/// Of a provider that goes by two names, the identifier under the first counts where it
/// is well formed, else the one under the second.
pub proof fn well_formed_identifiers_count(
    rows: Seq<(Seq<char>, Seq<char>)>,
    a: Seq<char>,
    b: Seq<char>,
)
    ensures
        ({
            let under = |p: Seq<char>|
                match stored_id(rows, p) {
                    Some(v) => normalize::external_id_of(p, v),
                    None => None,
                };
            &&& under(a) is Some ==> first_id(rows, seq![a, b]) == under(a)
            &&& under(a) is None ==> first_id(rows, seq![a, b]) == under(b)
        }),
{
    let both = seq![a, b];
    assert(both.drop_first() =~= seq![b]);
    assert(seq![b].drop_first() =~= Seq::empty());
    assert(both.drop_first()[0] == b);
    assert(first_id(rows, seq![b].drop_first()) is None);
    assert(first_id(rows, both.drop_first()) == first_id(rows, seq![b]));
    assert(seq![b][0] == b);
}

/// What is known of a film: its own identifiers where they are well formed, else those
/// that are stored of it; it has no season and no episode.
pub proof fn films_are_known_by_their_identifiers(
    media_file_id: Seq<char>,
    row: MovieRow,
    duration: Option<i64>,
)
    ensures
        ({
            let c = movie_context_of(media_file_id, row, duration);
            &&& c.media_file_id == media_file_id
            &&& c.item_type == "movie"@
            &&& c.item_id == row.movie_id@
            &&& c.duration == duration
            &&& row.external_imdb is Some && normalize::imdb_of(row.external_imdb->0@) is Some
                ==> c.imdb_id == normalize::imdb_of(row.external_imdb->0@)
            &&& row.external_imdb is None ==> c.imdb_id == first_id(
                id_pairs(row.external_ids@),
                seq!["imdb"@, "imdb_id"@],
            )
            &&& row.external_tmdb is Some && normalize::numeric_of(row.external_tmdb->0@) is Some
                ==> c.tmdb_id == normalize::numeric_of(row.external_tmdb->0@)
            &&& row.external_tmdb is None ==> c.tmdb_id == first_id(
                id_pairs(row.external_ids@),
                seq!["tmdb"@, "tmdb_id"@],
            )
            &&& c.tvdb_id is None && c.anilist_id is None && c.mal_id is None
            &&& c.season_number is None && c.episode_number is None && c.absolute_episode_number
                is None
        }),
{
}

/// What is known of an episode: the identifiers of its series, its own number at
/// MyAnimeList before that of the series, and its numbers.
pub proof fn episodes_are_known_by_their_series(
    media_file_id: Seq<char>,
    row: EpisodeRow,
    duration: Option<i64>,
)
    ensures
        ({
            let c = episode_context_of(media_file_id, row, duration);
            let own = id_pairs(row.episode_external_ids@);
            let series = id_pairs(row.series_external_ids@);
            &&& c.media_file_id == media_file_id
            &&& c.item_type == "episode"@
            &&& c.item_id == row.episode_id@
            &&& c.duration == duration
            &&& row.external_imdb is Some && normalize::imdb_of(row.external_imdb->0@) is Some
                ==> c.imdb_id == normalize::imdb_of(row.external_imdb->0@)
            &&& row.external_imdb is None ==> c.imdb_id == first_id(
                series,
                seq!["imdb"@, "imdb_id"@],
            )
            &&& row.external_tvdb_series is Some && normalize::numeric_of(
                row.external_tvdb_series->0@,
            ) is Some ==> c.tvdb_id == normalize::numeric_of(row.external_tvdb_series->0@)
            &&& row.external_anilist is Some && normalize::numeric_of(row.external_anilist->0@)
                is Some ==> c.anilist_id == normalize::numeric_of(row.external_anilist->0@)
            &&& first_id(own, seq!["mal"@, "myanimelist"@]) is Some ==> c.mal_id == first_id(
                own,
                seq!["mal"@, "myanimelist"@],
            )
            &&& first_id(own, seq!["mal"@, "myanimelist"@]) is None ==> c.mal_id == first_id(
                series,
                seq!["mal"@, "myanimelist"@],
            )
            &&& c.tmdb_id is None
            &&& row.season_number is Some && 0 <= row.season_number->0 <= 0x7fff_ffff
                ==> c.season_number == Some(row.season_number->0 as i32)
            &&& row.episode_number is Some && 0 <= row.episode_number->0 <= 0x7fff_ffff
                ==> c.episode_number == Some(row.episode_number->0 as i32)
            &&& row.absolute_episode_number is Some && 0 <= row.absolute_episode_number->0
                <= 0x7fff_ffff ==> c.absolute_episode_number == Some(
                row.absolute_episode_number->0 as i32,
            )
            &&& row.season_number is None ==> c.season_number is None
            &&& row.episode_number is None ==> c.episode_number is None
            &&& row.absolute_episode_number is None ==> c.absolute_episode_number is None
        }),
{
}

/// A file is known by the film that it holds, else by the episode; one that holds neither
/// is refused.
pub proof fn files_are_known_by_what_they_hold(
    media_file_id: &str,
    movie: Option<&MovieRow>,
    episode: Option<&EpisodeRow>,
    duration: Option<i64>,
    r: Result<ProviderMediaContext, SegmentError>,
)
    requires
        call_ensures(load_provider_media_context, (media_file_id, movie, episode, duration), r),
    ensures
        r is Ok <==> movie is Some || episode is Some,
        movie is Some ==> r->Ok_0@.item_type == "movie"@ && r->Ok_0@.item_id
            == movie->0.movie_id@,
        movie is None && episode is Some ==> r->Ok_0@.item_type == "episode"@ && r->Ok_0@.item_id
            == episode->0.episode_id@,
        r is Ok ==> r->Ok_0@.media_file_id == media_file_id@ && r->Ok_0@.duration == duration,
{
}

/// An episode that names no identifier of its own goes by those stored of its series, each
/// under the names of its catalogue.
pub proof fn stored_identifiers_fill_in(
    media_file_id: Seq<char>,
    row: EpisodeRow,
    duration: Option<i64>,
)
    ensures
        ({
            let c = episode_context_of(media_file_id, row, duration);
            let series = id_pairs(row.series_external_ids@);
            &&& row.external_tvdb_series is None ==> c.tvdb_id == first_id(
                series,
                seq!["tvdb"@, "tvdb_series"@, "thetvdb"@],
            )
            &&& row.external_anilist is None ==> c.anilist_id == first_id(
                series,
                seq!["anilist"@, "ani_list"@],
            )
            &&& row.external_imdb is None ==> c.imdb_id == first_id(
                series,
                seq!["imdb"@, "imdb_id"@],
            )
        }),
{
}

} // verus!
