//! The provider settings of a library, which stand over the user's own.

use vstd::prelude::*;
use crate::error::{opt_text, refuse, SegmentError};
use crate::json::{self, set_member, Json, JsonValue};
use crate::normalize;
use crate::settings;

verus! {

/// The provider settings of one library, as its owner sees them.
#[derive(Debug, Clone)]
pub struct MediaInteractionLibrarySettingsRecord {
    pub source_config_id: String,
    pub extension_id: String,
    pub source_enabled: bool,
    pub segment_provider_settings: JsonValue,
    pub effective_segment_provider_settings: JsonValue,
    pub created_at: Option<String>,
    pub updated_at: Option<String>,
}

/// A change of a library's provider settings.
#[derive(Debug, Clone, Default)]
pub struct MediaInteractionLibrarySettingsPatch {
    pub segment_provider_settings: Option<JsonValue>,
}

/// What a store holds of one provider's settings in a library.
#[derive(Debug, Clone)]
pub struct LibraryProviderRow {
    pub provider_kind: String,
    pub enabled: bool,
    /// The stored settings, absent where they cannot be read.
    pub settings: Option<JsonValue>,
    pub created_at: Option<String>,
    pub updated_at: Option<String>,
}

/// The provider settings of a library with the times of their changes.
#[derive(Debug, Clone)]
pub struct LibraryProviderSettings {
    pub settings: JsonValue,
    pub created_at: Option<String>,
    pub updated_at: Option<String>,
}

/// One provider's settings in a library after a patch.
#[derive(Debug, Clone)]
pub struct LibraryProviderUpdate {
    pub provider_id: String,
    pub settings: JsonValue,
    pub enabled: bool,
}

/// The settings of a row: what is stored, with the switch of the row.
pub open spec fn row_settings(settings: Option<Json>, enabled: bool) -> Json {
    let members = match settings {
        Some(j) => json::json_members(j),
        None => Seq::empty(),
    };
    Json::Object(json::with_member(members, "enabled"@, Json::Bool(enabled)))
}

/// The stored settings of a row.
pub open spec fn row_json(row: LibraryProviderRow) -> Option<Json> {
    match row.settings {
        Some(v) => Some(v@),
        None => None,
    }
}

/// The settings of a row: what is stored, with the switch of the row.
pub fn library_row_settings(settings: Option<&JsonValue>, enabled: bool) -> (v: JsonValue)
    ensures
        v@ == row_settings(json::opt_json(settings), enabled),
{
    let mut object = match settings {
        Some(j) => json::members_dup(j),
        None => {
            let o: Vec<(String, JsonValue)> = Vec::new();
            proof {
                assert(json::members_of(o@) =~= Seq::empty());
            }
            o
        },
    };
    set_member(&mut object, "enabled", JsonValue::Bool(enabled));
    proof {
        json::lemma_view_object(object);
    }
    JsonValue::Object(object)
}

/// The settings of every row under the normal form of its provider.
pub open spec fn rows_settings(rows: Seq<LibraryProviderRow>) -> Result<
    Seq<(Seq<char>, Json)>,
    Seq<char>,
>
    decreases rows.len(),
{
    if rows.len() == 0 {
        Ok(Seq::empty())
    } else {
        match rows_settings(rows.drop_last()) {
            Ok(m) => match normalize::provider_id_of(rows.last().provider_kind@) {
                Ok(id) => Ok(
                    json::with_member(
                        m,
                        id,
                        row_settings(row_json(rows.last()), rows.last().enabled),
                    ),
                ),
                Err(e) => Err(e),
            },
            Err(e) => Err(e),
        }
    }
}

/// The first creation time among the rows.
pub open spec fn first_created(rows: Seq<LibraryProviderRow>) -> Option<Seq<char>>
    decreases rows.len(),
{
    if rows.len() == 0 {
        None
    } else {
        match first_created(rows.drop_last()) {
            Some(t) => Some(t),
            None => opt_text(rows.last().created_at),
        }
    }
}

/// The last change time among the rows.
pub open spec fn last_updated(rows: Seq<LibraryProviderRow>) -> Option<Seq<char>>
    decreases rows.len(),
{
    if rows.len() == 0 {
        None
    } else {
        match opt_text(rows.last().updated_at) {
            Some(t) => Some(t),
            None => last_updated(rows.drop_last()),
        }
    }
}

proof fn lemma_rows_prefix_error(rows: Seq<LibraryProviderRow>, n: int)
    requires
        0 <= n <= rows.len(),
        rows_settings(rows.take(n)) is Err,
    ensures
        rows_settings(rows) == rows_settings(rows.take(n)),
    decreases rows.len() - n,
{
    if n == rows.len() {
        assert(rows.take(n) =~= rows);
    } else {
        assert(rows.take(n + 1).drop_last() =~= rows.take(n));
        lemma_rows_prefix_error(rows, n + 1);
    }
}

/// The provider settings that the rows of a library make up.
pub fn library_provider_settings_map(rows: &Vec<LibraryProviderRow>) -> (r: Result<
    LibraryProviderSettings,
    SegmentError,
>)
    ensures
        match (r, rows_settings(rows@)) {
            (Ok(v), Ok(m)) => {
                &&& v.settings@ == Json::Object(m)
                &&& opt_text(v.created_at) == first_created(rows@)
                &&& opt_text(v.updated_at) == last_updated(rows@)
            },
            (Err(e), Err(m)) => e.message@ == m,
            _ => false,
        },
{
    let mut map: Vec<(String, JsonValue)> = Vec::new();
    let mut created_at: Option<String> = None;
    let mut updated_at: Option<String> = None;
    proof {
        assert(rows@.take(0) =~= Seq::empty());
        assert(json::members_of(map@) =~= Seq::empty());
    }
    let mut i: usize = 0;
    while i < rows.len()
        invariant
            i <= rows@.len(),
            rows_settings(rows@.take(i as int)) == Ok::<Seq<(Seq<char>, Json)>, Seq<char>>(
                json::members_of(map@),
            ),
            opt_text(created_at) == first_created(rows@.take(i as int)),
            opt_text(updated_at) == last_updated(rows@.take(i as int)),
        decreases rows@.len() - i,
    {
        let row = &rows[i];
        proof {
            assert(rows@.take(i + 1).drop_last() =~= rows@.take(i as int));
            assert(rows@.take(i + 1).last() == rows@[i as int]);
        }
        match normalize::normalize_provider_id(row.provider_kind.as_str()) {
            Ok(id) => {
                let settings = library_row_settings(row.settings.as_ref(), row.enabled);
                set_member(&mut map, id.as_str(), settings);
            },
            Err(e) => {
                proof {
                    lemma_rows_prefix_error(rows@, i + 1);
                }
                return Err(e);
            },
        }
        if created_at.is_none() {
            created_at = row.created_at.clone();
        }
        match &row.updated_at {
            Some(t) => {
                updated_at = Some(t.clone());
            },
            None => {},
        }
        i += 1;
    }
    proof {
        assert(rows@.take(rows@.len() as int) =~= rows@);
        json::lemma_view_object(map);
    }
    Ok(LibraryProviderSettings { settings: JsonValue::Object(map), created_at, updated_at })
}

/// One provider's settings in a library after a patch: the patch goes over what
/// is stored, else over the defaults, else over a new entry.
pub open spec fn library_update(
    stored: Option<Json>,
    raw_id: Seq<char>,
    patch: Json,
) -> Result<Json, Seq<char>> {
    match normalize::provider_id_of(raw_id) {
        Ok(id) => {
            let current = match stored {
                Some(v) => v,
                None => match json::json_get(settings::default_settings(), id) {
                    Some(v) => v,
                    None => settings::new_entry(id),
                },
            };
            settings::merged_entry(current, patch)
        },
        Err(e) => Err(e),
    }
}

/// The providers that a patch speaks of, in its order, each with its change.
pub fn library_patch_entries(patch: &MediaInteractionLibrarySettingsPatch) -> (r: Result<
    Vec<(String, JsonValue)>,
    SegmentError,
>)
    ensures
        match json::opt_value(patch.segment_provider_settings) {
            None => r matches Ok(v) && v@.len() == 0,
            Some(Json::Object(o)) => r matches Ok(v) && json::members_of(v@) == o,
            Some(_) => r matches Err(e) && e.message@
                == "segment_provider_settings must be a JSON object"@,
        },
{
    match &patch.segment_provider_settings {
        None => Ok(Vec::new()),
        Some(v) => match v {
            JsonValue::Object(_) => Ok(json::members_dup(v)),
            _ => Err(refuse("segment_provider_settings must be a JSON object")),
        },
    }
}

/// Patches one provider's settings in a library.
pub fn update_library_provider_setting(
    stored: Option<&JsonValue>,
    provider_id: &str,
    patch: &JsonValue,
) -> (r: Result<LibraryProviderUpdate, SegmentError>)
    ensures
        match (r, library_update(json::opt_json(stored), provider_id@, patch@)) {
            (Ok(v), Ok(j)) => {
                &&& v.settings@ == j
                &&& v.enabled == settings::enabled_setting(Some(j), false)
                &&& normalize::provider_id_of(provider_id@) == Ok::<Seq<char>, Seq<char>>(
                    v.provider_id@,
                )
            },
            (Err(e), Err(m)) => e.message@ == m,
            _ => false,
        },
{
    let id = match normalize::normalize_provider_id(provider_id) {
        Ok(id) => id,
        Err(e) => {
            return Err(e);
        },
    };
    let current = match stored {
        Some(v) => v.dup(),
        None => {
            let defaults = settings::default_segment_provider_settings();
            match settings::provider_settings_for(&defaults, id.as_str()) {
                Some(v) => v,
                None => settings::new_provider_entry(id.as_str()),
            }
        },
    };
    match settings::merge_provider_setting_entry(&current, patch) {
        Ok(updated) => {
            let enabled = settings::provider_settings_enabled(Some(&updated));
            Ok(LibraryProviderUpdate { provider_id: id, settings: updated, enabled })
        },
        Err(e) => Err(e),
    }
}

/// The provider settings that hold for a file: the user's, under those of the
/// library that the file belongs to.
pub fn effective_segment_provider_settings(
    base: &JsonValue,
    library: Option<&JsonValue>,
) -> (r: Result<JsonValue, SegmentError>)
    ensures
        crate::error::json_agrees(
            r,
            match library {
                Some(l) => settings::merged_settings(base@, l@),
                None => Ok(base@),
            },
        ),
{
    match library {
        Some(l) => settings::merge_segment_provider_settings(base, l),
        None => Ok(base.dup()),
    }
}

/// The settings of a season: those of its first file that has the provider on,
/// else the first that there are.
pub open spec fn season_settings(files: Seq<Option<JsonValue>>) -> Option<Json> {
    if exists|i: int| 0 <= i < files.len() && file_enabled(#[trigger] files[i]) {
        let i = first_enabled(files, 0);
        file_json(files[i])
    } else {
        first_present(files, 0)
    }
}

pub open spec fn file_json(f: Option<JsonValue>) -> Option<Json> {
    match f {
        Some(v) => Some(v@),
        None => None,
    }
}

pub open spec fn file_enabled(f: Option<JsonValue>) -> bool {
    settings::enabled_setting(file_json(f), false)
}

/// The first file from `i` on that has the provider on.
pub open spec fn first_enabled(files: Seq<Option<JsonValue>>, i: int) -> int
    decreases files.len() - i,
{
    if i < files.len() && !file_enabled(files[i]) {
        first_enabled(files, i + 1)
    } else {
        i
    }
}

/// The first settings from file `i` on.
pub open spec fn first_present(files: Seq<Option<JsonValue>>, i: int) -> Option<Json>
    decreases files.len() - i,
{
    if i >= files.len() {
        None
    } else {
        match file_json(files[i]) {
            Some(v) => Some(v),
            None => first_present(files, i + 1),
        }
    }
}

/// The settings of a season, from those of its files.
pub fn provider_settings_for_first_enabled_file(files: &Vec<Option<JsonValue>>) -> (r: Option<
    JsonValue,
>)
    ensures
        file_json(r) == season_settings(files@),
{
    let mut first: Option<JsonValue> = None;
    let mut i: usize = 0;
    while i < files.len()
        invariant
            i <= files@.len(),
            forall|j: int| 0 <= j < i ==> !file_enabled(#[trigger] files@[j]),
            first_enabled(files@, 0) == first_enabled(files@, i as int),
            first is Some ==> first_present(files@, 0) == file_json(first),
            first is None ==> first_present(files@, 0) == first_present(files@, i as int),
        decreases files@.len() - i,
    {
        if first.is_none() {
            first = match &files[i] {
                Some(v) => Some(v.dup()),
                None => None,
            };
        }
        if settings::provider_settings_enabled(files[i].as_ref()) {
            assert(file_enabled(files@[i as int]));
            return match &files[i] {
                Some(v) => Some(v.dup()),
                None => None,
            };
        }
        i += 1;
    }
    first
}

/// What a library's row says of a provider: what is stored, but on or off as the row
/// says.
pub proof fn rows_switch_their_provider(settings: Option<Json>, enabled: bool, other: Seq<char>)
    ensures
        json::json_get(row_settings(settings, enabled), "enabled"@) == Some(Json::Bool(enabled)),
        other != "enabled"@ && settings is Some ==> json::json_get(
            row_settings(settings, enabled),
            other,
        ) == json::json_get(settings->0, other),
        other != "enabled"@ && settings is None ==> json::json_get(
            row_settings(settings, enabled),
            other,
        ) is None,
{
    let members = match settings {
        Some(j) => json::json_members(j),
        None => Seq::empty(),
    };
    json::lemma_lookup_with_member(members, "enabled"@, Json::Bool(enabled), "enabled"@);
    json::lemma_lookup_with_member(members, "enabled"@, Json::Bool(enabled), other);
    reveal_with_fuel(json::lookup, 1);
}

/// The settings of a library hold those of each row, under the provider's id, unless a
/// later row is of the same provider.
pub proof fn libraries_hold_their_rows(rows: Seq<LibraryProviderRow>, k: int, id: Seq<char>)
    requires
        rows_settings(rows) is Ok,
        0 <= k < rows.len(),
        normalize::provider_id_of(rows[k].provider_kind@) == Ok::<Seq<char>, Seq<char>>(id),
        forall|i: int|
            k < i < rows.len() ==> normalize::provider_id_of((#[trigger] rows[i]).provider_kind@)
                != Ok::<Seq<char>, Seq<char>>(id),
    ensures
        json::lookup(rows_settings(rows)->Ok_0, id) == Some(
            row_settings(row_json(rows[k]), rows[k].enabled),
        ),
    decreases rows.len(),
{
    let rest = rows.drop_last();
    let m = rows_settings(rest)->Ok_0;
    let last = rows.last();
    let own = normalize::provider_id_of(last.provider_kind@)->Ok_0;
    json::lemma_lookup_with_member(m, own, row_settings(row_json(last), last.enabled), id);
    if k < rest.len() {
        assert(normalize::provider_id_of(rows[rows.len() - 1].provider_kind@) != Ok::<
            Seq<char>,
            Seq<char>,
        >(id));
        assert forall|i: int| k < i < rest.len() implies normalize::provider_id_of(
            (#[trigger] rest[i]).provider_kind@,
        ) != Ok::<Seq<char>, Seq<char>>(id) by {
            assert(rest[i] == rows[i]);
        }
        assert(rest[k] == rows[k]);
        libraries_hold_their_rows(rest, k, id);
    }
}

/// A change of a provider in a library goes over what is stored of it, else over its
/// defaults, else over an entry that is off.
pub proof fn library_changes_go_over_what_is_stored(
    stored: Option<Json>,
    id: Seq<char>,
    patch: Json,
)
    requires
        normalize::provider_id_of(id) == Ok::<Seq<char>, Seq<char>>(id),
    ensures
        stored is Some ==> library_update(stored, id, patch) == settings::merged_entry(
            stored->0,
            patch,
        ),
        stored is None && json::json_get(settings::default_settings(), id) is Some
            ==> library_update(stored, id, patch) == settings::merged_entry(
            json::json_get(settings::default_settings(), id)->0,
            patch,
        ),
        stored is None && json::json_get(settings::default_settings(), id) is None
            ==> library_update(stored, id, patch) == settings::merged_entry(
            settings::new_entry(id),
            patch,
        ),
        patch is Bool ==> library_update(stored, id, patch) is Ok && json::json_get(
            library_update(stored, id, patch)->Ok_0,
            "enabled"@,
        ) == Some(patch),
{
    if patch is Bool {
        let current = match stored {
            Some(v) => v,
            None => match json::json_get(settings::default_settings(), id) {
                Some(v) => v,
                None => settings::new_entry(id),
            },
        };
        settings::truth_values_switch_providers(current, patch->Bool_0, id);
    }
}

/// The settings of a season are those of its first file that has the provider on; where
/// none has, the first there are.
pub proof fn seasons_take_the_first_file_that_is_on(files: Seq<Option<JsonValue>>, k: int)
    requires
        0 <= k < files.len(),
    ensures
        files[k] is Some && json::json_get(files[k]->0@, "enabled"@) == Some(Json::Bool(true)) && (
        forall|i: int|
            0 <= i < k ==> (#[trigger] files[i] is None || json::json_get(
                files[i]->0@,
                "enabled"@,
            ) != Some(Json::Bool(true)))) ==> season_settings(files) == Some(files[k]->0@),
        files[k] is Some && (forall|i: int|
            0 <= i < files.len() ==> (#[trigger] files[i] is None || json::json_get(
                files[i]->0@,
                "enabled"@,
            ) != Some(Json::Bool(true)))) && (forall|i: int|
            0 <= i < k ==> #[trigger] files[i] is None) ==> season_settings(files) == Some(
            files[k]->0@,
        ),
{
    assert forall|i: int| 0 <= i < files.len() implies (file_enabled(#[trigger] files[i]) <==> (
    files[i] is Some && json::json_get(files[i]->0@, "enabled"@) == Some(Json::Bool(true)))) by {}
    if file_enabled(files[k]) && forall|i: int|
        0 <= i < k ==> !file_enabled(#[trigger] files[i]) {
        lemma_first_enabled_at(files, 0, k);
    }
    if files[k] is Some && forall|i: int| 0 <= i < k ==> #[trigger] files[i] is None {
        lemma_first_present_at(files, 0, k);
    }
}

proof fn lemma_first_enabled_at(files: Seq<Option<JsonValue>>, i: int, k: int)
    requires
        0 <= i <= k < files.len(),
        file_enabled(files[k]),
        forall|j: int| i <= j < k ==> !file_enabled(#[trigger] files[j]),
    ensures
        first_enabled(files, i) == k,
    decreases k - i,
{
    if i < k {
        assert(!file_enabled(files[i]));
        lemma_first_enabled_at(files, i + 1, k);
    }
}

proof fn lemma_first_present_at(files: Seq<Option<JsonValue>>, i: int, k: int)
    requires
        0 <= i <= k < files.len(),
        files[k] is Some,
        forall|j: int| i <= j < k ==> #[trigger] files[j] is None,
    ensures
        first_present(files, i) == Some(files[k]->0@),
    decreases k - i,
{
    if i < k {
        assert(files[i] is None);
        lemma_first_present_at(files, i + 1, k);
    }
}

/// The settings of a library were made when the first of its rows was that says so, and
/// last changed when the last of them was.
pub proof fn libraries_keep_their_times(rows: Seq<LibraryProviderRow>, k: int)
    requires
        0 <= k < rows.len(),
    ensures
        rows[k].created_at is Some && (forall|i: int|
            0 <= i < k ==> (#[trigger] rows[i]).created_at is None) ==> first_created(rows) == Some(
            rows[k].created_at->0@,
        ),
        rows[k].updated_at is Some && (forall|i: int|
            k < i < rows.len() ==> (#[trigger] rows[i]).updated_at is None) ==> last_updated(rows)
            == Some(rows[k].updated_at->0@),
    decreases rows.len(),
{
    let rest = rows.drop_last();
    if k < rest.len() {
        assert(rest[k] == rows[k]);
        libraries_keep_their_times(rest, k);
        if forall|i: int| 0 <= i < k ==> (#[trigger] rows[i]).created_at is None {
            assert forall|i: int| 0 <= i < k implies (#[trigger] rest[i]).created_at is None by {
                assert(rows[i].created_at is None);
            }
        }
        if forall|i: int| k < i < rows.len() ==> (#[trigger] rows[i]).updated_at is None {
            assert(rows[rows.len() - 1].updated_at is None);
            assert forall|i: int| k < i < rest.len() implies (
            #[trigger] rest[i]).updated_at is None by {
                assert(rows[i].updated_at is None);
            }
        }
    } else if forall|i: int| 0 <= i < k ==> (#[trigger] rows[i]).created_at is None {
        lemma_none_created(rows, k);
    }
}

proof fn lemma_none_created(rows: Seq<LibraryProviderRow>, k: int)
    requires
        0 <= k <= rows.len(),
        forall|i: int| 0 <= i < k ==> (#[trigger] rows[i]).created_at is None,
    ensures
        first_created(rows.take(k)) is None,
        k == rows.len() - 1 ==> first_created(rows.drop_last()) is None,
    decreases k,
{
    if k > 0 {
        lemma_none_created(rows, k - 1);
        assert(rows.take(k).drop_last() =~= rows.take(k - 1));
        assert(rows[k - 1].created_at is None);
    }
    if k == rows.len() - 1 {
        assert(rows.drop_last() =~= rows.take(k));
    }
}

/// A change of a library names its providers; a provider that is changed is on just where
/// its settings then say so; and the settings that hold for a file are the user's with
/// those of its library merged into them.
pub proof fn library_settings_stand_over_the_users(
    stored: Option<&JsonValue>,
    provider_id: &str,
    patch: &JsonValue,
    update: Result<LibraryProviderUpdate, SegmentError>,
    base: &JsonValue,
    library: Option<&JsonValue>,
    effective: Result<JsonValue, SegmentError>,
)
    requires
        call_ensures(update_library_provider_setting, (stored, provider_id, patch), update),
        call_ensures(effective_segment_provider_settings, (base, library), effective),
    ensures
        update is Ok ==> (update->Ok_0.enabled <==> json::json_get(
            update->Ok_0.settings@,
            "enabled"@,
        ) == Some(Json::Bool(true))),
        update is Ok ==> normalize::provider_id_of(provider_id@) == Ok::<Seq<char>, Seq<char>>(
            update->Ok_0.provider_id@,
        ),
        library is None ==> effective is Ok && effective->Ok_0@ == base@,
        library is Some && effective is Ok ==> settings::merged_settings(base@, library->0@)
            == Ok::<Json, Seq<char>>(effective->Ok_0@),
        library is Some && effective is Err ==> settings::merged_settings(base@, library->0@) is Err,
{
}

/// A season of whose files none has settings has none.
pub proof fn seasons_without_settings(files: Seq<Option<JsonValue>>)
    requires
        forall|i: int| 0 <= i < files.len() ==> #[trigger] files[i] is None,
    ensures
        season_settings(files) is None,
{
    assert forall|i: int| 0 <= i < files.len() implies !file_enabled(#[trigger] files[i]) by {
        assert(files[i] is None);
    }
    lemma_none_present(files, 0);
}

proof fn lemma_none_present(files: Seq<Option<JsonValue>>, i: int)
    requires
        0 <= i <= files.len(),
        forall|k: int| 0 <= k < files.len() ==> #[trigger] files[k] is None,
    ensures
        first_present(files, i) is None,
    decreases files.len() - i,
{
    if i < files.len() {
        assert(files[i] is None);
        lemma_none_present(files, i + 1);
    }
}

} // verus!
