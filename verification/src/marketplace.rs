//! Segment providers that come with extensions: which of them can be asked, and
//! the segments in their responses.

use vstd::prelude::*;
use crate::candidate::{self, SegmentCandidateInput, Submission};
use crate::consts;
use crate::context::{MediaContext, ProviderMediaContext};
use crate::error::{opt_text, refuse, SegmentError};
use crate::json::{self, opt_text_value, text_value, Json, JsonValue};
use crate::normalize::{self, normalize_provider_id, segment_provider_media_type_matches};
use crate::number;
use crate::order;
use crate::quantity::{self, millis_string, Quantity};
use crate::reading::{self, as_array, provider_seconds};
use crate::responses::{
    self, opt_number_value, provider_confidence, provider_id_from_value, provider_segment_array,
    provider_segment_type,
};
use crate::settings::{self, marketplace_provider_settings_enabled};
use crate::text;

verus! {

/// An extension.
#[derive(Debug, Clone)]
pub struct InstalledExtension {
    pub extension_id: String,
    pub name: String,
    pub version: String,
    pub enabled: bool,
}

/// A running instance of an extension.
#[derive(Debug, Clone)]
pub struct InstalledInstance {
    pub instance_id: String,
    pub instance_name: String,
    pub runtime_version: Option<String>,
    pub enabled: bool,
}

/// A provider that an instance of an extension offers.
#[derive(Debug, Clone)]
pub struct InstalledProvider {
    pub provider_id: String,
    pub capability: String,
    pub healthy: bool,
    pub implementation: Option<String>,
    pub has_endpoint: bool,
    pub scope: Option<JsonValue>,
    pub extension: Option<InstalledExtension>,
    pub instance: Option<InstalledInstance>,
}

/// A provider that can be asked, and what for.
#[derive(Debug, Clone)]
pub struct MarketplaceSegmentProviderSelection {
    pub provider_id: String,
    pub implementation: Option<String>,
    pub extension_id: String,
    pub extension_name: String,
    pub extension_version: String,
    pub instance_id: String,
    pub instance_name: String,
    pub runtime_version: Option<String>,
    pub media_types: Vec<String>,
    pub segment_types: Vec<String>,
    pub actions: Vec<String>,
}

/// The same, as a mathematical value.
#[verifier::ext_equal]
pub struct Selection {
    pub provider_id: Seq<char>,
    pub implementation: Option<Seq<char>>,
    pub extension_id: Seq<char>,
    pub extension_name: Seq<char>,
    pub extension_version: Seq<char>,
    pub instance_id: Seq<char>,
    pub instance_name: Seq<char>,
    pub runtime_version: Option<Seq<char>>,
    pub media_types: Seq<Seq<char>>,
    pub segment_types: Seq<Seq<char>>,
    pub actions: Seq<Seq<char>>,
}

impl View for MarketplaceSegmentProviderSelection {
    type V = Selection;

    open spec fn view(&self) -> Selection {
        Selection {
            provider_id: self.provider_id@,
            implementation: opt_text(self.implementation),
            extension_id: self.extension_id@,
            extension_name: self.extension_name@,
            extension_version: self.extension_version@,
            instance_id: self.instance_id@,
            instance_name: self.instance_name@,
            runtime_version: opt_text(self.runtime_version),
            media_types: number::texts(self.media_types@),
            segment_types: number::texts(self.segment_types@),
            actions: number::texts(self.actions@),
        }
    }
}

/// The texts among some values, in normal form, without the empty ones.
pub open spec fn word_list(a: Seq<Json>) -> Seq<Seq<char>>
    decreases a.len(),
{
    if a.len() == 0 {
        Seq::empty()
    } else {
        let rest = word_list(a.drop_last());
        match json::json_text(a.last()) {
            Some(s) => if text::snake_seq(s).len() == 0 {
                rest
            } else {
                rest.push(text::snake_seq(s))
            },
            None => rest,
        }
    }
}

/// The segment types among some values, in normal form.
pub open spec fn type_list(a: Seq<Json>) -> Seq<Seq<char>>
    decreases a.len(),
{
    if a.len() == 0 {
        Seq::empty()
    } else {
        let rest = type_list(a.drop_last());
        match json::json_text(a.last()) {
            Some(s) => if normalize::is_segment_type(text::snake_seq(s)) {
                rest.push(text::snake_seq(s))
            } else {
                rest
            },
            None => rest,
        }
    }
}

/// The list in a member that may be absent; what is no list has nothing.
pub open spec fn list_in(v: Option<Json>) -> Seq<Json> {
    match v {
        Some(j) => match reading::json_array(j) {
            Some(a) => a,
            None => Seq::empty(),
        },
        None => Seq::empty(),
    }
}

/// The texts among some values, in normal form, without the empty ones.
pub fn media_segment_provider_string_array(values: &Vec<JsonValue>) -> (r: Vec<String>)
    ensures
        number::texts(r@) == word_list(reading::elements_of(values@)),
{
    let ghost all = reading::elements_of(values@);
    let mut out: Vec<String> = Vec::new();
    let mut i: usize = 0;
    proof {
        assert(all.take(0) =~= Seq::empty());
        assert(number::texts(out@) =~= Seq::empty());
    }
    while i < values.len()
        invariant
            i <= values@.len(),
            all == reading::elements_of(values@),
            number::texts(out@) == word_list(all.take(i as int)),
        decreases values@.len() - i,
    {
        proof {
            assert(all.take(i + 1).drop_last() =~= all.take(i as int));
            assert(all.take(i + 1).last() == values@[i as int]@);
        }
        if let Some(s) = values[i].as_text() {
            let word = text::to_snake(s.as_str());
            let ghost before = number::texts(out@);
            proof {
                reveal_strlit("");
                if word@.len() == 0 {
                    assert(word@ =~= ""@);
                }
            }
            if !text::str_eq(word.as_str(), "") {
                out.push(word);
                proof {
                    assert(number::texts(out@) =~= before.push(word@));
                }
            }
        }
        i += 1;
    }
    proof {
        assert(all.take(values@.len() as int) =~= all);
    }
    out
}

fn segment_type_list(values: &Vec<JsonValue>) -> (r: Vec<String>)
    ensures
        number::texts(r@) == type_list(reading::elements_of(values@)),
{
    let ghost all = reading::elements_of(values@);
    let mut out: Vec<String> = Vec::new();
    let mut i: usize = 0;
    proof {
        assert(all.take(0) =~= Seq::empty());
        assert(number::texts(out@) =~= Seq::empty());
    }
    while i < values.len()
        invariant
            i <= values@.len(),
            all == reading::elements_of(values@),
            number::texts(out@) == type_list(all.take(i as int)),
        decreases values@.len() - i,
    {
        proof {
            assert(all.take(i + 1).drop_last() =~= all.take(i as int));
            assert(all.take(i + 1).last() == values@[i as int]@);
        }
        if let Some(s) = values[i].as_text() {
            let word = text::to_snake(s.as_str());
            let ghost before = number::texts(out@);
            if normalize::allowed_segment_type(word.as_str()) {
                out.push(word);
                proof {
                    assert(number::texts(out@) =~= before.push(word@));
                }
            }
        }
        i += 1;
    }
    proof {
        assert(all.take(values@.len() as int) =~= all);
    }
    out
}

/// The media types that a scope names.
pub open spec fn scope_media_types(scope: Option<Json>) -> Seq<Seq<char>> {
    match scope {
        Some(j) => word_list(list_in(json::json_get_either(j, "media_types"@, "mediaTypes"@))),
        None => Seq::empty(),
    }
}

/// The segment types that a scope names.
pub open spec fn scope_segment_types(scope: Option<Json>) -> Seq<Seq<char>> {
    match scope {
        Some(j) => type_list(list_in(json::json_get_either(j, "segment_types"@, "segmentTypes"@))),
        None => Seq::empty(),
    }
}

/// The actions that a scope names.
pub open spec fn scope_actions(scope: Option<Json>) -> Seq<Seq<char>> {
    match scope {
        Some(j) => word_list(list_in(json::json_get(j, "actions"@))),
        None => Seq::empty(),
    }
}

/// What a provider is for: its media types, segment types and actions.
pub fn media_segment_provider_scope(scope: Option<&JsonValue>) -> (r: (
    Vec<String>,
    Vec<String>,
    Vec<String>,
))
    ensures
        number::texts(r.0@) == scope_media_types(json::opt_json(scope)),
        number::texts(r.1@) == scope_segment_types(json::opt_json(scope)),
        number::texts(r.2@) == scope_actions(json::opt_json(scope)),
{
    let mut media_types: Vec<String> = Vec::new();
    let mut segment_types: Vec<String> = Vec::new();
    let mut actions: Vec<String> = Vec::new();
    proof {
        assert(number::texts(media_types@) =~= Seq::empty());
        assert(number::texts(segment_types@) =~= Seq::empty());
        assert(number::texts(actions@) =~= Seq::empty());
    }
    if let Some(scope) = scope {
        if let Some(v) = scope.get_either("media_types", "mediaTypes") {
            if let Some(a) = as_array(v) {
                media_types = media_segment_provider_string_array(a);
            }
        }
        if let Some(v) = scope.get_either("segment_types", "segmentTypes") {
            if let Some(a) = as_array(v) {
                segment_types = segment_type_list(a);
            }
        }
        if let Some(v) = scope.get("actions") {
            if let Some(a) = as_array(v) {
                actions = media_segment_provider_string_array(a);
            }
        }
    }
    (media_types, segment_types, actions)
}

fn contains_text(v: &Vec<String>, s: &str) -> (r: bool)
    ensures
        r == number::texts(v@).contains(s@),
{
    let mut i: usize = 0;
    while i < v.len()
        invariant
            i <= v@.len(),
            forall|j: int| 0 <= j < i ==> #[trigger] v@[j]@ != s@,
        decreases v@.len() - i,
    {
        if text::str_eq(v[i].as_str(), s) {
            proof {
                assert(number::texts(v@)[i as int] == s@);
            }
            return true;
        }
        i += 1;
    }
    proof {
        if number::texts(v@).contains(s@) {
            let j = choose|j: int|
                0 <= j < number::texts(v@).len() && number::texts(v@)[j] == s@;
            assert(v@[j]@ == s@);
        }
    }
    false
}

/// Whether one of some media types serves the one that is asked for.
pub open spec fn serves_media_type(media_types: Seq<Seq<char>>, requested: Seq<char>) -> bool {
    exists|i: int|
        0 <= i < media_types.len() && normalize::media_type_served(
            #[trigger] media_types[i],
            requested,
        )
}

fn any_serves(media_types: &Vec<String>, requested: &str) -> (r: bool)
    ensures
        r == serves_media_type(number::texts(media_types@), requested@),
{
    let ghost all = number::texts(media_types@);
    let mut i: usize = 0;
    while i < media_types.len()
        invariant
            i <= media_types@.len(),
            all == number::texts(media_types@),
            forall|j: int| 0 <= j < i ==> !normalize::media_type_served(#[trigger] all[j], requested@),
        decreases media_types@.len() - i,
    {
        proof {
            assert(all[i as int] == media_types@[i as int]@);
        }
        if segment_provider_media_type_matches(media_types[i].as_str(), requested) {
            return true;
        }
        i += 1;
    }
    false
}

/// Whether a provider serves a media type.
pub fn segment_provider_supports_media_type(
    selected: &MarketplaceSegmentProviderSelection,
    requested_value: &str,
) -> (r: bool)
    ensures
        r == serves_media_type(selected@.media_types, requested_value@),
{
    any_serves(&selected.media_types, requested_value)
}

/// Whether a provider is for a segment type.
pub fn segment_provider_supports_segment_type(
    selected: &MarketplaceSegmentProviderSelection,
    segment_type: &str,
) -> (r: bool)
    ensures
        r == selected@.segment_types.contains(segment_type@),
{
    contains_text(&selected.segment_types, segment_type)
}

/// A provider that can be asked, with its extension and instance.
pub open spec fn selection_of(
    p: InstalledProvider,
    e: InstalledExtension,
    i: InstalledInstance,
) -> Selection {
    let scope = json::opt_value(p.scope);
    Selection {
        provider_id: p.provider_id@,
        implementation: opt_text(p.implementation),
        extension_id: e.extension_id@,
        extension_name: e.name@,
        extension_version: e.version@,
        instance_id: i.instance_id@,
        instance_name: i.instance_name@,
        runtime_version: opt_text(i.runtime_version),
        media_types: scope_media_types(scope),
        segment_types: scope_segment_types(scope),
        actions: scope_actions(scope),
    }
}

fn make_selection(
    p: &InstalledProvider,
    e: &InstalledExtension,
    i: &InstalledInstance,
    media_types: Vec<String>,
    segment_types: Vec<String>,
    actions: Vec<String>,
) -> (r: MarketplaceSegmentProviderSelection)
    requires
        number::texts(media_types@) == scope_media_types(json::opt_value(p.scope)),
        number::texts(segment_types@) == scope_segment_types(json::opt_value(p.scope)),
        number::texts(actions@) == scope_actions(json::opt_value(p.scope)),
    ensures
        r@ == selection_of(*p, *e, *i),
{
    MarketplaceSegmentProviderSelection {
        provider_id: p.provider_id.clone(),
        implementation: dup_text(&p.implementation),
        extension_id: e.extension_id.clone(),
        extension_name: e.name.clone(),
        extension_version: e.version.clone(),
        instance_id: i.instance_id.clone(),
        instance_name: i.instance_name.clone(),
        runtime_version: dup_text(&i.runtime_version),
        media_types,
        segment_types,
        actions,
    }
}

fn dup_text(t: &Option<String>) -> (r: Option<String>)
    ensures
        opt_text(r) == opt_text(*t),
{
    match t {
        Some(s) => Some(s.clone()),
        None => None,
    }
}

/// Whether a provider is among those that can be asked: it is healthy and can be
/// reached, its extension and instance are on, and its scope fits. It is an
/// error where the name of its implementation is not well formed.
pub open spec fn available(
    p: InstalledProvider,
    provider_kind: Option<Seq<char>>,
    media_type: Option<Seq<char>>,
) -> Result<Option<Selection>, Seq<char>> {
    let scope = json::opt_value(p.scope);
    let media_types = scope_media_types(scope);
    if p.capability@ != consts::MEDIA_SEGMENT_PROVIDER_CAPABILITY@ || !p.healthy
        || p.implementation is None {
        Ok(None)
    } else {
        match normalize::provider_id_of(p.implementation->0@) {
            Err(m) => Err(m),
            Ok(kind) => if (provider_kind is Some && kind != provider_kind->0) || !p.has_endpoint
                || p.extension is None || !p.extension->0.enabled || p.instance is None
                || !p.instance->0.enabled || !scope_actions(scope).contains("lookup"@)
                || scope_segment_types(scope).len() == 0 || (media_type is Some && media_types.len()
                > 0 && !serves_media_type(media_types, media_type->0)) {
                Ok(None)
            } else {
                Ok(Some(selection_of(p, p.extension->0, p.instance->0)))
            },
        }
    }
}

fn check_available(p: &InstalledProvider, provider_kind: Option<&str>, media_type: Option<&str>) -> (r:
    Result<Option<MarketplaceSegmentProviderSelection>, SegmentError>)
    ensures
        match (r, available(*p, opt_str(provider_kind), opt_str(media_type))) {
            (Ok(None), Ok(None)) => true,
            (Ok(Some(a)), Ok(Some(b))) => a@ == b,
            (Err(e), Err(m)) => e.message@ == m,
            _ => false,
        },
{
    if !text::str_eq(p.capability.as_str(), consts::MEDIA_SEGMENT_PROVIDER_CAPABILITY)
        || !p.healthy {
        return Ok(None);
    }
    let kind = match &p.implementation {
        Some(implementation) => match normalize_provider_id(implementation.as_str()) {
            Ok(k) => k,
            Err(e) => {
                return Err(e);
            },
        },
        None => {
            return Ok(None);
        },
    };
    if let Some(wanted) = provider_kind {
        if !text::str_eq(kind.as_str(), wanted) {
            return Ok(None);
        }
    }
    if !p.has_endpoint {
        return Ok(None);
    }
    let extension: &InstalledExtension = match &p.extension {
        Some(e) => e,
        None => {
            return Ok(None);
        },
    };
    let instance: &InstalledInstance = match &p.instance {
        Some(i) => i,
        None => {
            return Ok(None);
        },
    };
    if !extension.enabled || !instance.enabled {
        return Ok(None);
    }
    let (media_types, segment_types, actions) = media_segment_provider_scope(p.scope.as_ref());
    if !contains_text(&actions, "lookup") || segment_types.len() == 0 {
        return Ok(None);
    }
    if let Some(wanted) = media_type {
        if media_types.len() > 0 && !any_serves(&media_types, wanted) {
            return Ok(None);
        }
    }
    Ok(Some(make_selection(p, extension, instance, media_types, segment_types, actions)))
}

/// A text that may be absent.
pub open spec fn opt_str(t: Option<&str>) -> Option<Seq<char>> {
    match t {
        Some(s) => Some(s@),
        None => None,
    }
}

/// Whether `a` comes before `b`: by the name of the extension, that of the
/// instance, and the identifier of the provider.
pub open spec fn listed_before(a: Selection, b: Selection) -> bool {
    if a.extension_name != b.extension_name {
        text::lex_lt(a.extension_name, b.extension_name)
    } else if a.instance_name != b.instance_name {
        text::lex_lt(a.instance_name, b.instance_name)
    } else {
        text::lex_lt(a.provider_id, b.provider_id)
    }
}

/// The order in which providers are listed.
pub open spec fn listing_order() -> spec_fn(Selection, Selection) -> bool {
    |a: Selection, b: Selection| listed_before(a, b)
}

/// The providers among the first ones that can be asked, or the first error.
pub open spec fn all_available(
    details: Seq<InstalledProvider>,
    provider_kind: Option<Seq<char>>,
    media_type: Option<Seq<char>>,
) -> Result<Seq<Selection>, Seq<char>>
    decreases details.len(),
{
    if details.len() == 0 {
        Ok(Seq::empty())
    } else {
        match all_available(details.drop_last(), provider_kind, media_type) {
            Err(m) => Err(m),
            Ok(s) => match available(details.last(), provider_kind, media_type) {
                Err(m) => Err(m),
                Ok(None) => Ok(s),
                Ok(Some(x)) => Ok(s.push(x)),
            },
        }
    }
}

proof fn lemma_available_prefix_error(
    details: Seq<InstalledProvider>,
    provider_kind: Option<Seq<char>>,
    media_type: Option<Seq<char>>,
    i: int,
)
    requires
        0 <= i <= details.len(),
        all_available(details.take(i), provider_kind, media_type) is Err,
    ensures
        all_available(details, provider_kind, media_type) == all_available(
            details.take(i),
            provider_kind,
            media_type,
        ),
    decreases details.len() - i,
{
    if i < details.len() {
        assert(details.take(i + 1).drop_last() =~= details.take(i));
        lemma_available_prefix_error(details, provider_kind, media_type, i + 1);
    } else {
        assert(details.take(i) =~= details);
    }
}

/// Some providers, as mathematical values.
pub open spec fn selections(v: Seq<MarketplaceSegmentProviderSelection>) -> Seq<Selection> {
    v.map_values(|s: MarketplaceSegmentProviderSelection| s@)
}

fn is_listed_before(
    a: &MarketplaceSegmentProviderSelection,
    b: &MarketplaceSegmentProviderSelection,
) -> (r: bool)
    ensures
        r == listed_before(a@, b@),
{
    if !text::str_eq(a.extension_name.as_str(), b.extension_name.as_str()) {
        text::str_lt(a.extension_name.as_str(), b.extension_name.as_str())
    } else if !text::str_eq(a.instance_name.as_str(), b.instance_name.as_str()) {
        text::str_lt(a.instance_name.as_str(), b.instance_name.as_str())
    } else {
        text::str_lt(a.provider_id.as_str(), b.provider_id.as_str())
    }
}

fn place_selection(
    out: &mut Vec<MarketplaceSegmentProviderSelection>,
    c: MarketplaceSegmentProviderSelection,
)
    ensures
        selections(final(out)@) == order::place_by(selections(old(out)@), c@, listing_order()),
{
    let ghost before = selections(out@);
    let n: usize = out.len();
    let mut p: usize = 0;
    while p < n && !is_listed_before(&c, &out[p])
        invariant
            p <= n == out@.len(),
            before == selections(out@),
            forall|i: int| 0 <= i < p ==> !listing_order()(c@, #[trigger] before[i]),
        decreases n - p,
    {
        proof {
            assert(before[p as int] == out@[p as int]@);
        }
        p += 1;
    }
    proof {
        if p < n {
            assert(before[p as int] == out@[p as int]@);
        }
        order::lemma_place_at(before, c@, listing_order(), p as int);
    }
    out.insert(p, c);
    proof {
        assert(selections(out@) =~= before.insert(p as int, c@));
    }
}

/// The providers that can be asked, in the order of their listing.
pub open spec fn available_in_order(
    details: Seq<InstalledProvider>,
    provider_kind: Option<Seq<char>>,
    media_type: Option<Seq<char>>,
) -> Result<Seq<Selection>, Seq<char>> {
    let kind = match provider_kind {
        Some(k) => match normalize::provider_id_of(k) {
            Ok(s) => Ok(Some(s)),
            Err(_) => Err("normalizing marketplace segment provider kind"@),
        },
        None => Ok(None),
    };
    match kind {
        Err(m) => Err(m),
        Ok(k) => match all_available(details, k, media_type) {
            Err(m) => Err(m),
            Ok(s) => Ok(order::arranged(s, listing_order())),
        },
    }
}

/// The providers that can be asked, in the order of their listing.
pub fn available_marketplace_segment_providers(
    details: &Vec<InstalledProvider>,
    provider_kind: Option<&str>,
    media_type: Option<&str>,
) -> (r: Result<Vec<MarketplaceSegmentProviderSelection>, SegmentError>)
    ensures
        match (r, available_in_order(details@, opt_str(provider_kind), opt_str(media_type))) {
            (Ok(v), Ok(s)) => selections(v@) == s,
            (Err(e), Err(m)) => e.message@ == m,
            _ => false,
        },
{
    let mut kind_text: String = String::new();
    if let Some(k) = provider_kind {
        match normalize_provider_id(k) {
            Ok(s) => {
                kind_text = s;
            },
            Err(_) => {
                return Err(refuse("normalizing marketplace segment provider kind"));
            },
        }
    }
    let kind: Option<&str> = if provider_kind.is_some() {
        Some(kind_text.as_str())
    } else {
        None
    };
    let ghost k = opt_str(kind);
    let ghost m = opt_str(media_type);
    let mut out: Vec<MarketplaceSegmentProviderSelection> = Vec::new();
    let mut i: usize = 0;
    proof {
        assert(details@.take(0) =~= Seq::empty());
        assert(selections(out@) =~= order::arranged(Seq::<Selection>::empty(), listing_order()));
    }
    while i < details.len()
        invariant
            i <= details@.len(),
            k == opt_str(kind),
            m == opt_str(media_type),
            available_in_order(details@, opt_str(provider_kind), m) == match all_available(
                details@,
                k,
                m,
            ) {
                Err(m) => Err(m),
                Ok(s) => Ok(order::arranged(s, listing_order())),
            },
            all_available(details@.take(i as int), k, m) is Ok,
            selections(out@) == order::arranged(
                all_available(details@.take(i as int), k, m)->Ok_0,
                listing_order(),
            ),
        decreases details@.len() - i,
    {
        proof {
            assert(details@.take(i + 1).drop_last() =~= details@.take(i as int));
        }
        let ghost before = all_available(details@.take(i as int), k, m)->Ok_0;
        match check_available(&details[i], kind, media_type) {
            Ok(Some(c)) => {
                place_selection(&mut out, c);
                proof {
                    assert(before.push(c@).drop_last() =~= before);
                }
            },
            Ok(None) => {},
            Err(e) => {
                proof {
                    lemma_available_prefix_error(details@, k, m, i + 1);
                }
                return Err(e);
            },
        }
        i += 1;
    }
    proof {
        assert(details@.take(details@.len() as int) =~= details@);
    }
    Ok(out)
}

/// The first provider of a kind that can be asked.
pub fn select_marketplace_segment_provider(
    details: &Vec<InstalledProvider>,
    provider_kind: &str,
    media_type: Option<&str>,
) -> (r: Result<MarketplaceSegmentProviderSelection, SegmentError>)
    ensures
        match normalize::provider_id_of(provider_kind@) {
            Err(m) => r matches Err(e) && e.message@ == m,
            Ok(kind) => match available_in_order(details@, Some(kind), opt_str(media_type)) {
                Err(m) => r matches Err(e) && e.message@ == m,
                Ok(s) => if s.len() == 0 {
                    r matches Err(e) && e.message@ == "media segment provider '"@ + kind
                        + "' is not available"@
                } else {
                    r matches Ok(c) && c@ == s[0]
                },
            },
        },
{
    let kind = match normalize_provider_id(provider_kind) {
        Ok(k) => k,
        Err(e) => {
            return Err(e);
        },
    };
    let mut found = match available_marketplace_segment_providers(
        details,
        Some(kind.as_str()),
        media_type,
    ) {
        Ok(v) => v,
        Err(e) => {
            return Err(e);
        },
    };
    if found.len() == 0 {
        let message = text::join3(
            "media segment provider '",
            kind.as_str(),
            "' is not available",
        );
        return Err(refuse(message.as_str()));
    }
    let ghost all = selections(found@);
    let first = found.remove(0);
    proof {
        assert(all[0] == first@);
    }
    Ok(first)
}

/// Why a provider that was asked for by its identifier cannot be asked.
pub open spec fn selection_refusal(provider_id: Seq<char>, p: Option<InstalledProvider>) -> Option<
    Seq<char>,
> {
    if p is None {
        Some("media segment provider '"@ + provider_id + "' was not found"@)
    } else {
        let p = p->0;
        let scope = json::opt_value(p.scope);
        if p.capability@ != consts::MEDIA_SEGMENT_PROVIDER_CAPABILITY@ {
            Some("provider is not a media segment provider"@)
        } else if !p.has_endpoint {
            Some("media segment provider endpoint is missing"@)
        } else if p.instance is None {
            Some("media segment provider instance was not found"@)
        } else if !p.instance->0.enabled {
            Some("media segment provider instance is disabled"@)
        } else if p.extension is None {
            Some("media segment provider extension was not found"@)
        } else if !p.extension->0.enabled {
            Some("media segment provider extension is disabled"@)
        } else if !scope_actions(scope).contains("lookup"@) {
            Some("media segment provider does not declare lookup action"@)
        } else if scope_segment_types(scope).len() == 0 {
            Some("media segment provider does not declare usable segment types"@)
        } else {
            None
        }
    }
}

/// A provider that was asked for by its identifier.
pub fn select_marketplace_segment_provider_by_id(
    provider_id: &str,
    provider: Option<&InstalledProvider>,
) -> (r: Result<MarketplaceSegmentProviderSelection, SegmentError>)
    ensures
        match selection_refusal(
            provider_id@,
            match provider {
                Some(p) => Some(*p),
                None => None,
            },
        ) {
            Some(m) => r matches Err(e) && e.message@ == m,
            None => r matches Ok(c) && c@ == selection_of(
                *provider->0,
                provider->0.extension->0,
                provider->0.instance->0,
            ),
        },
{
    let p: &InstalledProvider = match provider {
        Some(p) => p,
        None => {
            let message = text::join3("media segment provider '", provider_id, "' was not found");
            return Err(refuse(message.as_str()));
        },
    };
    if !text::str_eq(p.capability.as_str(), consts::MEDIA_SEGMENT_PROVIDER_CAPABILITY) {
        return Err(refuse("provider is not a media segment provider"));
    }
    if !p.has_endpoint {
        return Err(refuse("media segment provider endpoint is missing"));
    }
    let instance: &InstalledInstance = match &p.instance {
        Some(i) => i,
        None => {
            return Err(refuse("media segment provider instance was not found"));
        },
    };
    if !instance.enabled {
        return Err(refuse("media segment provider instance is disabled"));
    }
    let extension: &InstalledExtension = match &p.extension {
        Some(e) => e,
        None => {
            return Err(refuse("media segment provider extension was not found"));
        },
    };
    if !extension.enabled {
        return Err(refuse("media segment provider extension is disabled"));
    }
    let (media_types, segment_types, actions) = media_segment_provider_scope(p.scope.as_ref());
    if !contains_text(&actions, "lookup") {
        return Err(refuse("media segment provider does not declare lookup action"));
    }
    if segment_types.len() == 0 {
        return Err(refuse("media segment provider does not declare usable segment types"));
    }
    Ok(make_selection(p, extension, instance, media_types, segment_types, actions))
}

/// The media type of a film or episode: an episode with an identifier of an
/// anime list is anime.
pub open spec fn context_media_type(c: MediaContext) -> Seq<char> {
    if c.item_type == "movie"@ {
        "movie"@
    } else if c.mal_id is Some || c.anilist_id is Some {
        "anime"@
    } else {
        "series"@
    }
}

/// The media type of a film or episode.
pub fn marketplace_provider_media_type_for_context(context: &ProviderMediaContext) -> (r: String)
    ensures
        r@ == context_media_type(context@),
{
    if text::str_eq(context.item_type.as_str(), "movie") {
        "movie".to_owned()
    } else if context.mal_id.is_some() || context.anilist_id.is_some() {
        "anime".to_owned()
    } else {
        "series".to_owned()
    }
}

/// The identifiers of a film or episode, as a provider is told them.
pub open spec fn external_ids_json(c: MediaContext) -> Json {
    Json::Object(
        seq![
            ("anilist"@, json::opt_text_json(c.anilist_id)),
            ("imdb"@, json::opt_text_json(c.imdb_id)),
            ("mal"@, json::opt_text_json(c.mal_id)),
            ("tmdb"@, json::opt_text_json(c.tmdb_id)),
            ("tvdb"@, json::opt_text_json(c.tvdb_id)),
        ],
    )
}

/// The identifiers of a film or episode, as a provider is told them.
pub fn marketplace_provider_external_ids(context: &ProviderMediaContext) -> (v: JsonValue)
    ensures
        v@ == external_ids_json(context@),
{
    let mut o: Vec<(String, JsonValue)> = Vec::new();
    o.push(("anilist".to_owned(), opt_text_value(&context.anilist_id)));
    o.push(("imdb".to_owned(), opt_text_value(&context.imdb_id)));
    o.push(("mal".to_owned(), opt_text_value(&context.mal_id)));
    o.push(("tmdb".to_owned(), opt_text_value(&context.tmdb_id)));
    o.push(("tvdb".to_owned(), opt_text_value(&context.tvdb_id)));
    proof {
        json::lemma_view_object(o);
        assert(json::members_of(o@) =~= external_ids_json(context@)->Object_0);
    }
    JsonValue::Object(o)
}

/// A number, or the word for none.
pub open spec fn number_or_none(n: Option<i32>) -> Seq<char> {
    match n {
        Some(n) => text::decimal_int(n as int),
        None => "none"@,
    }
}

fn number_or_none_text(n: Option<i32>) -> (r: String)
    ensures
        r@ == number_or_none(n),
{
    match n {
        Some(n) => text::i64_text(n as i64),
        None => "none".to_owned(),
    }
}

/// Under what a reply of a provider is kept.
pub open spec fn marketplace_key(provider_id: Seq<char>, c: MediaContext) -> Seq<char> {
    "provider:"@ + provider_id + ":media_file:"@ + c.media_file_id + ":duration:"@
        + quantity::millis_text(
        match c.duration {
            Some(d) => d as int,
            None => 0,
        },
    ) + ":season:"@ + number_or_none(c.season_number) + ":episode:"@ + number_or_none(
        c.episode_number,
    ) + ":absolute:"@ + number_or_none(c.absolute_episode_number)
}

/// Under what a reply of a provider is kept.
pub fn marketplace_segment_provider_cache_key(
    selected: &MarketplaceSegmentProviderSelection,
    context: &ProviderMediaContext,
) -> (r: String)
    ensures
        r@ == marketplace_key(selected@.provider_id, context@),
{
    let duration: i64 = match context.duration {
        Some(d) => d,
        None => 0,
    };
    let duration_text = millis_string(duration);
    let season = number_or_none_text(context.season_number);
    let episode = number_or_none_text(context.episode_number);
    let absolute = number_or_none_text(context.absolute_episode_number);
    let mut key = text::join3("provider:", selected.provider_id.as_str(), ":media_file:");
    key.append(context.media_file_id.as_str());
    key.append(":duration:");
    key.append(duration_text.as_str());
    key.append(":season:");
    key.append(season.as_str());
    key.append(":episode:");
    key.append(episode.as_str());
    key.append(":absolute:");
    key.append(absolute.as_str());
    key
}

/// The trimmed text under either of two names, where it is not empty.
pub open spec fn own_text(j: Json, a: Seq<char>, b: Seq<char>) -> Option<Seq<char>> {
    match json::json_get_either(j, a, b) {
        Some(v) => match json::json_text(v) {
            Some(s) => if text::trim_seq(s).len() == 0 {
                None
            } else {
                Some(text::trim_seq(s))
            },
            None => None,
        },
        None => None,
    }
}

fn read_own_text(value: &JsonValue, a: &str, b: &str) -> (r: Option<String>)
    ensures
        opt_text(r) == own_text(value@, a@, b@),
{
    match value.get_either(a, b) {
        Some(v) => match v.as_text() {
            Some(s) => {
                let t = text::trim(s.as_str());
                proof {
                    reveal_strlit("");
                    if t@.len() == 0 {
                        assert(t@ =~= ""@);
                    }
                }
                if text::str_eq(t.as_str(), "") {
                    None
                } else {
                    Some(t)
                }
            },
            None => None,
        },
        None => None,
    }
}

/// Who a segment is from: the entry says so, else the provider.
pub open spec fn candidate_provider_id(s: Selection, entry: Json) -> Seq<char> {
    match own_text(entry, "provider_id"@, "providerId"@) {
        Some(t) => t,
        None => s.provider_id,
    }
}

/// Who a segment is from.
pub fn marketplace_segment_candidate_provider_id(
    selected: &MarketplaceSegmentProviderSelection,
    value: &JsonValue,
) -> (r: String)
    ensures
        r@ == candidate_provider_id(selected@, value@),
{
    match read_own_text(value, "provider_id", "providerId") {
        Some(t) => t,
        None => selected.provider_id.clone(),
    }
}

/// The version of who a segment is from: the entry says so, else the extension.
pub open spec fn candidate_provider_version(s: Selection, entry: Json) -> Seq<char> {
    match own_text(entry, "provider_version"@, "providerVersion"@) {
        Some(t) => t,
        None => s.extension_version,
    }
}

/// The version of who a segment is from.
pub fn marketplace_segment_provider_version(
    selected: &MarketplaceSegmentProviderSelection,
    value: &JsonValue,
) -> (r: Option<String>)
    ensures
        opt_text(r) == Some(candidate_provider_version(selected@, value@)),
{
    match read_own_text(value, "provider_version", "providerVersion") {
        Some(t) => Some(t),
        None => Some(selected.extension_version.clone()),
    }
}

/// How strongly a segment is tied to the file, as far as an extension may claim
/// it.
pub open spec fn claimed_strength(j: Json) -> Seq<char> {
    let raw = match json::json_get_either(j, "identity_strength"@, "identityStrength"@) {
        Some(v) => match json::json_text(v) {
            Some(s) => s,
            None => "metadata_fuzzy"@,
        },
        None => "metadata_fuzzy"@,
    };
    let s = text::snake_seq(raw);
    if s == "external_id_exact"@ || s == "external_id_episode"@ || s == "metadata_fuzzy"@ || s
        == "unknown"@ {
        s
    } else {
        "metadata_fuzzy"@
    }
}

fn strength_of(raw: &str) -> (r: String)
    ensures
        r@ == ({
            let s = text::snake_seq(raw@);
            if s == "external_id_exact"@ || s == "external_id_episode"@ || s == "metadata_fuzzy"@
                || s == "unknown"@ {
                s
            } else {
                "metadata_fuzzy"@
            }
        }),
{
    let normal = text::to_snake(raw);
    let s = normal.as_str();
    if text::str_eq(s, "external_id_exact") || text::str_eq(s, "external_id_episode")
        || text::str_eq(s, "metadata_fuzzy") || text::str_eq(s, "unknown") {
        normal
    } else {
        "metadata_fuzzy".to_owned()
    }
}

/// How strongly a segment is tied to the file.
pub fn marketplace_segment_identity_strength(value: &JsonValue) -> (r: String)
    ensures
        r@ == claimed_strength(value@),
{
    match value.get_either("identity_strength", "identityStrength") {
        Some(v) => match v.as_text() {
            Some(s) => strength_of(s.as_str()),
            None => strength_of("metadata_fuzzy"),
        },
        None => strength_of("metadata_fuzzy"),
    }
}

/// The JSON form of some texts.
pub open spec fn texts_json(t: Seq<Seq<char>>) -> Json {
    Json::Array(t.map_values(|s: Seq<char>| Json::Text(s)))
}

/// The JSON form of some texts.
pub fn texts_value(t: &Vec<String>) -> (v: JsonValue)
    ensures
        v@ == texts_json(number::texts(t@)),
{
    let ghost all = number::texts(t@).map_values(|s: Seq<char>| Json::Text(s));
    let mut out: Vec<JsonValue> = Vec::new();
    let mut i: usize = 0;
    while i < t.len()
        invariant
            i <= t@.len(),
            out@.len() == i,
            all == number::texts(t@).map_values(|s: Seq<char>| Json::Text(s)),
            forall|j: int| 0 <= j < i ==> #[trigger] out@[j]@ == all[j],
        decreases t@.len() - i,
    {
        let e = text_value(t[i].as_str());
        out.push(e);
        i += 1;
    }
    proof {
        assert forall|j: int| 0 <= j < all.len() implies #[trigger] all[j] == json::json_of(
            out@[j],
        ) by {
            assert(out@[j]@ == all[j]);
        }
        json::lemma_view_array(out, all);
    }
    JsonValue::Array(out)
}

/// What a candidate of an extension says of its source.
pub open spec fn marketplace_payload(
    provider_kind: Seq<char>,
    s: Selection,
    c: MediaContext,
    entry: Json,
) -> Json {
    Json::Object(
        seq![
            ("absolute_episode_number"@, responses::opt_number_json(c.absolute_episode_number)),
            ("actions"@, texts_json(s.actions)),
            ("anilist_id"@, json::opt_text_json(c.anilist_id)),
            ("episode_number"@, responses::opt_number_json(c.episode_number)),
            ("extension_id"@, Json::Text(s.extension_id)),
            ("imdb_id"@, json::opt_text_json(c.imdb_id)),
            ("implementation"@, json::opt_text_json(s.implementation)),
            ("instance_id"@, Json::Text(s.instance_id)),
            ("mal_id"@, json::opt_text_json(c.mal_id)),
            ("media_types"@, texts_json(s.media_types)),
            ("provider"@, Json::Text("marketplace"@)),
            ("provider_id"@, Json::Text(s.provider_id)),
            ("provider_kind"@, Json::Text(provider_kind)),
            ("provider_segment_id"@, json::json_or_null(responses::id_in(entry))),
            ("raw"@, entry),
            ("season_number"@, responses::opt_number_json(c.season_number)),
            ("segment_types"@, texts_json(s.segment_types)),
            ("tmdb_id"@, json::opt_text_json(c.tmdb_id)),
            ("tvdb_id"@, json::opt_text_json(c.tvdb_id)),
        ],
    )
}

fn marketplace_payload_value(
    provider_kind: &str,
    selected: &MarketplaceSegmentProviderSelection,
    context: &ProviderMediaContext,
    entry: &JsonValue,
) -> (v: JsonValue)
    ensures
        v@ == marketplace_payload(provider_kind@, selected@, context@, entry@),
{
    let id = provider_id_from_value(entry);
    let mut o: Vec<(String, JsonValue)> = Vec::new();
    o.push(
        ("absolute_episode_number".to_owned(), opt_number_value(context.absolute_episode_number)),
    );
    o.push(("actions".to_owned(), texts_value(&selected.actions)));
    o.push(("anilist_id".to_owned(), opt_text_value(&context.anilist_id)));
    o.push(("episode_number".to_owned(), opt_number_value(context.episode_number)));
    o.push(("extension_id".to_owned(), text_value(selected.extension_id.as_str())));
    o.push(("imdb_id".to_owned(), opt_text_value(&context.imdb_id)));
    o.push(("implementation".to_owned(), opt_text_value(&selected.implementation)));
    o.push(("instance_id".to_owned(), text_value(selected.instance_id.as_str())));
    o.push(("mal_id".to_owned(), opt_text_value(&context.mal_id)));
    o.push(("media_types".to_owned(), texts_value(&selected.media_types)));
    o.push(("provider".to_owned(), text_value("marketplace")));
    o.push(("provider_id".to_owned(), text_value(selected.provider_id.as_str())));
    o.push(("provider_kind".to_owned(), text_value(provider_kind)));
    o.push(("provider_segment_id".to_owned(), json::value_or_null(&id)));
    o.push(("raw".to_owned(), entry.dup()));
    o.push(("season_number".to_owned(), opt_number_value(context.season_number)));
    o.push(("segment_types".to_owned(), texts_value(&selected.segment_types)));
    o.push(("tmdb_id".to_owned(), opt_text_value(&context.tmdb_id)));
    o.push(("tvdb_id".to_owned(), opt_text_value(&context.tvdb_id)));
    proof {
        json::lemma_view_object(o);
        assert(json::members_of(o@) =~= marketplace_payload(
            provider_kind@,
            selected@,
            context@,
            entry@,
        )->Object_0);
    }
    JsonValue::Object(o)
}

/// The names of the start of a segment.
pub open spec fn start_names() -> Seq<Seq<char>> {
    seq!["start_sec"@, "start_seconds"@, "start"@]
}

/// The names of the end of a segment.
pub open spec fn end_names() -> Seq<Seq<char>> {
    seq!["end_sec"@, "end_seconds"@, "end"@]
}

/// The start of a segment in an entry, in microseconds.
pub fn entry_start(value: &JsonValue) -> (r: Option<i64>)
    ensures
        r == reading::first_time(value@, start_names()),
{
    let keys: Vec<&str> = vec!["start_sec", "start_seconds", "start"];
    proof {
        assert(reading::names(keys@) =~= start_names());
    }
    provider_seconds(value, &keys)
}

/// The end of a segment in an entry, in microseconds.
pub fn entry_end(value: &JsonValue) -> (r: Option<i64>)
    ensures
        r == reading::first_time(value@, end_names()),
{
    let keys: Vec<&str> = vec!["end_sec", "end_seconds", "end"];
    proof {
        assert(reading::names(keys@) =~= end_names());
    }
    provider_seconds(value, &keys)
}

/// The candidate in an entry of an extension: it is of a type that the provider
/// is for, with a start and an end.
pub open spec fn marketplace_candidate(
    provider_kind: Seq<char>,
    s: Selection,
    c: MediaContext,
    entry: Json,
) -> Option<Submission> {
    let kind = responses::type_in(entry);
    let start = reading::first_time(entry, start_names());
    let end = reading::first_time(entry, end_names());
    if kind is None || !s.segment_types.contains(kind->0) || start is None || end is None {
        None
    } else {
        Some(
            Submission {
                media_file_id: c.media_file_id,
                item_type: Some(c.item_type),
                item_id: Some(c.item_id),
                segment_type: kind->0,
                start: Quantity::Micros(start->0),
                end: Quantity::Micros(end->0),
                provider_kind,
                provider_id: candidate_provider_id(s, entry),
                provider_version: Some(candidate_provider_version(s, entry)),
                confidence: Quantity::Micros(
                    match responses::confidence_in(entry) {
                        Some(n) => n,
                        None => 800_000,
                    },
                ),
                identity_strength: claimed_strength(entry),
                source_payload: Some(marketplace_payload(provider_kind, s, c, entry)),
            },
        )
    }
}

/// The candidates in some entries of an extension.
pub open spec fn marketplace_candidates(
    provider_kind: Seq<char>,
    s: Selection,
    c: MediaContext,
    entries: Seq<Json>,
) -> Seq<Submission>
    decreases entries.len(),
{
    if entries.len() == 0 {
        Seq::empty()
    } else {
        let rest = marketplace_candidates(provider_kind, s, c, entries.drop_last());
        match marketplace_candidate(provider_kind, s, c, entries.last()) {
            Some(x) => rest.push(x),
            None => rest,
        }
    }
}

fn marketplace_input(
    provider_kind: &str,
    selected: &MarketplaceSegmentProviderSelection,
    context: &ProviderMediaContext,
    value: &JsonValue,
) -> (r: Option<SegmentCandidateInput>)
    ensures
        match r {
            Some(i) => marketplace_candidate(provider_kind@, selected@, context@, value@) == Some(
                i@,
            ),
            None => marketplace_candidate(provider_kind@, selected@, context@, value@) is None,
        },
{
    let segment_type: String = match provider_segment_type(value) {
        Some(t) => t,
        None => {
            return None;
        },
    };
    if !segment_provider_supports_segment_type(selected, segment_type.as_str()) {
        return None;
    }
    let start: i64 = match entry_start(value) {
        Some(t) => t,
        None => {
            return None;
        },
    };
    let end: i64 = match entry_end(value) {
        Some(t) => t,
        None => {
            return None;
        },
    };
    let confidence: i64 = match provider_confidence(value) {
        Some(n) => n,
        None => 800_000,
    };
    Some(
        SegmentCandidateInput {
            media_file_id: context.media_file_id.clone(),
            item_type: Some(context.item_type.clone()),
            item_id: Some(context.item_id.clone()),
            segment_type,
            start: Quantity::Micros(start),
            end: Quantity::Micros(end),
            provider_kind: provider_kind.to_owned(),
            provider_id: marketplace_segment_candidate_provider_id(selected, value),
            provider_version: marketplace_segment_provider_version(selected, value),
            confidence: Quantity::Micros(confidence),
            identity_strength: marketplace_segment_identity_strength(value),
            source_payload: Some(
                marketplace_payload_value(provider_kind, selected, context, value),
            ),
        },
    )
}

/// The entries of a response that are looked at: the first ones, up to a limit.
pub open spec fn first_entries(response: Json) -> Seq<Json> {
    let a = responses::segment_array(response);
    if a.len() <= consts::MEDIA_SEGMENT_PROVIDER_MAX_SEGMENTS {
        a
    } else {
        a.take(consts::MEDIA_SEGMENT_PROVIDER_MAX_SEGMENTS as int)
    }
}

/// The candidates in a response of an extension.
pub fn marketplace_segment_provider_response_to_candidates(
    provider_kind: &str,
    selected: &MarketplaceSegmentProviderSelection,
    context: &ProviderMediaContext,
    response: &JsonValue,
) -> (r: Vec<SegmentCandidateInput>)
    ensures
        candidate::submissions(r@) == marketplace_candidates(
            provider_kind@,
            selected@,
            context@,
            first_entries(response@),
        ),
{
    let mut out: Vec<SegmentCandidateInput> = Vec::new();
    proof {
        assert(candidate::submissions(out@) =~= Seq::empty());
    }
    let entries: &Vec<JsonValue> = match provider_segment_array(response) {
        Some(a) => a,
        None => {
            return out;
        },
    };
    let n: usize = if entries.len() < consts::MEDIA_SEGMENT_PROVIDER_MAX_SEGMENTS {
        entries.len()
    } else {
        consts::MEDIA_SEGMENT_PROVIDER_MAX_SEGMENTS
    };
    let ghost all = reading::elements_of(entries@);
    let mut i: usize = 0;
    proof {
        assert(all.take(0) =~= Seq::empty());
    }
    while i < n
        invariant
            i <= n <= entries@.len(),
            all == reading::elements_of(entries@),
            candidate::submissions(out@) == marketplace_candidates(
                provider_kind@,
                selected@,
                context@,
                all.take(i as int),
            ),
        decreases n - i,
    {
        proof {
            assert(all.take(i + 1).drop_last() =~= all.take(i as int));
            assert(all.take(i + 1).last() == all[i as int]);
        }
        let ghost now = candidate::submissions(out@);
        match marketplace_input(provider_kind, selected, context, &entries[i]) {
            Some(input) => {
                out.push(input);
                proof {
                    assert(candidate::submissions(out@) =~= now.push(input@));
                }
            },
            None => {},
        }
        i += 1;
    }
    proof {
        assert(all.take(n as int) =~= first_entries(response@));
    }
    out
}

/// What an extension is asked.
pub open spec fn invocation_json(s: Selection, c: MediaContext, config: Option<Json>) -> Json {
    Json::Object(
        seq![
            (
                "provider"@,
                Json::Object(
                    seq![
                        ("config"@, json::json_or_null(config)),
                        ("extension_id"@, Json::Text(s.extension_id)),
                        ("implementation"@, json::opt_text_json(s.implementation)),
                        ("instance_id"@, Json::Text(s.instance_id)),
                        ("provider_id"@, Json::Text(s.provider_id)),
                    ],
                ),
            ),
            (
                "request"@,
                Json::Object(
                    seq![
                        (
                            "absolute_episode_number"@,
                            responses::opt_number_json(c.absolute_episode_number),
                        ),
                        (
                            "duration_seconds"@,
                            match c.duration {
                                Some(d) => Json::Number(json::JsonNumber::Fraction(d)),
                                None => Json::Null,
                            },
                        ),
                        ("episode_number"@, responses::opt_number_json(c.episode_number)),
                        ("external_ids"@, external_ids_json(c)),
                        ("item_id"@, Json::Text(c.item_id)),
                        ("item_type"@, Json::Text(c.item_type)),
                        ("media_file_id"@, Json::Text(c.media_file_id)),
                        ("media_type"@, Json::Text(context_media_type(c))),
                        ("requested_segment_types"@, texts_json(s.segment_types)),
                        ("season_number"@, responses::opt_number_json(c.season_number)),
                    ],
                ),
            ),
            ("schema_version"@, Json::Text(consts::MEDIA_SEGMENT_PROVIDER_SCHEMA_VERSION@)),
        ],
    )
}

/// What an extension is asked.
pub fn marketplace_invocation(
    selected: &MarketplaceSegmentProviderSelection,
    context: &ProviderMediaContext,
    config: Option<&JsonValue>,
) -> (v: JsonValue)
    ensures
        v@ == invocation_json(selected@, context@, json::opt_json(config)),
{
    let media_type = marketplace_provider_media_type_for_context(context);
    let mut provider: Vec<(String, JsonValue)> = Vec::new();
    provider.push(
        (
            "config".to_owned(),
            match config {
                Some(c) => c.dup(),
                None => JsonValue::Null,
            },
        ),
    );
    provider.push(("extension_id".to_owned(), text_value(selected.extension_id.as_str())));
    provider.push(("implementation".to_owned(), opt_text_value(&selected.implementation)));
    provider.push(("instance_id".to_owned(), text_value(selected.instance_id.as_str())));
    provider.push(("provider_id".to_owned(), text_value(selected.provider_id.as_str())));
    let mut request: Vec<(String, JsonValue)> = Vec::new();
    request.push(
        ("absolute_episode_number".to_owned(), opt_number_value(context.absolute_episode_number)),
    );
    request.push(
        (
            "duration_seconds".to_owned(),
            match context.duration {
                Some(d) => JsonValue::Number(json::JsonNumber::Fraction(d)),
                None => JsonValue::Null,
            },
        ),
    );
    request.push(("episode_number".to_owned(), opt_number_value(context.episode_number)));
    request.push(("external_ids".to_owned(), marketplace_provider_external_ids(context)));
    request.push(("item_id".to_owned(), text_value(context.item_id.as_str())));
    request.push(("item_type".to_owned(), text_value(context.item_type.as_str())));
    request.push(("media_file_id".to_owned(), text_value(context.media_file_id.as_str())));
    request.push(("media_type".to_owned(), text_value(media_type.as_str())));
    request.push(("requested_segment_types".to_owned(), texts_value(&selected.segment_types)));
    request.push(("season_number".to_owned(), opt_number_value(context.season_number)));
    let mut o: Vec<(String, JsonValue)> = Vec::new();
    proof {
        json::lemma_view_object(provider);
        json::lemma_view_object(request);
        let expected = invocation_json(selected@, context@, json::opt_json(config))->Object_0;
        assert(json::members_of(provider@) =~= expected[0].1->Object_0);
        assert(json::members_of(request@) =~= expected[1].1->Object_0);
    }
    o.push(("provider".to_owned(), JsonValue::Object(provider)));
    o.push(("request".to_owned(), JsonValue::Object(request)));
    o.push(
        ("schema_version".to_owned(), text_value(consts::MEDIA_SEGMENT_PROVIDER_SCHEMA_VERSION)),
    );
    proof {
        json::lemma_view_object(o);
        assert(json::members_of(o@) =~= invocation_json(
            selected@,
            context@,
            json::opt_json(config),
        )->Object_0);
    }
    JsonValue::Object(o)
}

/// Under what kind a provider is swept for files that are due; none where it
/// names no implementation or is switched off.
pub open spec fn swept_kind(s: Selection, provider_settings: Json) -> Result<
    Option<Seq<char>>,
    Seq<char>,
> {
    match s.implementation {
        Some(i) => match normalize::provider_id_of(i) {
            Ok(kind) => if settings::enabled_setting(json::json_get(provider_settings, kind), true) {
                Ok(Some(kind))
            } else {
                Ok(None)
            },
            Err(m) => Err(m),
        },
        None => Ok(None),
    }
}

/// The files for which a provider is asked: those of films, those of episodes,
/// and whether of every episode or only of anime.
#[derive(Debug, Clone, Copy, PartialEq, Eq, Structural)]
pub struct DueScope {
    pub films: bool,
    pub episodes: bool,
    pub every_episode: bool,
}

/// The files for which a provider is asked, by the kinds that it serves.
pub fn marketplace_due_scope(selected: &MarketplaceSegmentProviderSelection) -> (r: DueScope)
    ensures
        r.films == serves_media_type(selected@.media_types, "movie"@),
        r.episodes == (serves_media_type(selected@.media_types, "series"@) || serves_media_type(
            selected@.media_types,
            "anime"@,
        )),
        r.every_episode == serves_media_type(selected@.media_types, "series"@),
{
    let series = segment_provider_supports_media_type(selected, "series");
    let anime = segment_provider_supports_media_type(selected, "anime");
    DueScope {
        films: segment_provider_supports_media_type(selected, "movie"),
        episodes: series || anime,
        every_episode: series,
    }
}

/// Under what kind a provider is swept for files that are due.
pub fn marketplace_sweep_kind(
    selected: &MarketplaceSegmentProviderSelection,
    provider_settings: &JsonValue,
) -> (r: Result<Option<String>, SegmentError>)
    ensures
        match (r, swept_kind(selected@, provider_settings@)) {
            (Ok(a), Ok(b)) => opt_text(a) == b,
            (Err(e), Err(m)) => e.message@ == m,
            _ => false,
        },
{
    match &selected.implementation {
        Some(i) => match normalize_provider_id(i.as_str()) {
            Ok(kind) => if marketplace_provider_settings_enabled(
                provider_settings.get(kind.as_str()),
            ) {
                Ok(Some(kind))
            } else {
                Ok(None)
            },
            Err(e) => Err(e),
        },
        None => Ok(None),
    }
}

/// Every candidate of an extension is about the file that was asked about and of
/// a type that a provider may name and that its provider is for; there are no more than the limit, and none
/// claims to be known by the file itself or by a person.
pub proof fn extension_candidates_stay_in_scope(
    provider_kind: Seq<char>,
    s: Selection,
    c: MediaContext,
    response: Json,
)
    ensures
        ({
            let found = marketplace_candidates(provider_kind, s, c, first_entries(response));
            &&& found.len() <= consts::MEDIA_SEGMENT_PROVIDER_MAX_SEGMENTS
            &&& forall|i: int|
                0 <= i < found.len() ==> in_scope(#[trigger] found[i], provider_kind, s, c)
        }),
{
    lemma_candidates_in_scope(provider_kind, s, c, first_entries(response));
}

/// Whether a candidate is about the file and within what its provider is for.
pub open spec fn in_scope(
    x: Submission,
    provider_kind: Seq<char>,
    s: Selection,
    c: MediaContext,
) -> bool {
    &&& x.media_file_id == c.media_file_id
    &&& x.item_id == Some(c.item_id)
    &&& x.provider_kind == provider_kind
    &&& responses::is_provider_type(x.segment_type)
    &&& s.segment_types.contains(x.segment_type)
    &&& x.identity_strength != "file_fingerprint"@
    &&& x.identity_strength != "manual"@
}

proof fn lemma_candidates_in_scope(
    provider_kind: Seq<char>,
    s: Selection,
    c: MediaContext,
    entries: Seq<Json>,
)
    ensures
        marketplace_candidates(provider_kind, s, c, entries).len() <= entries.len(),
        forall|i: int|
            0 <= i < marketplace_candidates(provider_kind, s, c, entries).len() ==> in_scope(
                #[trigger] marketplace_candidates(provider_kind, s, c, entries)[i],
                provider_kind,
                s,
                c,
            ),
    decreases entries.len(),
{
    if entries.len() > 0 {
        lemma_candidates_in_scope(provider_kind, s, c, entries.drop_last());
        reveal_strlit("external_id_exact");
        reveal_strlit("external_id_episode");
        reveal_strlit("metadata_fuzzy");
        reveal_strlit("unknown");
        reveal_strlit("file_fingerprint");
        reveal_strlit("manual");
        assert("external_id_exact"@.len() == 17 && "external_id_episode"@.len() == 19
            && "metadata_fuzzy"@.len() == 14 && "unknown"@.len() == 7
            && "file_fingerprint"@.len() == 16 && "manual"@.len() == 6);
    }
}

/// A provider can be asked just where it is a healthy provider of segments with a
/// well-formed name (the one that is wanted, if one is), it can be reached, its
/// extension and its instance are on, and its scope names the lookup and a segment
/// type and serves the media type that is wanted, if one is and it names any.
pub proof fn providers_that_can_be_asked(
    p: InstalledProvider,
    provider_kind: Option<Seq<char>>,
    media_type: Option<Seq<char>>,
)
    ensures
        ({
            let scope = match p.scope {
                Some(v) => Some(v@),
                None => None,
            };
            let r = available(p, provider_kind, media_type);
            let named = p.implementation is Some && normalize::provider_id_of(
                p.implementation->0@,
            ) is Ok;
            let listed = p.capability@ == "media.segment_provider"@ && p.healthy && p.implementation
                is Some;
            &&& r is Err <==> listed && !named
            &&& r is Ok && r->Ok_0 is Some <==> {
                &&& listed && named
                &&& provider_kind is Some ==> Ok::<Seq<char>, Seq<char>>(provider_kind->0)
                    == normalize::provider_id_of(p.implementation->0@)
                &&& p.has_endpoint
                &&& p.extension is Some && p.extension->0.enabled
                &&& p.instance is Some && p.instance->0.enabled
                &&& scope_actions(scope).contains("lookup"@)
                &&& scope_segment_types(scope).len() > 0
                &&& media_type is Some && scope_media_types(scope).len() > 0 ==> serves_media_type(
                    scope_media_types(scope),
                    media_type->0,
                )
            }
            &&& r is Ok && r->Ok_0 is Some ==> {
                let x = r->Ok_0->0;
                &&& x.provider_id == p.provider_id@
                &&& x.implementation == Some(p.implementation->0@)
                &&& x.extension_id == p.extension->0.extension_id@ && x.extension_name
                    == p.extension->0.name@ && x.extension_version == p.extension->0.version@
                &&& x.instance_id == p.instance->0.instance_id@ && x.instance_name
                    == p.instance->0.instance_name@
                &&& x.media_types == scope_media_types(scope)
                &&& x.segment_types == scope_segment_types(scope)
                &&& x.actions == scope_actions(scope)
            }
        }),
{
}

proof fn lemma_available_from(
    details: Seq<InstalledProvider>,
    provider_kind: Option<Seq<char>>,
    media_type: Option<Seq<char>>,
    k: int,
)
    requires
        all_available(details, provider_kind, media_type) is Ok,
        0 <= k < details.len(),
    ensures
        available(details[k], provider_kind, media_type) is Ok,
        available(details[k], provider_kind, media_type)->Ok_0 is Some ==> all_available(
            details,
            provider_kind,
            media_type,
        )->Ok_0.contains(available(details[k], provider_kind, media_type)->Ok_0->0),
    decreases details.len(),
{
    let rest = details.drop_last();
    let found = all_available(details, provider_kind, media_type)->Ok_0;
    let before = all_available(rest, provider_kind, media_type)->Ok_0;
    let own = available(details[k], provider_kind, media_type);
    if k < rest.len() {
        assert(rest[k] == details[k]);
        lemma_available_from(rest, provider_kind, media_type, k);
        if own->Ok_0 is Some {
            let q = choose|q: int| 0 <= q < before.len() && before[q] == own->Ok_0->0;
            assert(found[q] == own->Ok_0->0);
        }
    } else if own->Ok_0 is Some {
        assert(found[found.len() - 1] == own->Ok_0->0);
    }
}

proof fn lemma_available_comes_from(
    details: Seq<InstalledProvider>,
    provider_kind: Option<Seq<char>>,
    media_type: Option<Seq<char>>,
    q: int,
) -> (k: int)
    requires
        all_available(details, provider_kind, media_type) is Ok,
        0 <= q < all_available(details, provider_kind, media_type)->Ok_0.len(),
    ensures
        0 <= k < details.len(),
        available(details[k], provider_kind, media_type) == Ok::<Option<Selection>, Seq<char>>(
            Some(all_available(details, provider_kind, media_type)->Ok_0[q]),
        ),
    decreases details.len(),
{
    let rest = details.drop_last();
    let before = all_available(rest, provider_kind, media_type)->Ok_0;
    if q < before.len() {
        let k = lemma_available_comes_from(rest, provider_kind, media_type, q);
        assert(rest[k] == details[k]);
        k
    } else {
        details.len() - 1
    }
}

/// The list of the providers that can be asked holds just those, in the order of
/// the names of their extensions.
pub proof fn listed_providers_are_those_that_can_be_asked(
    details: Seq<InstalledProvider>,
    media_type: Option<Seq<char>>,
)
    requires
        available_in_order(details, None, media_type) is Ok,
    ensures
        ({
            let r = available_in_order(details, None, media_type)->Ok_0;
            &&& forall|k: int|
                0 <= k < details.len() ==> (match available(#[trigger] details[k], None, media_type) {
                    Ok(Some(x)) => r.contains(x),
                    Ok(None) => true,
                    Err(_) => false,
                })
            &&& forall|x: Selection| #[trigger]
                r.contains(x) ==> exists|k: int|
                    0 <= k < details.len() && available(#[trigger] details[k], None, media_type)
                        == Ok::<Option<Selection>, Seq<char>>(Some(x))
            &&& forall|i: int, j: int|
                0 <= i < j < r.len() ==> !text::lex_lt(
                    (#[trigger] r[j]).extension_name,
                    (#[trigger] r[i]).extension_name,
                )
        }),
{
    let found = all_available(details, None, media_type)->Ok_0;
    let r = available_in_order(details, None, media_type)->Ok_0;
    assert(r == order::arranged(found, listing_order()));
    assert forall|k: int| 0 <= k < details.len() implies (match available(
        #[trigger] details[k],
        None,
        media_type,
    ) {
        Ok(Some(x)) => r.contains(x),
        Ok(None) => true,
        Err(_) => false,
    }) by {
        lemma_available_from(details, None, media_type, k);
        let own = available(details[k], None, media_type);
        if own->Ok_0 is Some {
            order::lemma_arranged_contains(found, listing_order(), own->Ok_0->0);
        }
    }
    assert forall|x: Selection| #[trigger] r.contains(x) implies exists|k: int|
        0 <= k < details.len() && available(#[trigger] details[k], None, media_type) == Ok::<
            Option<Selection>,
            Seq<char>,
        >(Some(x)) by {
        order::lemma_arranged_contains(found, listing_order(), x);
        let q = choose|q: int| 0 <= q < found.len() && found[q] == x;
        let k = lemma_available_comes_from(details, None, media_type, q);
        assert(available(details[k], None, media_type) == Ok::<Option<Selection>, Seq<char>>(
            Some(x),
        ));
    }
    lemma_listing_ranks();
    order::lemma_arranged_in_order(found, listing_order());
    order::lemma_arranged_permutes(found, listing_order());
    assert forall|i: int, j: int| 0 <= i < j < r.len() implies !text::lex_lt(
        (#[trigger] r[j]).extension_name,
        (#[trigger] r[i]).extension_name,
    ) by {
        assert(!listing_order()(r[j], r[i]));
        text::lex_order_is_total(r[i].extension_name, r[j].extension_name);
    }
}

proof fn lemma_listing_ranks()
    ensures
        order::ranks(listing_order()),
{
    assert forall|a: Selection, b: Selection| #[trigger] listing_order()(a, b) implies !(
    listing_order()(b, a)) by {
        text::lex_order_is_total(a.extension_name, b.extension_name);
        text::lex_order_is_total(a.instance_name, b.instance_name);
        text::lex_order_is_total(a.provider_id, b.provider_id);
    }
    assert forall|a: Selection, b: Selection, c: Selection|
        #![trigger listing_order()(a, b), listing_order()(b, c)]
        !listing_order()(a, b) && !listing_order()(b, c) implies !listing_order()(a, c) by {
        lemma_text_ranks(a.extension_name, b.extension_name, c.extension_name);
        lemma_text_ranks(a.instance_name, b.instance_name, c.instance_name);
        lemma_text_ranks(a.provider_id, b.provider_id, c.provider_id);
    }
}

proof fn lemma_text_ranks(a: Seq<char>, b: Seq<char>, c: Seq<char>)
    ensures
        !text::lex_lt(a, b) && !text::lex_lt(b, c) ==> !text::lex_lt(a, c),
        !text::lex_lt(a, b) && a != b ==> text::lex_lt(b, a),
        !text::lex_lt(b, c) && b != c ==> text::lex_lt(c, b),
        text::lex_lt(b, a) && text::lex_lt(c, b) ==> text::lex_lt(c, a) && c != a,
        text::lex_lt(c, a) ==> !text::lex_lt(a, c),
        text::lex_lt(a, b) ==> !text::lex_lt(b, a) && a != b,
        text::lex_lt(b, c) ==> !text::lex_lt(c, b) && b != c,
{
    text::lex_order_is_total(a, b);
    text::lex_order_is_total(b, c);
    text::lex_order_is_total(a, c);
    if text::lex_lt(c, b) && text::lex_lt(b, a) {
        text::lex_order_is_transitive(c, b, a);
    }
}

/// What a film or episode is to a provider: a film, or anime where an anime list
/// knows it, or part of a series.
pub proof fn media_types_of_items(c: MediaContext)
    ensures
        c.item_type == "movie"@ ==> context_media_type(c) == "movie"@,
        c.item_type != "movie"@ && (c.mal_id is Some || c.anilist_id is Some)
            ==> context_media_type(c) == "anime"@,
        c.item_type != "movie"@ && c.mal_id is None && c.anilist_id is None
            ==> context_media_type(c) == "series"@,
{
}

proof fn lemma_marketplace_found(
    provider_kind: Seq<char>,
    s: Selection,
    c: MediaContext,
    entries: Seq<Json>,
    i: int,
) -> (at: int)
    requires
        0 <= i < entries.len(),
        marketplace_candidate(provider_kind, s, c, entries[i]) is Some,
    ensures
        0 <= at < marketplace_candidates(provider_kind, s, c, entries).len(),
        marketplace_candidates(provider_kind, s, c, entries)[at] == marketplace_candidate(
            provider_kind,
            s,
            c,
            entries[i],
        )->0,
    decreases entries.len(),
{
    let rest = entries.drop_last();
    if i < rest.len() {
        assert(rest[i] == entries[i]);
        lemma_marketplace_found(provider_kind, s, c, rest, i)
    } else {
        marketplace_candidates(provider_kind, s, c, rest).len() as int
    }
}

/// Each of the first 128 entries of a response that names a type its provider is
/// for, a start and an end is a candidate with them. It is as sure as the entry
/// says, or 0.8 where it says nothing, and comes from the provider unless the entry
/// names another.
pub proof fn entries_in_scope_are_candidates(
    provider_kind: Seq<char>,
    s: Selection,
    c: MediaContext,
    response: Json,
    i: int,
    kind: Seq<char>,
    start: i64,
    end: i64,
) -> (at: int)
    requires
        0 <= i < responses::segment_array(response).len(),
        i < 128,
        responses::type_in(responses::segment_array(response)[i]) == Some(kind),
        s.segment_types.contains(kind),
        reading::first_time(
            responses::segment_array(response)[i],
            seq!["start_sec"@, "start_seconds"@, "start"@],
        ) == Some(start),
        reading::first_time(
            responses::segment_array(response)[i],
            seq!["end_sec"@, "end_seconds"@, "end"@],
        ) == Some(end),
    ensures
        ({
            let found = marketplace_candidates(provider_kind, s, c, first_entries(response));
            let entry = responses::segment_array(response)[i];
            &&& 0 <= at < found.len()
            &&& found[at].media_file_id == c.media_file_id
            &&& found[at].item_type == Some(c.item_type)
            &&& found[at].item_id == Some(c.item_id)
            &&& found[at].segment_type == kind
            &&& found[at].start == Quantity::Micros(start)
            &&& found[at].end == Quantity::Micros(end)
            &&& found[at].provider_kind == provider_kind
            &&& json::json_get(entry, "provider_id"@) is None && json::json_get(
                entry,
                "providerId"@,
            ) is None ==> found[at].provider_id == s.provider_id
            &&& json::json_get(entry, "provider_version"@) is None && json::json_get(
                entry,
                "providerVersion"@,
            ) is None ==> found[at].provider_version == Some(s.extension_version)
            &&& json::json_get(entry, "confidence"@) is None && json::json_get(entry, "score"@)
                is None ==> found[at].confidence == Quantity::Micros(800_000)
            &&& match json::json_get(entry, "confidence"@) {
                Some(Json::Number(json::JsonNumber::Fraction(n))) => 0 <= n <= 1_000_000
                    ==> found[at].confidence == Quantity::Micros(n),
                _ => true,
            }
            &&& json::json_get(entry, "identity_strength"@) is None && json::json_get(
                entry,
                "identityStrength"@,
            ) is None ==> found[at].identity_strength == "metadata_fuzzy"@
            &&& found[at].source_payload is Some
            &&& json::json_get(found[at].source_payload->0, "provider"@) == Some(
                Json::Text("marketplace"@),
            )
            &&& json::json_get(found[at].source_payload->0, "raw"@) == Some(entry)
        }),
{
    let entry = responses::segment_array(response)[i];
    assert(first_entries(response)[i] == entry);
    lemma_payload_members_differ();
    let m = marketplace_payload(provider_kind, s, c, entry)->Object_0;
    json::lemma_lookup_at(m, "provider"@, 10);
    json::lemma_lookup_at(m, "raw"@, 14);
    lemma_fuzzy();
    lemma_marketplace_found(provider_kind, s, c, first_entries(response), i)
}

proof fn lemma_payload_members_differ()
    ensures
        "absolute_episode_number"@ != "provider"@,
        "actions"@ != "provider"@,
        "anilist_id"@ != "provider"@,
        "episode_number"@ != "provider"@,
        "extension_id"@ != "provider"@,
        "imdb_id"@ != "provider"@,
        "implementation"@ != "provider"@,
        "instance_id"@ != "provider"@,
        "mal_id"@ != "provider"@,
        "media_types"@ != "provider"@,
        "provider_id"@ != "provider"@,
        "provider_kind"@ != "provider"@,
        "provider_segment_id"@ != "provider"@,
        "raw"@ != "provider"@,
        "absolute_episode_number"@ != "raw"@,
        "actions"@ != "raw"@,
        "anilist_id"@ != "raw"@,
        "episode_number"@ != "raw"@,
        "extension_id"@ != "raw"@,
        "imdb_id"@ != "raw"@,
        "implementation"@ != "raw"@,
        "instance_id"@ != "raw"@,
        "mal_id"@ != "raw"@,
        "media_types"@ != "raw"@,
        "provider_id"@ != "raw"@,
        "provider_kind"@ != "raw"@,
        "provider_segment_id"@ != "raw"@,
{
    reveal_strlit("absolute_episode_number");
    reveal_strlit("actions");
    reveal_strlit("anilist_id");
    reveal_strlit("episode_number");
    reveal_strlit("extension_id");
    reveal_strlit("imdb_id");
    reveal_strlit("implementation");
    reveal_strlit("instance_id");
    reveal_strlit("mal_id");
    reveal_strlit("media_types");
    reveal_strlit("provider");
    reveal_strlit("provider_id");
    reveal_strlit("provider_kind");
    reveal_strlit("provider_segment_id");
    reveal_strlit("raw");
    assert("absolute_episode_number"@.len() == 23);
    assert("actions"@.len() == 7);
    assert("anilist_id"@.len() == 10);
    assert("episode_number"@.len() == 14);
    assert("extension_id"@.len() == 12);
    assert("imdb_id"@.len() == 7);
    assert("implementation"@.len() == 14);
    assert("instance_id"@.len() == 11);
    assert("mal_id"@.len() == 6);
    assert("media_types"@.len() == 11);
    assert("provider"@.len() == 8);
    assert("provider_id"@.len() == 11);
    assert("provider_kind"@.len() == 13);
    assert("provider_segment_id"@.len() == 19);
    assert("raw"@.len() == 3);
}

/// How surely an extension may claim that a segment is of a file: by an external
/// identifier, exactly or by the episode, or by its description. Anything else that
/// it claims counts as a description.
pub proof fn extensions_claim_no_fingerprint(j: Json)
    ensures
        claimed_strength(j) == "external_id_exact"@ || claimed_strength(j) == "external_id_episode"@
            || claimed_strength(j) == "metadata_fuzzy"@ || claimed_strength(j) == "unknown"@,
        match json::json_get(j, "identity_strength"@) {
            Some(Json::Text(t)) => {
                let s = text::replace_seq(text::lower_seq(text::trim_seq(t)), '-', '_');
                &&& s == "external_id_exact"@ || s == "external_id_episode"@ || s == "unknown"@
                    ==> claimed_strength(j) == s
                &&& s != "external_id_exact"@ && s != "external_id_episode"@ && s != "unknown"@
                    ==> claimed_strength(j) == "metadata_fuzzy"@
            },
            Some(_) => claimed_strength(j) == "metadata_fuzzy"@,
            None => true,
        },
{
    lemma_fuzzy();
}

proof fn lemma_fuzzy()
    ensures
        text::snake_seq("metadata_fuzzy"@) == "metadata_fuzzy"@,
{
    reveal_strlit("metadata_fuzzy");
    let f = "metadata_fuzzy"@;
    assert(f.len() == 14);
    assert(f[0] == 'm' && f[13] == 'y');
    assert(Seq::<char>::empty() + f + Seq::<char>::empty() =~= f);
    text::outer_white_space_is_left_out(Seq::empty(), f, Seq::empty());
    assert(text::replace_seq(text::lower_seq(f), '-', '_') =~= f);
}

/// What a scope names: the words of its lists in their normal form; of the segment
/// types only those that there are.
pub proof fn scopes_name_known_types(a: Seq<Json>, k: int)
    requires
        0 <= k < a.len(),
        a[k] is Text,
    ensures
        text::snake_seq(a[k]->Text_0).len() > 0 ==> word_list(a).contains(
            text::snake_seq(a[k]->Text_0),
        ),
        ({
            let s = text::snake_seq(a[k]->Text_0);
            s == "intro"@ || s == "recap"@ || s == "preview"@ || s == "credits"@ || s == "outro"@
                || s == "custom"@ ==> type_list(a).contains(s)
        }),
        forall|i: int|
            0 <= i < type_list(a).len() ==> {
                let s = #[trigger] type_list(a)[i];
                s == "intro"@ || s == "recap"@ || s == "preview"@ || s == "credits"@ || s
                    == "outro"@ || s == "custom"@
            },
    decreases a.len(),
{
    lemma_known_types(a);
    let rest = a.drop_last();
    let s = text::snake_seq(a[k]->Text_0);
    if k < rest.len() {
        assert(rest[k] == a[k]);
        scopes_name_known_types(rest, k);
        if s.len() > 0 {
            let q = choose|q: int| 0 <= q < word_list(rest).len() && word_list(rest)[q] == s;
            assert(word_list(a)[q] == s);
        }
        if normalize::is_segment_type(s) {
            assert(type_list(rest).contains(s));
            let q = choose|q: int| 0 <= q < type_list(rest).len() && type_list(rest)[q] == s;
            assert(type_list(a)[q] == s);
        }
    } else {
        if s.len() > 0 {
            assert(word_list(a)[word_list(a).len() - 1] == s);
        }
        if normalize::is_segment_type(s) {
            assert(type_list(a)[type_list(a).len() - 1] == s);
        }
    }
}

proof fn lemma_known_types(a: Seq<Json>)
    ensures
        forall|i: int|
            0 <= i < type_list(a).len() ==> normalize::is_segment_type(#[trigger] type_list(a)[i]),
    decreases a.len(),
{
    if a.len() > 0 {
        lemma_known_types(a.drop_last());
        assert forall|i: int| 0 <= i < type_list(a).len() implies normalize::is_segment_type(
            #[trigger] type_list(a)[i],
        ) by {
            if i < type_list(a.drop_last()).len() {
                assert(normalize::is_segment_type(type_list(a.drop_last())[i]));
            }
        }
    }
}

/// Replies of different providers, and on different files, are kept under different
/// keys.
pub proof fn marketplace_keys_differ(
    a: Seq<char>,
    b: Seq<char>,
    c: MediaContext,
    d: MediaContext,
)
    requires
        c.duration == d.duration,
        c.season_number == d.season_number,
        c.episode_number == d.episode_number,
        c.absolute_episode_number == d.absolute_episode_number,
    ensures
        a != b && c.media_file_id == d.media_file_id ==> marketplace_key(a, c) != marketplace_key(
            b,
            d,
        ),
        a == b && c.media_file_id != d.media_file_id ==> marketplace_key(a, c) != marketplace_key(
            b,
            d,
        ),
{
    let x = "provider:"@ + a + ":media_file:"@ + c.media_file_id;
    let y = "provider:"@ + b + ":media_file:"@ + d.media_file_id;
    if a != b && c.media_file_id == d.media_file_id {
        text::different_tails_stay_different("provider:"@, a, b);
        text::different_heads_stay_different("provider:"@ + a, "provider:"@ + b, ":media_file:"@);
        text::different_heads_stay_different(
            "provider:"@ + a + ":media_file:"@,
            "provider:"@ + b + ":media_file:"@,
            c.media_file_id,
        );
        lemma_keys_go_on_to_differ(x, y, c, d, a, b);
    }
    if a == b && c.media_file_id != d.media_file_id {
        text::different_tails_stay_different(
            "provider:"@ + a + ":media_file:"@,
            c.media_file_id,
            d.media_file_id,
        );
        lemma_keys_go_on_to_differ(x, y, c, d, a, b);
    }
}

proof fn lemma_keys_go_on_to_differ(
    x: Seq<char>,
    y: Seq<char>,
    c: MediaContext,
    d: MediaContext,
    a: Seq<char>,
    b: Seq<char>,
)
    requires
        x != y,
        x == "provider:"@ + a + ":media_file:"@ + c.media_file_id,
        y == "provider:"@ + b + ":media_file:"@ + d.media_file_id,
        c.duration == d.duration,
        c.season_number == d.season_number,
        c.episode_number == d.episode_number,
        c.absolute_episode_number == d.absolute_episode_number,
    ensures
        marketplace_key(a, c) != marketplace_key(b, d),
{
    let t = quantity::millis_text(
        match c.duration {
            Some(d) => d as int,
            None => 0,
        },
    );
    let p1 = ":duration:"@;
    let p2 = t;
    let p3 = ":season:"@;
    let p4 = number_or_none(c.season_number);
    let p5 = ":episode:"@;
    let p6 = number_or_none(c.episode_number);
    let p7 = ":absolute:"@;
    let p8 = number_or_none(c.absolute_episode_number);
    text::different_heads_stay_different(x, y, p1);
    text::different_heads_stay_different(x + p1, y + p1, p2);
    text::different_heads_stay_different(x + p1 + p2, y + p1 + p2, p3);
    text::different_heads_stay_different(x + p1 + p2 + p3, y + p1 + p2 + p3, p4);
    let x4 = x + p1 + p2 + p3 + p4;
    let y4 = y + p1 + p2 + p3 + p4;
    text::different_heads_stay_different(x4, y4, p5);
    text::different_heads_stay_different(x4 + p5, y4 + p5, p6);
    text::different_heads_stay_different(x4 + p5 + p6, y4 + p5 + p6, p7);
    text::different_heads_stay_different(x4 + p5 + p6 + p7, y4 + p5 + p6 + p7, p8);
}

/// What an extension is asked tells it the file, its item and its numbers, what it
/// is known by, the media type and the segment types that are wanted, and the
/// extension's own provider and settings.
pub proof fn extensions_are_told_the_file(s: Selection, c: MediaContext, config: Option<Json>)
    ensures
        ({
            let asked = invocation_json(s, c, config);
            let request = json::json_get(asked, "request"@)->0;
            let provider = json::json_get(asked, "provider"@)->0;
            &&& json::json_get(asked, "schema_version"@) == Some(
                Json::Text("elixir.media_segment_provider.v1"@),
            )
            &&& json::json_get(asked, "request"@) is Some
            &&& json::json_get(asked, "provider"@) is Some
            &&& json::json_get(request, "media_file_id"@) == Some(Json::Text(c.media_file_id))
            &&& json::json_get(request, "item_type"@) == Some(Json::Text(c.item_type))
            &&& json::json_get(request, "item_id"@) == Some(Json::Text(c.item_id))
            &&& json::json_get(request, "media_type"@) == Some(Json::Text(context_media_type(c)))
            &&& json::json_get(request, "duration_seconds"@) == Some(
                match c.duration {
                    Some(d) => Json::Number(json::JsonNumber::Fraction(d)),
                    None => Json::Null,
                },
            )
            &&& json::json_get(request, "season_number"@) == Some(
                responses::opt_number_json(c.season_number),
            )
            &&& json::json_get(request, "episode_number"@) == Some(
                responses::opt_number_json(c.episode_number),
            )
            &&& json::json_get(request, "absolute_episode_number"@) == Some(
                responses::opt_number_json(c.absolute_episode_number),
            )
            &&& json::json_get(request, "requested_segment_types"@) == Some(
                texts_json(s.segment_types),
            )
            &&& json::json_get(request, "external_ids"@) == Some(external_ids_json(c))
            &&& json::json_get(provider, "provider_id"@) == Some(Json::Text(s.provider_id))
            &&& json::json_get(provider, "extension_id"@) == Some(Json::Text(s.extension_id))
            &&& json::json_get(provider, "instance_id"@) == Some(Json::Text(s.instance_id))
            &&& json::json_get(provider, "config"@) == Some(json::json_or_null(config))
        }),
{
    lemma_request_names_differ();
    lemma_provider_names_differ();
    lemma_asked_names_differ();
    let asked = invocation_json(s, c, config)->Object_0;
    json::lemma_lookup_at(asked, "provider"@, 0);
    json::lemma_lookup_at(asked, "request"@, 1);
    json::lemma_lookup_at(asked, "schema_version"@, 2);
    let request = asked[1].1->Object_0;
    json::lemma_lookup_at(request, "absolute_episode_number"@, 0);
    json::lemma_lookup_at(request, "duration_seconds"@, 1);
    json::lemma_lookup_at(request, "episode_number"@, 2);
    json::lemma_lookup_at(request, "external_ids"@, 3);
    json::lemma_lookup_at(request, "item_id"@, 4);
    json::lemma_lookup_at(request, "item_type"@, 5);
    json::lemma_lookup_at(request, "media_file_id"@, 6);
    json::lemma_lookup_at(request, "media_type"@, 7);
    json::lemma_lookup_at(request, "requested_segment_types"@, 8);
    json::lemma_lookup_at(request, "season_number"@, 9);
    let provider = asked[0].1->Object_0;
    json::lemma_lookup_at(provider, "config"@, 0);
    json::lemma_lookup_at(provider, "extension_id"@, 1);
    json::lemma_lookup_at(provider, "instance_id"@, 3);
    json::lemma_lookup_at(provider, "provider_id"@, 4);
}

proof fn lemma_request_names_differ()
    ensures
        "absolute_episode_number"@ != "duration_seconds"@,
        "absolute_episode_number"@ != "episode_number"@,
        "absolute_episode_number"@ != "external_ids"@,
        "absolute_episode_number"@ != "item_id"@,
        "absolute_episode_number"@ != "item_type"@,
        "absolute_episode_number"@ != "media_file_id"@,
        "absolute_episode_number"@ != "media_type"@,
        "absolute_episode_number"@ != "requested_segment_types"@,
        "absolute_episode_number"@ != "season_number"@,
        "duration_seconds"@ != "episode_number"@,
        "duration_seconds"@ != "external_ids"@,
        "duration_seconds"@ != "item_id"@,
        "duration_seconds"@ != "item_type"@,
        "duration_seconds"@ != "media_file_id"@,
        "duration_seconds"@ != "media_type"@,
        "duration_seconds"@ != "requested_segment_types"@,
        "duration_seconds"@ != "season_number"@,
        "episode_number"@ != "external_ids"@,
        "episode_number"@ != "item_id"@,
        "episode_number"@ != "item_type"@,
        "episode_number"@ != "media_file_id"@,
        "episode_number"@ != "media_type"@,
        "episode_number"@ != "requested_segment_types"@,
        "episode_number"@ != "season_number"@,
        "external_ids"@ != "item_id"@,
        "external_ids"@ != "item_type"@,
        "external_ids"@ != "media_file_id"@,
        "external_ids"@ != "media_type"@,
        "external_ids"@ != "requested_segment_types"@,
        "external_ids"@ != "season_number"@,
        "item_id"@ != "item_type"@,
        "item_id"@ != "media_file_id"@,
        "item_id"@ != "media_type"@,
        "item_id"@ != "requested_segment_types"@,
        "item_id"@ != "season_number"@,
        "item_type"@ != "media_file_id"@,
        "item_type"@ != "media_type"@,
        "item_type"@ != "requested_segment_types"@,
        "item_type"@ != "season_number"@,
        "media_file_id"@ != "media_type"@,
        "media_file_id"@ != "requested_segment_types"@,
        "media_file_id"@ != "season_number"@,
        "media_type"@ != "requested_segment_types"@,
        "media_type"@ != "season_number"@,
        "requested_segment_types"@ != "season_number"@,
{
    reveal_strlit("absolute_episode_number");
    reveal_strlit("duration_seconds");
    reveal_strlit("episode_number");
    reveal_strlit("external_ids");
    reveal_strlit("item_id");
    reveal_strlit("item_type");
    reveal_strlit("media_file_id");
    reveal_strlit("media_type");
    reveal_strlit("requested_segment_types");
    reveal_strlit("season_number");
    assert("absolute_episode_number"@.len() == 23);
    assert("duration_seconds"@.len() == 16);
    assert("episode_number"@.len() == 14);
    assert("external_ids"@.len() == 12);
    assert("item_id"@.len() == 7);
    assert("item_type"@.len() == 9);
    assert("media_file_id"@.len() == 13);
    assert("media_type"@.len() == 10);
    assert("requested_segment_types"@.len() == 23);
    assert("season_number"@.len() == 13);
    assert("absolute_episode_number"@[0] == 'a');
    assert("media_file_id"@[0] == 'm');
    assert("requested_segment_types"@[0] == 'r');
    assert("season_number"@[0] == 's');
}

proof fn lemma_provider_names_differ()
    ensures
        "config"@ != "extension_id"@,
        "config"@ != "implementation"@,
        "config"@ != "instance_id"@,
        "config"@ != "provider_id"@,
        "extension_id"@ != "implementation"@,
        "extension_id"@ != "instance_id"@,
        "extension_id"@ != "provider_id"@,
        "implementation"@ != "instance_id"@,
        "implementation"@ != "provider_id"@,
        "instance_id"@ != "provider_id"@,
{
    reveal_strlit("config");
    reveal_strlit("extension_id");
    reveal_strlit("implementation");
    reveal_strlit("instance_id");
    reveal_strlit("provider_id");
    assert("config"@.len() == 6);
    assert("extension_id"@.len() == 12);
    assert("implementation"@.len() == 14);
    assert("instance_id"@.len() == 11);
    assert("provider_id"@.len() == 11);
    assert("instance_id"@[0] == 'i');
    assert("provider_id"@[0] == 'p');
}

proof fn lemma_asked_names_differ()
    ensures
        "provider"@ != "request"@,
        "provider"@ != "schema_version"@,
        "request"@ != "schema_version"@,
{
    reveal_strlit("provider");
    reveal_strlit("request");
    reveal_strlit("schema_version");
    assert("provider"@.len() == 8);
    assert("request"@.len() == 7);
    assert("schema_version"@.len() == 14);
}

/// The identifiers of a film or episode are told under the names of their lists.
pub proof fn extensions_are_told_the_identifiers(c: MediaContext)
    ensures
        json::json_get(external_ids_json(c), "imdb"@) == Some(json::opt_text_json(c.imdb_id)),
        json::json_get(external_ids_json(c), "tmdb"@) == Some(json::opt_text_json(c.tmdb_id)),
        json::json_get(external_ids_json(c), "tvdb"@) == Some(json::opt_text_json(c.tvdb_id)),
        json::json_get(external_ids_json(c), "mal"@) == Some(json::opt_text_json(c.mal_id)),
        json::json_get(external_ids_json(c), "anilist"@) == Some(json::opt_text_json(c.anilist_id)),
{
    lemma_list_names_differ();
    let m = external_ids_json(c)->Object_0;
    json::lemma_lookup_at(m, "anilist"@, 0);
    json::lemma_lookup_at(m, "imdb"@, 1);
    json::lemma_lookup_at(m, "mal"@, 2);
    json::lemma_lookup_at(m, "tmdb"@, 3);
    json::lemma_lookup_at(m, "tvdb"@, 4);
}

proof fn lemma_list_names_differ()
    ensures
        "anilist"@ != "imdb"@,
        "anilist"@ != "mal"@,
        "anilist"@ != "tmdb"@,
        "anilist"@ != "tvdb"@,
        "imdb"@ != "mal"@,
        "imdb"@ != "tmdb"@,
        "imdb"@ != "tvdb"@,
        "mal"@ != "tmdb"@,
        "mal"@ != "tvdb"@,
        "tmdb"@ != "tvdb"@,
{
    reveal_strlit("anilist");
    reveal_strlit("imdb");
    reveal_strlit("mal");
    reveal_strlit("tmdb");
    reveal_strlit("tvdb");
    assert("anilist"@.len() == 7);
    assert("imdb"@.len() == 4);
    assert("mal"@.len() == 3);
    assert("tmdb"@.len() == 4);
    assert("tvdb"@.len() == 4);
    assert("imdb"@[0] == 'i');
    assert("tmdb"@[0] == 't');
    assert("tmdb"@[1] == 'm');
    assert("tvdb"@[0] == 't');
    assert("tvdb"@[1] == 'v');
}

/// A provider that is asked for by its identifier is refused unless it is a
/// provider of segments that can be reached, whose instance and extension are on
/// and whose scope names the lookup and a segment type.
pub proof fn providers_asked_for_by_name(provider_id: Seq<char>, p: Option<InstalledProvider>)
    ensures
        selection_refusal(provider_id, p) is None <==> {
            let scope = match p->0.scope {
                Some(v) => Some(v@),
                None => None,
            };
            &&& p is Some
            &&& p->0.capability@ == "media.segment_provider"@
            &&& p->0.has_endpoint
            &&& p->0.instance is Some && p->0.instance->0.enabled
            &&& p->0.extension is Some && p->0.extension->0.enabled
            &&& scope_actions(scope).contains("lookup"@)
            &&& scope_segment_types(scope).len() > 0
        },
{
}

/// Under what kind a provider is swept: its implementation, unless its settings
/// switch it off; without settings it is on.
pub proof fn providers_are_swept_unless_off(s: Selection, provider_settings: Json)
    requires
        s.implementation is Some,
        normalize::provider_id_of(s.implementation->0) is Ok,
    ensures
        ({
            let kind = normalize::provider_id_of(s.implementation->0)->Ok_0;
            let own = json::json_get(provider_settings, kind);
            let r = swept_kind(s, provider_settings);
            &&& own is None ==> r == Ok::<Option<Seq<char>>, Seq<char>>(Some(kind))
            &&& own is Some && json::json_get(own->0, "enabled"@) == Some(Json::Bool(false)) ==> r
                == Ok::<Option<Seq<char>>, Seq<char>>(None)
            &&& own is Some && json::json_get(own->0, "enabled"@) != Some(Json::Bool(false)) ==> r
                == Ok::<Option<Seq<char>>, Seq<char>>(Some(kind))
        }),
{
}

/// A provider is asked about films where it serves them, about episodes where it serves
/// series or anime, and about every episode where it serves series.
pub proof fn providers_are_due_for_what_they_serve(
    selected: &MarketplaceSegmentProviderSelection,
    r: DueScope,
)
    requires
        call_ensures(marketplace_due_scope, (selected,), r),
    ensures
        r.films <==> serves_media_type(selected@.media_types, "movie"@),
        r.every_episode <==> serves_media_type(selected@.media_types, "series"@),
        r.episodes <==> serves_media_type(selected@.media_types, "series"@) || serves_media_type(
            selected@.media_types,
            "anime"@,
        ),
{
}

/// No extension gives more than 128 candidates; each is about the file, of a type that its
/// provider is for and that is no custom one, and claims no fingerprint.
pub proof fn extension_candidates_are_bounded(
    provider_kind: Seq<char>,
    s: Selection,
    c: MediaContext,
    response: Json,
    i: int,
)
    ensures
        ({
            let found = marketplace_candidates(provider_kind, s, c, first_entries(response));
            &&& found.len() <= 128
            &&& 0 <= i < found.len() ==> {
                let x = found[i];
                &&& x.media_file_id == c.media_file_id
                &&& x.item_id == Some(c.item_id)
                &&& x.provider_kind == provider_kind
                &&& s.segment_types.contains(x.segment_type)
                &&& x.segment_type == "intro"@ || x.segment_type == "recap"@ || x.segment_type
                    == "preview"@ || x.segment_type == "credits"@ || x.segment_type == "outro"@
                &&& x.identity_strength != "file_fingerprint"@
            }
        }),
{
    extension_candidates_stay_in_scope(provider_kind, s, c, response);
    let found = marketplace_candidates(provider_kind, s, c, first_entries(response));
    if 0 <= i < found.len() {
        assert(in_scope(found[i], provider_kind, s, c));
    }
}

/// What a provider is for stands in its scope: media types and segment types under either
/// of two names, and actions.
pub proof fn scopes_are_read(scope: Json, list: Seq<Json>)
    ensures
        json::json_get(scope, "media_types"@) == Some(Json::Array(list)) ==> scope_media_types(
            Some(scope),
        ) == word_list(list),
        json::json_get(scope, "media_types"@) is None && json::json_get(scope, "mediaTypes"@)
            == Some(Json::Array(list)) ==> scope_media_types(Some(scope)) == word_list(list),
        json::json_get(scope, "segment_types"@) == Some(Json::Array(list)) ==> scope_segment_types(
            Some(scope),
        ) == type_list(list),
        json::json_get(scope, "segment_types"@) is None && json::json_get(scope, "segmentTypes"@)
            == Some(Json::Array(list)) ==> scope_segment_types(Some(scope)) == type_list(list),
        json::json_get(scope, "actions"@) == Some(Json::Array(list)) ==> scope_actions(Some(scope))
            == word_list(list),
        scope_media_types(None).len() == 0,
        scope_segment_types(None).len() == 0,
        scope_actions(None).len() == 0,
{
}

/// One of some media types serves the one that is asked for where it is the same or, for
/// anime, a series.
pub proof fn media_types_are_served(types: Seq<Seq<char>>, wanted: Seq<char>, k: int)
    ensures
        0 <= k < types.len() && normalize::media_type_served(types[k], wanted)
            ==> serves_media_type(types, wanted),
        (forall|i: int|
            0 <= i < types.len() ==> !normalize::media_type_served(#[trigger] types[i], wanted))
            ==> !serves_media_type(types, wanted),
{
}

/// Why a provider that is asked for by its identifier is refused, by the first that holds.
pub proof fn refusals_of_providers(provider_id: Seq<char>, p: InstalledProvider)
    ensures
        selection_refusal(provider_id, None) == Some(
            "media segment provider '"@ + provider_id + "' was not found"@,
        ),
        ({
            let why = selection_refusal(provider_id, Some(p));
            let scope = match p.scope {
                Some(v) => Some(v@),
                None => None,
            };
            let kind = p.capability@ == "media.segment_provider"@;
            let reached = kind && p.has_endpoint;
            let run = reached && p.instance is Some && p.instance->0.enabled;
            let on = run && p.extension is Some && p.extension->0.enabled;
            &&& !kind ==> why == Some("provider is not a media segment provider"@)
            &&& kind && !p.has_endpoint ==> why == Some(
                "media segment provider endpoint is missing"@,
            )
            &&& reached && p.instance is None ==> why == Some(
                "media segment provider instance was not found"@,
            )
            &&& reached && p.instance is Some && !p.instance->0.enabled ==> why == Some(
                "media segment provider instance is disabled"@,
            )
            &&& run && p.extension is None ==> why == Some(
                "media segment provider extension was not found"@,
            )
            &&& run && p.extension is Some && !p.extension->0.enabled ==> why == Some(
                "media segment provider extension is disabled"@,
            )
            &&& on && !scope_actions(scope).contains("lookup"@) ==> why == Some(
                "media segment provider does not declare lookup action"@,
            )
            &&& on && scope_actions(scope).contains("lookup"@) && scope_segment_types(scope).len()
                == 0 ==> why == Some(
                "media segment provider does not declare usable segment types"@,
            )
        }),
{
}

/// The key under which a reply is kept tells the length, the season and the episode of the
/// file.
pub proof fn marketplace_keys_tell_the_episode(provider_id: Seq<char>, c: MediaContext)
    ensures
        marketplace_key(provider_id, c) == "provider:"@ + provider_id + ":media_file:"@
            + c.media_file_id + ":duration:"@ + quantity::millis_text(
            if c.duration is Some {
                c.duration->0 as int
            } else {
                0
            },
        ) + ":season:"@ + (if c.season_number is Some {
            text::decimal_int(c.season_number->0 as int)
        } else {
            "none"@
        }) + ":episode:"@ + (if c.episode_number is Some {
            text::decimal_int(c.episode_number->0 as int)
        } else {
            "none"@
        }) + ":absolute:"@ + (if c.absolute_episode_number is Some {
            text::decimal_int(c.absolute_episode_number->0 as int)
        } else {
            "none"@
        }),
{
}

/// A provider kind that is not well formed is refused before any provider is looked at.
pub proof fn malformed_kinds_are_refused(
    details: Seq<InstalledProvider>,
    kind: Seq<char>,
    media_type: Option<Seq<char>>,
)
    requires
        normalize::provider_id_of(kind) is Err,
    ensures
        available_in_order(details, Some(kind), media_type) == Err::<Seq<Selection>, Seq<char>>(
            "normalizing marketplace segment provider kind"@,
        ),
{
}

/// What a candidate of an extension keeps of its source: who it is from, and what the file
/// is known by.
pub proof fn extension_sources_are_kept(
    provider_kind: Seq<char>,
    s: Selection,
    c: MediaContext,
    entry: Json,
)
    ensures
        ({
            let p = marketplace_payload(provider_kind, s, c, entry);
            &&& json::json_get(p, "absolute_episode_number"@) == Some(
                responses::opt_number_json(c.absolute_episode_number),
            )
            &&& json::json_get(p, "actions"@) == Some(texts_json(s.actions))
            &&& json::json_get(p, "anilist_id"@) == Some(json::opt_text_json(c.anilist_id))
            &&& json::json_get(p, "episode_number"@) == Some(
                responses::opt_number_json(c.episode_number),
            )
            &&& json::json_get(p, "extension_id"@) == Some(Json::Text(s.extension_id))
            &&& json::json_get(p, "imdb_id"@) == Some(json::opt_text_json(c.imdb_id))
            &&& json::json_get(p, "implementation"@) == Some(
                json::opt_text_json(s.implementation),
            )
            &&& json::json_get(p, "instance_id"@) == Some(Json::Text(s.instance_id))
            &&& json::json_get(p, "mal_id"@) == Some(json::opt_text_json(c.mal_id))
            &&& json::json_get(p, "media_types"@) == Some(texts_json(s.media_types))
            &&& json::json_get(p, "provider_id"@) == Some(Json::Text(s.provider_id))
            &&& json::json_get(p, "provider_kind"@) == Some(Json::Text(provider_kind))
            &&& json::json_get(p, "season_number"@) == Some(
                responses::opt_number_json(c.season_number),
            )
            &&& json::json_get(p, "segment_types"@) == Some(texts_json(s.segment_types))
            &&& json::json_get(p, "tmdb_id"@) == Some(json::opt_text_json(c.tmdb_id))
            &&& json::json_get(p, "tvdb_id"@) == Some(json::opt_text_json(c.tvdb_id))
        }),
{
    lemma_source_names_differ();
    let m = marketplace_payload(provider_kind, s, c, entry)->Object_0;
    json::lemma_lookup_at(m, "absolute_episode_number"@, 0);
    json::lemma_lookup_at(m, "actions"@, 1);
    json::lemma_lookup_at(m, "anilist_id"@, 2);
    json::lemma_lookup_at(m, "episode_number"@, 3);
    json::lemma_lookup_at(m, "extension_id"@, 4);
    json::lemma_lookup_at(m, "imdb_id"@, 5);
    json::lemma_lookup_at(m, "implementation"@, 6);
    json::lemma_lookup_at(m, "instance_id"@, 7);
    json::lemma_lookup_at(m, "mal_id"@, 8);
    json::lemma_lookup_at(m, "media_types"@, 9);
    json::lemma_lookup_at(m, "provider_id"@, 11);
    json::lemma_lookup_at(m, "provider_kind"@, 12);
    json::lemma_lookup_at(m, "season_number"@, 15);
    json::lemma_lookup_at(m, "segment_types"@, 16);
    json::lemma_lookup_at(m, "tmdb_id"@, 17);
    json::lemma_lookup_at(m, "tvdb_id"@, 18);
}

proof fn lemma_source_names_differ()
    ensures
        "absolute_episode_number"@ != "actions"@,
        "absolute_episode_number"@ != "anilist_id"@,
        "absolute_episode_number"@ != "episode_number"@,
        "absolute_episode_number"@ != "extension_id"@,
        "absolute_episode_number"@ != "imdb_id"@,
        "absolute_episode_number"@ != "implementation"@,
        "absolute_episode_number"@ != "instance_id"@,
        "absolute_episode_number"@ != "mal_id"@,
        "absolute_episode_number"@ != "media_types"@,
        "absolute_episode_number"@ != "provider"@,
        "absolute_episode_number"@ != "provider_id"@,
        "absolute_episode_number"@ != "provider_kind"@,
        "absolute_episode_number"@ != "provider_segment_id"@,
        "absolute_episode_number"@ != "raw"@,
        "absolute_episode_number"@ != "season_number"@,
        "absolute_episode_number"@ != "segment_types"@,
        "absolute_episode_number"@ != "tmdb_id"@,
        "absolute_episode_number"@ != "tvdb_id"@,
        "actions"@ != "anilist_id"@,
        "actions"@ != "episode_number"@,
        "actions"@ != "extension_id"@,
        "actions"@ != "imdb_id"@,
        "actions"@ != "implementation"@,
        "actions"@ != "instance_id"@,
        "actions"@ != "mal_id"@,
        "actions"@ != "media_types"@,
        "actions"@ != "provider"@,
        "actions"@ != "provider_id"@,
        "actions"@ != "provider_kind"@,
        "actions"@ != "provider_segment_id"@,
        "actions"@ != "raw"@,
        "actions"@ != "season_number"@,
        "actions"@ != "segment_types"@,
        "actions"@ != "tmdb_id"@,
        "actions"@ != "tvdb_id"@,
        "anilist_id"@ != "episode_number"@,
        "anilist_id"@ != "extension_id"@,
        "anilist_id"@ != "imdb_id"@,
        "anilist_id"@ != "implementation"@,
        "anilist_id"@ != "instance_id"@,
        "anilist_id"@ != "mal_id"@,
        "anilist_id"@ != "media_types"@,
        "anilist_id"@ != "provider"@,
        "anilist_id"@ != "provider_id"@,
        "anilist_id"@ != "provider_kind"@,
        "anilist_id"@ != "provider_segment_id"@,
        "anilist_id"@ != "raw"@,
        "anilist_id"@ != "season_number"@,
        "anilist_id"@ != "segment_types"@,
        "anilist_id"@ != "tmdb_id"@,
        "anilist_id"@ != "tvdb_id"@,
        "episode_number"@ != "extension_id"@,
        "episode_number"@ != "imdb_id"@,
        "episode_number"@ != "implementation"@,
        "episode_number"@ != "instance_id"@,
        "episode_number"@ != "mal_id"@,
        "episode_number"@ != "media_types"@,
        "episode_number"@ != "provider"@,
        "episode_number"@ != "provider_id"@,
        "episode_number"@ != "provider_kind"@,
        "episode_number"@ != "provider_segment_id"@,
        "episode_number"@ != "raw"@,
        "episode_number"@ != "season_number"@,
        "episode_number"@ != "segment_types"@,
        "episode_number"@ != "tmdb_id"@,
        "episode_number"@ != "tvdb_id"@,
        "extension_id"@ != "imdb_id"@,
        "extension_id"@ != "implementation"@,
        "extension_id"@ != "instance_id"@,
        "extension_id"@ != "mal_id"@,
        "extension_id"@ != "media_types"@,
        "extension_id"@ != "provider"@,
        "extension_id"@ != "provider_id"@,
        "extension_id"@ != "provider_kind"@,
        "extension_id"@ != "provider_segment_id"@,
        "extension_id"@ != "raw"@,
        "extension_id"@ != "season_number"@,
        "extension_id"@ != "segment_types"@,
        "extension_id"@ != "tmdb_id"@,
        "extension_id"@ != "tvdb_id"@,
        "imdb_id"@ != "implementation"@,
        "imdb_id"@ != "instance_id"@,
        "imdb_id"@ != "mal_id"@,
        "imdb_id"@ != "media_types"@,
        "imdb_id"@ != "provider"@,
        "imdb_id"@ != "provider_id"@,
        "imdb_id"@ != "provider_kind"@,
        "imdb_id"@ != "provider_segment_id"@,
        "imdb_id"@ != "raw"@,
        "imdb_id"@ != "season_number"@,
        "imdb_id"@ != "segment_types"@,
        "imdb_id"@ != "tmdb_id"@,
        "imdb_id"@ != "tvdb_id"@,
        "implementation"@ != "instance_id"@,
        "implementation"@ != "mal_id"@,
        "implementation"@ != "media_types"@,
        "implementation"@ != "provider"@,
        "implementation"@ != "provider_id"@,
        "implementation"@ != "provider_kind"@,
        "implementation"@ != "provider_segment_id"@,
        "implementation"@ != "raw"@,
        "implementation"@ != "season_number"@,
        "implementation"@ != "segment_types"@,
        "implementation"@ != "tmdb_id"@,
        "implementation"@ != "tvdb_id"@,
        "instance_id"@ != "mal_id"@,
        "instance_id"@ != "media_types"@,
        "instance_id"@ != "provider"@,
        "instance_id"@ != "provider_id"@,
        "instance_id"@ != "provider_kind"@,
        "instance_id"@ != "provider_segment_id"@,
        "instance_id"@ != "raw"@,
        "instance_id"@ != "season_number"@,
        "instance_id"@ != "segment_types"@,
        "instance_id"@ != "tmdb_id"@,
        "instance_id"@ != "tvdb_id"@,
        "mal_id"@ != "media_types"@,
        "mal_id"@ != "provider"@,
        "mal_id"@ != "provider_id"@,
        "mal_id"@ != "provider_kind"@,
        "mal_id"@ != "provider_segment_id"@,
        "mal_id"@ != "raw"@,
        "mal_id"@ != "season_number"@,
        "mal_id"@ != "segment_types"@,
        "mal_id"@ != "tmdb_id"@,
        "mal_id"@ != "tvdb_id"@,
        "media_types"@ != "provider"@,
        "media_types"@ != "provider_id"@,
        "media_types"@ != "provider_kind"@,
        "media_types"@ != "provider_segment_id"@,
        "media_types"@ != "raw"@,
        "media_types"@ != "season_number"@,
        "media_types"@ != "segment_types"@,
        "media_types"@ != "tmdb_id"@,
        "media_types"@ != "tvdb_id"@,
        "provider"@ != "provider_id"@,
        "provider"@ != "provider_kind"@,
        "provider"@ != "provider_segment_id"@,
        "provider"@ != "raw"@,
        "provider"@ != "season_number"@,
        "provider"@ != "segment_types"@,
        "provider"@ != "tmdb_id"@,
        "provider"@ != "tvdb_id"@,
        "provider_id"@ != "provider_kind"@,
        "provider_id"@ != "provider_segment_id"@,
        "provider_id"@ != "raw"@,
        "provider_id"@ != "season_number"@,
        "provider_id"@ != "segment_types"@,
        "provider_id"@ != "tmdb_id"@,
        "provider_id"@ != "tvdb_id"@,
        "provider_kind"@ != "provider_segment_id"@,
        "provider_kind"@ != "raw"@,
        "provider_kind"@ != "season_number"@,
        "provider_kind"@ != "segment_types"@,
        "provider_kind"@ != "tmdb_id"@,
        "provider_kind"@ != "tvdb_id"@,
        "provider_segment_id"@ != "raw"@,
        "provider_segment_id"@ != "season_number"@,
        "provider_segment_id"@ != "segment_types"@,
        "provider_segment_id"@ != "tmdb_id"@,
        "provider_segment_id"@ != "tvdb_id"@,
        "raw"@ != "season_number"@,
        "raw"@ != "segment_types"@,
        "raw"@ != "tmdb_id"@,
        "raw"@ != "tvdb_id"@,
        "season_number"@ != "segment_types"@,
        "season_number"@ != "tmdb_id"@,
        "season_number"@ != "tvdb_id"@,
        "segment_types"@ != "tmdb_id"@,
        "segment_types"@ != "tvdb_id"@,
        "tmdb_id"@ != "tvdb_id"@,
{
    reveal_strlit("absolute_episode_number");
    reveal_strlit("actions");
    reveal_strlit("anilist_id");
    reveal_strlit("episode_number");
    reveal_strlit("extension_id");
    reveal_strlit("imdb_id");
    reveal_strlit("implementation");
    reveal_strlit("instance_id");
    reveal_strlit("mal_id");
    reveal_strlit("media_types");
    reveal_strlit("provider");
    reveal_strlit("provider_id");
    reveal_strlit("provider_kind");
    reveal_strlit("provider_segment_id");
    reveal_strlit("raw");
    reveal_strlit("season_number");
    reveal_strlit("segment_types");
    reveal_strlit("tmdb_id");
    reveal_strlit("tvdb_id");
    assert("absolute_episode_number"@.len() == 23);
    assert("actions"@.len() == 7);
    assert("anilist_id"@.len() == 10);
    assert("episode_number"@.len() == 14);
    assert("extension_id"@.len() == 12);
    assert("imdb_id"@.len() == 7);
    assert("implementation"@.len() == 14);
    assert("instance_id"@.len() == 11);
    assert("mal_id"@.len() == 6);
    assert("media_types"@.len() == 11);
    assert("provider"@.len() == 8);
    assert("provider_id"@.len() == 11);
    assert("provider_kind"@.len() == 13);
    assert("provider_segment_id"@.len() == 19);
    assert("raw"@.len() == 3);
    assert("season_number"@.len() == 13);
    assert("segment_types"@.len() == 13);
    assert("tmdb_id"@.len() == 7);
    assert("tvdb_id"@.len() == 7);
    assert("actions"@[0] == 'a');
    assert("episode_number"@[0] == 'e');
    assert("imdb_id"@[0] == 'i');
    assert("implementation"@[0] == 'i');
    assert("instance_id"@[0] == 'i');
    assert("media_types"@[0] == 'm');
    assert("provider_id"@[0] == 'p');
    assert("provider_kind"@[0] == 'p');
    assert("season_number"@[0] == 's');
    assert("season_number"@[2] == 'a');
    assert("segment_types"@[0] == 's');
    assert("segment_types"@[2] == 'g');
    assert("tmdb_id"@[0] == 't');
    assert("tmdb_id"@[1] == 'm');
    assert("tvdb_id"@[0] == 't');
    assert("tvdb_id"@[1] == 'v');
}

} // verus!
