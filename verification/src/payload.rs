//! Web API payloads, completed with the fields that readers of them count on.

use vstd::prelude::*;

use crate::json::{
    array_json, contains_key, entry_views, find_key, has_key, insert_default, item_views, key_index,
    keys_unique, lemma_json_view, lemma_key_index, no_key_twice, number_json, number_of,
    object_json, value_of, with_default, Json, JsonView,
};
use crate::text::text_is;

verus! {

/// The value is not `null`.
pub open spec fn not_null() -> spec_fn(JsonView) -> bool {
    |value: JsonView| !(value is Null)
}

/// The object holds every one of the keys.
pub open spec fn has_keys(
    entries: Seq<(Seq<char>, JsonView)>,
    a: Seq<char>,
    b: Seq<char>,
    c: Seq<char>,
    d: Seq<char>,
) -> bool {
    has_key(entries, a) && has_key(entries, b) && has_key(entries, c) && has_key(entries, d)
}

pub open spec fn no_items() -> JsonView {
    JsonView::Array(seq![])
}

pub open spec fn no_entries() -> JsonView {
    JsonView::Object(seq![])
}

pub open spec fn no_text() -> JsonView {
    JsonView::Text(seq![])
}

pub open spec fn zero() -> JsonView {
    JsonView::Number(number_of(0))
}

/// A reference to nothing: an object with a link and a count of zero.
pub open spec fn empty_listing(link: JsonView) -> JsonView {
    JsonView::Object(seq![("href"@, link), ("total"@, zero())])
}

/// A playlist has `tracks`: its `items`, or a reference to none.
pub open spec fn with_playlist_tracks(
    entries: Seq<(Seq<char>, JsonView)>,
) -> Seq<(Seq<char>, JsonView)> {
    if has_key(entries, "snapshot_id"@) && has_key(entries, "owner"@) && has_key(entries, "id"@) {
        with_default(
            entries,
            "tracks"@,
            match value_of(entries, "items"@) {
                Some(items) => items,
                None => empty_listing(no_text()),
            },
        )
    } else {
        entries
    }
}

/// A saved or listed thing has a `track`: its `item`, where it has one.
pub open spec fn with_saved_track(
    entries: Seq<(Seq<char>, JsonView)>,
) -> Seq<(Seq<char>, JsonView)> {
    match value_of(entries, "item"@) {
        Some(item) => if has_key(entries, "added_at"@) {
            with_default(entries, "track"@, item)
        } else {
            entries
        },
        None => entries,
    }
}

/// A track has its markets, its outside ids, its link and its popularity.
pub open spec fn with_track_fields(
    entries: Seq<(Seq<char>, JsonView)>,
) -> Seq<(Seq<char>, JsonView)> {
    if has_keys(entries, "album"@, "artists"@, "track_number"@, "duration_ms"@) {
        let e1 = with_default(entries, "available_markets"@, no_items());
        let e2 = with_default(e1, "external_ids"@, no_entries());
        let e3 = with_default(e2, "linked_from"@, JsonView::Null);
        with_default(e3, "popularity"@, zero())
    } else {
        entries
    }
}

/// A show has its markets and its publisher.
pub open spec fn with_show_fields(
    entries: Seq<(Seq<char>, JsonView)>,
) -> Seq<(Seq<char>, JsonView)> {
    if has_keys(entries, "media_type"@, "languages"@, "description"@, "name"@) {
        let e1 = with_default(entries, "available_markets"@, no_items());
        with_default(e1, "publisher"@, no_text())
    } else {
        entries
    }
}

/// An album has its markets; one that lists its tracks has its outside ids, its popularity and its
/// label too.
pub open spec fn with_album_fields(
    entries: Seq<(Seq<char>, JsonView)>,
) -> Seq<(Seq<char>, JsonView)> {
    if has_keys(entries, "album_type"@, "artists"@, "images"@, "name"@) {
        if has_key(entries, "tracks"@) {
            let e1 = with_default(entries, "available_markets"@, JsonView::Null);
            let e2 = with_default(e1, "external_ids"@, no_entries());
            let e3 = with_default(e2, "popularity"@, zero());
            with_default(e3, "label"@, JsonView::Null)
        } else {
            with_default(entries, "available_markets"@, no_items())
        }
    } else {
        entries
    }
}

/// The object says that it is an artist, or has the fields of one.
pub open spec fn looks_like_artist(entries: Seq<(Seq<char>, JsonView)>) -> bool {
    ||| value_of(entries, "type"@) == Some(JsonView::Text("artist"@))
    ||| {
        &&& has_key(entries, "external_urls"@)
        &&& has_key(entries, "name"@)
        &&& has_key(entries, "id"@)
        &&& (has_key(entries, "genres"@) || has_key(entries, "images"@))
    }
}

/// An artist has its link, its genres, its images, its followers and its popularity.
pub open spec fn with_artist_fields(
    entries: Seq<(Seq<char>, JsonView)>,
) -> Seq<(Seq<char>, JsonView)> {
    if looks_like_artist(entries) {
        let e1 = with_default(entries, "href"@, no_text());
        let e2 = with_default(e1, "genres"@, no_items());
        let e3 = with_default(e2, "images"@, no_items());
        let e4 = with_default(e3, "followers"@, empty_listing(JsonView::Null));
        with_default(e4, "popularity"@, zero())
    } else {
        entries
    }
}

/// The fields of an object, with those added that its readers count on.
pub open spec fn completed(entries: Seq<(Seq<char>, JsonView)>) -> Seq<(Seq<char>, JsonView)> {
    with_artist_fields(
        with_album_fields(
            with_show_fields(with_track_fields(with_saved_track(with_playlist_tracks(entries)))),
        ),
    )
}

/// A payload in the form that its readers count on: arrays hold no `null`, and every object has
/// the fields that belong to what it describes.
pub open spec fn normalized(value: JsonView) -> JsonView
    decreases value,
{
    match value {
        JsonView::Array(items) => JsonView::Array(normalized_each(items).filter(not_null())),
        JsonView::Object(entries) => JsonView::Object(completed(normalized_entries(entries))),
        _ => value,
    }
}

/// Every item of a list, normalized.
pub open spec fn normalized_each(items: Seq<JsonView>) -> Seq<JsonView>
    decreases items,
{
    Seq::new(
        items.len(),
        |i: int|
            if 0 <= i < items.len() {
                normalized(items[i])
            } else {
                JsonView::Null
            },
    )
}

/// Every value of a list of entries, normalized.
pub open spec fn normalized_entries(
    entries: Seq<(Seq<char>, JsonView)>,
) -> Seq<(Seq<char>, JsonView)>
    decreases entries,
{
    Seq::new(
        entries.len(),
        |i: int|
            if 0 <= i < entries.len() {
                (entries[i].0, normalized(entries[i].1))
            } else {
                (seq![], JsonView::Null)
            },
    )
}

/// Normalizing neither makes a `null` nor takes one away.
proof fn lemma_normalized_null(value: JsonView)
    ensures
        normalized(value) is Null <==> value is Null,
{
}

/// No array of the value, however deep, holds a `null`.
pub open spec fn without_null_items(value: JsonView) -> bool
    decreases value,
{
    match value {
        JsonView::Array(items) => forall|i: int|
            0 <= i < items.len() ==> !(items[i] is Null) && without_null_items(#[trigger] items[i]),
        JsonView::Object(entries) => forall|i: int|
            0 <= i < entries.len() ==> without_null_items((#[trigger] entries[i]).1),
        _ => true,
    }
}

/// No array of a value of the entries holds a `null`.
#[verifier::opaque]
spec fn entries_without_null_items(entries: Seq<(Seq<char>, JsonView)>) -> bool {
    forall|i: int| 0 <= i < entries.len() ==> without_null_items((#[trigger] entries[i]).1)
}

/// The entries begin with the others.
#[verifier::opaque]
spec fn begins_with(
    entries: Seq<(Seq<char>, JsonView)>,
    others: Seq<(Seq<char>, JsonView)>,
) -> bool {
    &&& others.len() <= entries.len()
    &&& forall|i: int| 0 <= i < others.len() ==> #[trigger] entries[i] == others[i]
}

/// Entries that begin with others hold for each key of those what those hold.
proof fn lemma_value_kept(
    all: Seq<(Seq<char>, JsonView)>,
    entries: Seq<(Seq<char>, JsonView)>,
)
    requires
        begins_with(all, entries),
    ensures
        entries.len() <= all.len(),
        all.take(entries.len() as int) == entries,
        forall|key: Seq<char>|
            has_key(entries, key) ==> #[trigger] value_of(all, key) == value_of(entries, key),
{
    reveal(begins_with);
    assert forall|key: Seq<char>| has_key(entries, key) implies #[trigger] value_of(all, key)
        == value_of(entries, key) by {
        lemma_key_index(entries, key);
        lemma_key_index(all, key);
        let i = key_index(entries, key);
        assert(all[i] == entries[i]);
        let k = key_index(all, key);
        if k < i {
            assert(all[k] == entries[k]);
        }
    }
}

proof fn lemma_begins_with_itself(entries: Seq<(Seq<char>, JsonView)>)
    ensures
        begins_with(entries, entries),
{
    reveal(begins_with);
}

proof fn lemma_default_begins(
    entries: Seq<(Seq<char>, JsonView)>,
    others: Seq<(Seq<char>, JsonView)>,
    key: Seq<char>,
    value: JsonView,
)
    requires
        begins_with(entries, others),
    ensures
        begins_with(with_default(entries, key, value), others),
{
    reveal(begins_with);
}

/// Completing an object keeps every entry it has, in its place, and adds no key that it has.
pub proof fn lemma_completed_keeps_entries(entries: Seq<(Seq<char>, JsonView)>)
    ensures
        entries.len() <= completed(entries).len(),
        completed(entries).take(entries.len() as int) == entries,
        forall|key: Seq<char>|
            has_key(entries, key) ==> #[trigger] value_of(completed(entries), key) == value_of(
                entries,
                key,
            ),
{
    let e1 = with_playlist_tracks(entries);
    let e2 = with_saved_track(e1);
    let e3 = with_track_fields(e2);
    let e4 = with_show_fields(e3);
    let e5 = with_album_fields(e4);
    let e6 = with_artist_fields(e5);
    lemma_begins_with_itself(entries);
    assert(begins_with(e1, entries)) by {
        let tracks = match value_of(entries, "items"@) {
            Some(items) => items,
            None => empty_listing(no_text()),
        };
        lemma_default_begins(entries, entries, "tracks"@, tracks);
    }
    assert(begins_with(e2, entries)) by {
        match value_of(e1, "item"@) {
            Some(item) => lemma_default_begins(e1, entries, "track"@, item),
            None => {},
        }
    }
    assert(begins_with(e3, entries)) by {
        let a = with_default(e2, "available_markets"@, no_items());
        lemma_default_begins(e2, entries, "available_markets"@, no_items());
        let b = with_default(a, "external_ids"@, no_entries());
        lemma_default_begins(a, entries, "external_ids"@, no_entries());
        let c = with_default(b, "linked_from"@, JsonView::Null);
        lemma_default_begins(b, entries, "linked_from"@, JsonView::Null);
        lemma_default_begins(c, entries, "popularity"@, zero());
    }
    assert(begins_with(e4, entries)) by {
        let a = with_default(e3, "available_markets"@, no_items());
        lemma_default_begins(e3, entries, "available_markets"@, no_items());
        lemma_default_begins(a, entries, "publisher"@, no_text());
    }
    assert(begins_with(e5, entries)) by {
        lemma_default_begins(e4, entries, "available_markets"@, no_items());
        let a = with_default(e4, "available_markets"@, JsonView::Null);
        lemma_default_begins(e4, entries, "available_markets"@, JsonView::Null);
        let b = with_default(a, "external_ids"@, no_entries());
        lemma_default_begins(a, entries, "external_ids"@, no_entries());
        let c = with_default(b, "popularity"@, zero());
        lemma_default_begins(b, entries, "popularity"@, zero());
        lemma_default_begins(c, entries, "label"@, JsonView::Null);
    }
    assert(begins_with(e6, entries)) by {
        let a = with_default(e5, "href"@, no_text());
        lemma_default_begins(e5, entries, "href"@, no_text());
        let b = with_default(a, "genres"@, no_items());
        lemma_default_begins(a, entries, "genres"@, no_items());
        let c = with_default(b, "images"@, no_items());
        lemma_default_begins(b, entries, "images"@, no_items());
        let d = with_default(c, "followers"@, empty_listing(JsonView::Null));
        lemma_default_begins(c, entries, "followers"@, empty_listing(JsonView::Null));
        lemma_default_begins(d, entries, "popularity"@, zero());
    }
    lemma_value_kept(completed(entries), entries);
}

proof fn lemma_default_without_null_items(
    entries: Seq<(Seq<char>, JsonView)>,
    key: Seq<char>,
    value: JsonView,
)
    requires
        entries_without_null_items(entries),
        without_null_items(value),
    ensures
        entries_without_null_items(with_default(entries, key, value)),
{
    reveal(entries_without_null_items);
}

proof fn lemma_value_without_null_items(entries: Seq<(Seq<char>, JsonView)>, key: Seq<char>)
    requires
        entries_without_null_items(entries),
    ensures
        value_of(entries, key) matches Some(value) ==> without_null_items(value),
{
    reveal(entries_without_null_items);
    lemma_key_index(entries, key);
}

proof fn lemma_defaults_without_null_items()
    ensures
        without_null_items(no_items()),
        without_null_items(no_entries()),
        without_null_items(no_text()),
        without_null_items(zero()),
        without_null_items(JsonView::Null),
        without_null_items(empty_listing(no_text())),
        without_null_items(empty_listing(JsonView::Null)),
{
    reveal_with_fuel(without_null_items, 2);
}

proof fn lemma_completed_without_null_items(entries: Seq<(Seq<char>, JsonView)>)
    requires
        entries_without_null_items(entries),
    ensures
        entries_without_null_items(completed(entries)),
{
    lemma_defaults_without_null_items();
    let e1 = with_playlist_tracks(entries);
    assert(entries_without_null_items(e1)) by {
        lemma_value_without_null_items(entries, "items"@);
        let tracks = match value_of(entries, "items"@) {
            Some(items) => items,
            None => empty_listing(no_text()),
        };
        lemma_default_without_null_items(entries, "tracks"@, tracks);
    }
    let e2 = with_saved_track(e1);
    assert(entries_without_null_items(e2)) by {
        lemma_value_without_null_items(e1, "item"@);
        match value_of(e1, "item"@) {
            Some(item) => lemma_default_without_null_items(e1, "track"@, item),
            None => {},
        }
    }
    let e3 = with_track_fields(e2);
    assert(entries_without_null_items(e3)) by {
        let a = with_default(e2, "available_markets"@, no_items());
        lemma_default_without_null_items(e2, "available_markets"@, no_items());
        let b = with_default(a, "external_ids"@, no_entries());
        lemma_default_without_null_items(a, "external_ids"@, no_entries());
        let c = with_default(b, "linked_from"@, JsonView::Null);
        lemma_default_without_null_items(b, "linked_from"@, JsonView::Null);
        lemma_default_without_null_items(c, "popularity"@, zero());
    }
    let e4 = with_show_fields(e3);
    assert(entries_without_null_items(e4)) by {
        let a = with_default(e3, "available_markets"@, no_items());
        lemma_default_without_null_items(e3, "available_markets"@, no_items());
        lemma_default_without_null_items(a, "publisher"@, no_text());
    }
    let e5 = with_album_fields(e4);
    assert(entries_without_null_items(e5)) by {
        lemma_default_without_null_items(e4, "available_markets"@, no_items());
        let a = with_default(e4, "available_markets"@, JsonView::Null);
        lemma_default_without_null_items(e4, "available_markets"@, JsonView::Null);
        let b = with_default(a, "external_ids"@, no_entries());
        lemma_default_without_null_items(a, "external_ids"@, no_entries());
        let c = with_default(b, "popularity"@, zero());
        lemma_default_without_null_items(b, "popularity"@, zero());
        lemma_default_without_null_items(c, "label"@, JsonView::Null);
    }
    assert(entries_without_null_items(with_artist_fields(e5))) by {
        let a = with_default(e5, "href"@, no_text());
        lemma_default_without_null_items(e5, "href"@, no_text());
        let b = with_default(a, "genres"@, no_items());
        lemma_default_without_null_items(a, "genres"@, no_items());
        let c = with_default(b, "images"@, no_items());
        lemma_default_without_null_items(b, "images"@, no_items());
        let d = with_default(c, "followers"@, empty_listing(JsonView::Null));
        lemma_default_without_null_items(c, "followers"@, empty_listing(JsonView::Null));
        lemma_default_without_null_items(d, "popularity"@, zero());
    }
}

/// In a normalized payload no array holds a `null`, at whatever depth it stands.
#[verifier::rlimit(30)]
pub proof fn lemma_normalized_without_null_items(value: JsonView)
    ensures
        without_null_items(normalized(value)),
    decreases value,
{
    match value {
        JsonView::Array(items) => {
            let each = normalized_each(items);
            let kept = each.filter(not_null());
            assert forall|i: int| 0 <= i < kept.len() implies !(kept[i] is Null)
                && without_null_items(#[trigger] kept[i]) by {
                each.lemma_filter_contains_rev(not_null(), kept[i]);
                let k = choose|k: int| 0 <= k < each.len() && each[k] == kept[i];
                assert(decreases_to!(value => value->Array_0));
                lemma_normalized_without_null_items(items[k]);
            }
        },
        JsonView::Object(entries) => {
            let each = normalized_entries(entries);
            assert forall|i: int| 0 <= i < each.len() implies without_null_items(
                (#[trigger] each[i]).1,
            ) by {
                assert(decreases_to!(value => value->Object_0));
                assert(decreases_to!(entries => entries[i]));
                assert(decreases_to!(entries[i] => entries[i].1));
                lemma_normalized_without_null_items(entries[i].1);
            }
            assert(entries_without_null_items(each)) by {
                reveal(entries_without_null_items);
            }
            lemma_completed_without_null_items(each);
            reveal(entries_without_null_items);
        },
        _ => {},
    }
}

/// The entries have no key twice, and neither does any object of their values.
#[verifier::opaque]
spec fn entry_keys_unique(entries: Seq<(Seq<char>, JsonView)>) -> bool {
    &&& no_key_twice(entries)
    &&& forall|i: int| 0 <= i < entries.len() ==> keys_unique((#[trigger] entries[i]).1)
}

proof fn lemma_default_keys_unique(
    entries: Seq<(Seq<char>, JsonView)>,
    key: Seq<char>,
    value: JsonView,
)
    requires
        entry_keys_unique(entries),
        keys_unique(value),
    ensures
        entry_keys_unique(with_default(entries, key, value)),
{
    reveal(entry_keys_unique);
}

proof fn lemma_value_keys_unique(entries: Seq<(Seq<char>, JsonView)>, key: Seq<char>)
    requires
        entry_keys_unique(entries),
    ensures
        value_of(entries, key) matches Some(value) ==> keys_unique(value),
{
    reveal(entry_keys_unique);
    lemma_key_index(entries, key);
}

proof fn lemma_default_values_keys_unique()
    ensures
        keys_unique(no_items()),
        keys_unique(no_entries()),
        keys_unique(no_text()),
        keys_unique(zero()),
        keys_unique(JsonView::Null),
        keys_unique(empty_listing(no_text())),
        keys_unique(empty_listing(JsonView::Null)),
{
    reveal_with_fuel(keys_unique, 2);
    reveal_strlit("href");
    reveal_strlit("total");
    assert("href"@.len() != "total"@.len());
}

proof fn lemma_completed_keys_unique(entries: Seq<(Seq<char>, JsonView)>)
    requires
        entry_keys_unique(entries),
    ensures
        entry_keys_unique(completed(entries)),
{
    lemma_default_values_keys_unique();
    let e1 = with_playlist_tracks(entries);
    assert(entry_keys_unique(e1)) by {
        lemma_value_keys_unique(entries, "items"@);
        let tracks = match value_of(entries, "items"@) {
            Some(items) => items,
            None => empty_listing(no_text()),
        };
        lemma_default_keys_unique(entries, "tracks"@, tracks);
    }
    let e2 = with_saved_track(e1);
    assert(entry_keys_unique(e2)) by {
        lemma_value_keys_unique(e1, "item"@);
        match value_of(e1, "item"@) {
            Some(item) => lemma_default_keys_unique(e1, "track"@, item),
            None => {},
        }
    }
    let e3 = with_track_fields(e2);
    assert(entry_keys_unique(e3)) by {
        let a = with_default(e2, "available_markets"@, no_items());
        lemma_default_keys_unique(e2, "available_markets"@, no_items());
        let b = with_default(a, "external_ids"@, no_entries());
        lemma_default_keys_unique(a, "external_ids"@, no_entries());
        let c = with_default(b, "linked_from"@, JsonView::Null);
        lemma_default_keys_unique(b, "linked_from"@, JsonView::Null);
        lemma_default_keys_unique(c, "popularity"@, zero());
    }
    let e4 = with_show_fields(e3);
    assert(entry_keys_unique(e4)) by {
        let a = with_default(e3, "available_markets"@, no_items());
        lemma_default_keys_unique(e3, "available_markets"@, no_items());
        lemma_default_keys_unique(a, "publisher"@, no_text());
    }
    let e5 = with_album_fields(e4);
    assert(entry_keys_unique(e5)) by {
        lemma_default_keys_unique(e4, "available_markets"@, no_items());
        let a = with_default(e4, "available_markets"@, JsonView::Null);
        lemma_default_keys_unique(e4, "available_markets"@, JsonView::Null);
        let b = with_default(a, "external_ids"@, no_entries());
        lemma_default_keys_unique(a, "external_ids"@, no_entries());
        let c = with_default(b, "popularity"@, zero());
        lemma_default_keys_unique(b, "popularity"@, zero());
        lemma_default_keys_unique(c, "label"@, JsonView::Null);
    }
    assert(entry_keys_unique(with_artist_fields(e5))) by {
        let a = with_default(e5, "href"@, no_text());
        lemma_default_keys_unique(e5, "href"@, no_text());
        let b = with_default(a, "genres"@, no_items());
        lemma_default_keys_unique(a, "genres"@, no_items());
        let c = with_default(b, "images"@, no_items());
        lemma_default_keys_unique(b, "images"@, no_items());
        let d = with_default(c, "followers"@, empty_listing(JsonView::Null));
        lemma_default_keys_unique(c, "followers"@, empty_listing(JsonView::Null));
        lemma_default_keys_unique(d, "popularity"@, zero());
    }
}

/// Normalizing a payload in which no object has a key twice gives one of which that is true as well.
#[verifier::rlimit(30)]
pub proof fn lemma_normalized_keys_unique(value: JsonView)
    requires
        keys_unique(value),
    ensures
        keys_unique(normalized(value)),
    decreases value,
{
    match value {
        JsonView::Array(items) => {
            let each = normalized_each(items);
            let kept = each.filter(not_null());
            assert forall|i: int| 0 <= i < kept.len() implies keys_unique(#[trigger] kept[i]) by {
                each.lemma_filter_contains_rev(not_null(), kept[i]);
                let k = choose|k: int| 0 <= k < each.len() && each[k] == kept[i];
                assert(decreases_to!(value => value->Array_0));
                lemma_normalized_keys_unique(items[k]);
            }
        },
        JsonView::Object(entries) => {
            let each = normalized_entries(entries);
            assert forall|i: int| 0 <= i < each.len() implies keys_unique(
                (#[trigger] each[i]).1,
            ) by {
                assert(decreases_to!(value => value->Object_0));
                assert(decreases_to!(entries => entries[i]));
                assert(decreases_to!(entries[i] => entries[i].1));
                lemma_normalized_keys_unique(entries[i].1);
            }
            assert forall|i: int, j: int| 0 <= i < j < each.len() implies (#[trigger] each[i]).0
                != (#[trigger] each[j]).0 by {
                assert(each[i].0 == entries[i].0 && each[j].0 == entries[j].0);
            }
            assert(entry_keys_unique(each)) by {
                reveal(entry_keys_unique);
            }
            lemma_completed_keys_unique(each);
            reveal(entry_keys_unique);
        },
        _ => {},
    }
}

proof fn lemma_normalized_keys(entries: Seq<(Seq<char>, JsonView)>, key: Seq<char>)
    ensures
        has_key(normalized_entries(entries), key) <==> has_key(entries, key),
        key_index(normalized_entries(entries), key) == key_index(entries, key),
        value_of(normalized_entries(entries), key) == (match value_of(entries, key) {
            Some(value) => Some(normalized(value)),
            None => None,
        }),
{
    let each = normalized_entries(entries);
    lemma_key_index(entries, key);
    lemma_key_index(each, key);
    if has_key(entries, key) {
        let i = key_index(entries, key);
        assert(each[i].0 == key);
    }
    if has_key(each, key) {
        let i = key_index(each, key);
        assert(entries[i].0 == key);
    }
    let i = key_index(entries, key);
    let k = key_index(each, key);
    if i < k {
        assert(each[i].0 == entries[i].0);
    }
    if k < i {
        assert(each[k].0 == entries[k].0);
    }
}

proof fn lemma_normalized_default(
    entries: Seq<(Seq<char>, JsonView)>,
    key: Seq<char>,
    value: JsonView,
)
    ensures
        normalized_entries(with_default(entries, key, value)) == with_default(
            normalized_entries(entries),
            key,
            normalized(value),
        ),
{
    lemma_normalized_keys(entries, key);
    assert(normalized_entries(with_default(entries, key, value)) =~= with_default(
        normalized_entries(entries),
        key,
        normalized(value),
    ));
}

#[verifier::rlimit(30)]
proof fn lemma_normalized_defaults()
    ensures
        normalized(no_items()) == no_items(),
        normalized(no_entries()) == no_entries(),
        normalized(empty_listing(no_text())) == empty_listing(no_text()),
        normalized(empty_listing(JsonView::Null)) == empty_listing(JsonView::Null),
{
    reveal(Seq::filter);
    assert(normalized_each(seq![]) =~= seq![]);
    assert(normalized(no_items()) == no_items());
    lemma_plain_object_kept(seq![]);
    lemma_plain_object_kept(seq![("href"@, no_text()), ("total"@, zero())]);
    lemma_plain_object_kept(seq![("href"@, JsonView::Null), ("total"@, zero())]);
}

/// An object with a link and a count at most describes nothing that has fields to be added.
proof fn lemma_plain_object_kept(entries: Seq<(Seq<char>, JsonView)>)
    requires
        forall|i: int|
            0 <= i < entries.len() ==> (#[trigger] entries[i]).0 == "href"@ || entries[i].0
                == "total"@,
        forall|i: int|
            0 <= i < entries.len() ==> normalized((#[trigger] entries[i]).1) == entries[i].1,
    ensures
        normalized(JsonView::Object(entries)) == JsonView::Object(entries),
{
    reveal_strlit("href");
    reveal_strlit("total");
    reveal_strlit("snapshot_id");
    reveal_strlit("item");
    reveal_strlit("album");
    reveal_strlit("media_type");
    reveal_strlit("album_type");
    reveal_strlit("type");
    reveal_strlit("name");
    assert("href"@.len() == 4 && "href"@[0] == 'h');
    assert("total"@.len() == 5 && "total"@[0] == 't');
    assert("snapshot_id"@.len() == 11);
    assert("item"@.len() == 4 && "item"@[0] == 'i');
    assert("album"@.len() == 5 && "album"@[0] == 'a');
    assert("media_type"@.len() == 10);
    assert("album_type"@.len() == 10);
    assert("type"@.len() == 4 && "type"@[0] == 't');
    assert("name"@.len() == 4 && "name"@[0] == 'n');
    assert(normalized_entries(entries) =~= entries);
    assert(completed(entries) == entries);
}

/// It makes no difference whether an object is completed before what it holds is normalized, or
/// afterwards.
#[verifier::rlimit(30)]
pub proof fn lemma_completion_commutes(entries: Seq<(Seq<char>, JsonView)>)
    ensures
        normalized_entries(completed(entries)) == completed(normalized_entries(entries)),
{
    lemma_normalized_defaults();
    let n0 = normalized_entries(entries);
    let e1 = with_playlist_tracks(entries);
    let n1 = with_playlist_tracks(n0);
    assert(normalized_entries(e1) == n1) by {
        lemma_normalized_keys(entries, "snapshot_id"@);
        lemma_normalized_keys(entries, "owner"@);
        lemma_normalized_keys(entries, "id"@);
        lemma_normalized_keys(entries, "items"@);
        let tracks = match value_of(entries, "items"@) {
            Some(items) => items,
            None => empty_listing(no_text()),
        };
        lemma_normalized_default(entries, "tracks"@, tracks);
    }
    let e2 = with_saved_track(e1);
    let n2 = with_saved_track(n1);
    assert(normalized_entries(e2) == n2) by {
        lemma_normalized_keys(e1, "item"@);
        lemma_normalized_keys(e1, "added_at"@);
        match value_of(e1, "item"@) {
            Some(item) => lemma_normalized_default(e1, "track"@, item),
            None => {},
        }
    }
    let e3 = with_track_fields(e2);
    let n3 = with_track_fields(n2);
    assert(normalized_entries(e3) == n3) by {
        lemma_normalized_keys(e2, "album"@);
        lemma_normalized_keys(e2, "artists"@);
        lemma_normalized_keys(e2, "track_number"@);
        lemma_normalized_keys(e2, "duration_ms"@);
        let a = with_default(e2, "available_markets"@, no_items());
        lemma_normalized_default(e2, "available_markets"@, no_items());
        let b = with_default(a, "external_ids"@, no_entries());
        lemma_normalized_default(a, "external_ids"@, no_entries());
        let c = with_default(b, "linked_from"@, JsonView::Null);
        lemma_normalized_default(b, "linked_from"@, JsonView::Null);
        lemma_normalized_default(c, "popularity"@, zero());
    }
    let e4 = with_show_fields(e3);
    let n4 = with_show_fields(n3);
    assert(normalized_entries(e4) == n4) by {
        lemma_normalized_keys(e3, "media_type"@);
        lemma_normalized_keys(e3, "languages"@);
        lemma_normalized_keys(e3, "description"@);
        lemma_normalized_keys(e3, "name"@);
        let a = with_default(e3, "available_markets"@, no_items());
        lemma_normalized_default(e3, "available_markets"@, no_items());
        lemma_normalized_default(a, "publisher"@, no_text());
    }
    let e5 = with_album_fields(e4);
    let n5 = with_album_fields(n4);
    assert(normalized_entries(e5) == n5) by {
        lemma_normalized_keys(e4, "album_type"@);
        lemma_normalized_keys(e4, "artists"@);
        lemma_normalized_keys(e4, "images"@);
        lemma_normalized_keys(e4, "name"@);
        lemma_normalized_keys(e4, "tracks"@);
        lemma_normalized_default(e4, "available_markets"@, no_items());
        let a = with_default(e4, "available_markets"@, JsonView::Null);
        lemma_normalized_default(e4, "available_markets"@, JsonView::Null);
        let b = with_default(a, "external_ids"@, no_entries());
        lemma_normalized_default(a, "external_ids"@, no_entries());
        let c = with_default(b, "popularity"@, zero());
        lemma_normalized_default(b, "popularity"@, zero());
        lemma_normalized_default(c, "label"@, JsonView::Null);
    }
    let e6 = with_artist_fields(e5);
    assert(normalized_entries(e6) == with_artist_fields(n5)) by {
        lemma_normalized_keys(e5, "type"@);
        lemma_normalized_keys(e5, "external_urls"@);
        lemma_normalized_keys(e5, "name"@);
        lemma_normalized_keys(e5, "id"@);
        lemma_normalized_keys(e5, "genres"@);
        lemma_normalized_keys(e5, "images"@);
        let a = with_default(e5, "href"@, no_text());
        lemma_normalized_default(e5, "href"@, no_text());
        let b = with_default(a, "genres"@, no_items());
        lemma_normalized_default(a, "genres"@, no_items());
        let c = with_default(b, "images"@, no_items());
        lemma_normalized_default(b, "images"@, no_items());
        let d = with_default(c, "followers"@, empty_listing(JsonView::Null));
        lemma_normalized_default(c, "followers"@, empty_listing(JsonView::Null));
        lemma_normalized_default(d, "popularity"@, zero());
    }
}

/// An object that reads as an album has the fields of one.
pub open spec fn album_is_complete(entries: Seq<(Seq<char>, JsonView)>) -> bool {
    has_keys(entries, "album_type"@, "artists"@, "images"@, "name"@) ==> {
        &&& has_key(entries, "available_markets"@)
        &&& has_key(entries, "tracks"@) ==> {
            &&& has_key(entries, "external_ids"@)
            &&& has_key(entries, "popularity"@)
            &&& has_key(entries, "label"@)
        }
    }
}

/// Every object of the value, however deep, has the fields of an album once it is completed, where it
/// then reads as one. It lacks them only where it reads as an album by the images that it is given
/// as an artist.
pub open spec fn settles(value: JsonView) -> bool
    decreases value,
{
    match value {
        JsonView::Array(items) => forall|i: int|
            0 <= i < items.len() ==> settles(#[trigger] items[i]),
        JsonView::Object(entries) => {
            &&& album_is_complete(completed(entries))
            &&& forall|i: int| 0 <= i < entries.len() ==> settles((#[trigger] entries[i]).1)
        },
        _ => true,
    }
}

/// Every object of the value, however deep, that has a kind of album has images.
pub open spec fn albums_have_images(value: JsonView) -> bool
    decreases value,
{
    match value {
        JsonView::Array(items) => forall|i: int|
            0 <= i < items.len() ==> albums_have_images(#[trigger] items[i]),
        JsonView::Object(entries) => {
            &&& has_key(entries, "album_type"@) ==> has_key(entries, "images"@)
            &&& forall|i: int|
                0 <= i < entries.len() ==> albums_have_images((#[trigger] entries[i]).1)
        },
        _ => true,
    }
}

/// A key that objects are given.
#[verifier::opaque]
spec fn is_given_key(key: Seq<char>) -> bool {
    ||| key == "tracks"@
    ||| key == "track"@
    ||| key == "available_markets"@
    ||| key == "external_ids"@
    ||| key == "linked_from"@
    ||| key == "popularity"@
    ||| key == "publisher"@
    ||| key == "label"@
    ||| key == "href"@
    ||| key == "genres"@
    ||| key == "images"@
    ||| key == "followers"@
}

proof fn lemma_given_keys()
    ensures
        is_given_key("tracks"@),
        is_given_key("track"@),
        is_given_key("available_markets"@),
        is_given_key("external_ids"@),
        is_given_key("linked_from"@),
        is_given_key("popularity"@),
        is_given_key("publisher"@),
        is_given_key("label"@),
        is_given_key("href"@),
        is_given_key("genres"@),
        is_given_key("images"@),
        is_given_key("followers"@),
{
    reveal(is_given_key);
}

/// The keys that tell what an object describes are not given.
proof fn lemma_own_keys()
    ensures
        !is_given_key("snapshot_id"@),
        !is_given_key("owner"@),
        !is_given_key("id"@),
        !is_given_key("item"@),
        !is_given_key("added_at"@),
        !is_given_key("album"@),
        !is_given_key("artists"@),
        !is_given_key("track_number"@),
        !is_given_key("duration_ms"@),
        !is_given_key("media_type"@),
        !is_given_key("languages"@),
        !is_given_key("description"@),
        !is_given_key("name"@),
        !is_given_key("album_type"@),
{
    reveal(is_given_key);
    reveal_strlit("tracks");
    reveal_strlit("track");
    reveal_strlit("available_markets");
    reveal_strlit("external_ids");
    reveal_strlit("linked_from");
    reveal_strlit("popularity");
    reveal_strlit("publisher");
    reveal_strlit("label");
    reveal_strlit("href");
    reveal_strlit("genres");
    reveal_strlit("images");
    reveal_strlit("followers");
    reveal_strlit("snapshot_id");
    reveal_strlit("owner");
    reveal_strlit("id");
    reveal_strlit("item");
    reveal_strlit("added_at");
    reveal_strlit("album");
    reveal_strlit("artists");
    reveal_strlit("track_number");
    reveal_strlit("duration_ms");
    reveal_strlit("media_type");
    reveal_strlit("languages");
    reveal_strlit("description");
    reveal_strlit("name");
    reveal_strlit("album_type");
    assert("snapshot_id"@[0] == 's');
    assert("owner"@[0] == 'o');
    assert("id"@.len() == 2);
    assert("item"@.len() == 4 && "item"@[1] == 't');
    assert("added_at"@.len() == 8);
    assert("album"@.len() == 5 && "album"@[0] == 'a');
    assert("artists"@.len() == 7);
    assert("track_number"@.len() == 12 && "track_number"@[0] == 't');
    assert("duration_ms"@[0] == 'd');
    assert("media_type"@[0] == 'm');
    assert("languages"@.len() == 9 && "languages"@[1] == 'a');
    assert("description"@[0] == 'd');
    assert("name"@[0] == 'n');
    assert("album_type"@.len() == 10 && "album_type"@[0] == 'a');
    assert("tracks"@.len() == 6 && "tracks"@[0] == 't');
    assert("track"@.len() == 5 && "track"@[0] == 't');
    assert("available_markets"@.len() == 17 && "available_markets"@[0] == 'a');
    assert("external_ids"@.len() == 12 && "external_ids"@[0] == 'e');
    assert("linked_from"@.len() == 11 && "linked_from"@[0] == 'l');
    assert("popularity"@.len() == 10 && "popularity"@[0] == 'p');
    assert("publisher"@.len() == 9 && "publisher"@[0] == 'p');
    assert("label"@.len() == 5 && "label"@[0] == 'l');
    assert("href"@.len() == 4 && "href"@[0] == 'h');
    assert("genres"@.len() == 6 && "genres"@[0] == 'g');
    assert("images"@.len() == 6 && "images"@[0] == 'i');
    assert("followers"@.len() == 9 && "followers"@[0] == 'f');
}

/// The entries begin with the others, and every further one was given.
#[verifier::opaque]
spec fn only_given(
    entries: Seq<(Seq<char>, JsonView)>,
    others: Seq<(Seq<char>, JsonView)>,
) -> bool {
    &&& others.len() <= entries.len()
    &&& forall|i: int| 0 <= i < others.len() ==> #[trigger] entries[i] == others[i]
    &&& forall|i: int|
        others.len() <= i < entries.len() ==> is_given_key((#[trigger] entries[i]).0)
}

proof fn lemma_nothing_given(entries: Seq<(Seq<char>, JsonView)>)
    ensures
        only_given(entries, entries),
{
    reveal(only_given);
}

proof fn lemma_default_given(
    entries: Seq<(Seq<char>, JsonView)>,
    others: Seq<(Seq<char>, JsonView)>,
    key: Seq<char>,
    value: JsonView,
)
    requires
        only_given(entries, others),
        is_given_key(key),
    ensures
        only_given(with_default(entries, key, value), others),
{
    reveal(only_given);
}

proof fn lemma_given_on_top(
    entries: Seq<(Seq<char>, JsonView)>,
    between: Seq<(Seq<char>, JsonView)>,
    others: Seq<(Seq<char>, JsonView)>,
)
    requires
        only_given(entries, between),
        only_given(between, others),
    ensures
        only_given(entries, others),
{
    reveal(only_given);
    assert forall|i: int| others.len() <= i < entries.len() implies is_given_key(
        (#[trigger] entries[i]).0,
    ) by {
        if i < between.len() {
            assert(entries[i] == between[i]);
        }
    }
    assert forall|i: int| 0 <= i < others.len() implies #[trigger] entries[i] == others[i] by {
        assert(entries[i] == between[i]);
    }
}

/// What is given takes no key away, and adds none that is not given.
proof fn lemma_given_key(
    entries: Seq<(Seq<char>, JsonView)>,
    others: Seq<(Seq<char>, JsonView)>,
    key: Seq<char>,
)
    requires
        only_given(entries, others),
    ensures
        has_key(others, key) ==> has_key(entries, key),
        !is_given_key(key) ==> (has_key(others, key) <==> has_key(entries, key)),
{
    reveal(only_given);
    if has_key(others, key) {
        let i = choose|i: int| 0 <= i < others.len() && #[trigger] others[i].0 == key;
        assert(entries[i].0 == key);
    }
    if has_key(entries, key) && !is_given_key(key) {
        let i = choose|i: int| 0 <= i < entries.len() && #[trigger] entries[i].0 == key;
        assert(entries[i] == others[i]);
    }
}

proof fn lemma_default_held(
    entries: Seq<(Seq<char>, JsonView)>,
    key: Seq<char>,
    value: JsonView,
    other: Seq<char>,
)
    ensures
        has_key(with_default(entries, key, value), key),
        has_key(entries, other) ==> has_key(with_default(entries, key, value), other),
        other != key ==> (has_key(with_default(entries, key, value), other) <==> has_key(
            entries,
            other,
        )),
{
    let all = with_default(entries, key, value);
    if !has_key(entries, key) {
        assert(all[entries.len() as int].0 == key);
        if has_key(entries, other) {
            let i = choose|i: int| 0 <= i < entries.len() && #[trigger] entries[i].0 == other;
            assert(all[i].0 == other);
        }
        if has_key(all, other) && other != key {
            let i = choose|i: int| 0 <= i < all.len() && #[trigger] all[i].0 == other;
            assert(entries[i].0 == other);
        }
    }
}

proof fn lemma_playlist_given(entries: Seq<(Seq<char>, JsonView)>)
    ensures
        only_given(with_playlist_tracks(entries), entries),
        has_key(entries, "snapshot_id"@) && has_key(entries, "owner"@) && has_key(entries, "id"@)
            ==> has_key(with_playlist_tracks(entries), "tracks"@),
{
    lemma_given_keys();
    lemma_nothing_given(entries);
    let tracks = match value_of(entries, "items"@) {
        Some(items) => items,
        None => empty_listing(no_text()),
    };
    lemma_default_given(entries, entries, "tracks"@, tracks);
    lemma_default_held(entries, "tracks"@, tracks, "tracks"@);
}

proof fn lemma_saved_given(entries: Seq<(Seq<char>, JsonView)>)
    ensures
        only_given(with_saved_track(entries), entries),
        has_key(entries, "item"@) && has_key(entries, "added_at"@) ==> has_key(
            with_saved_track(entries),
            "track"@,
        ),
{
    lemma_given_keys();
    lemma_nothing_given(entries);
    match value_of(entries, "item"@) {
        Some(item) => {
            lemma_default_given(entries, entries, "track"@, item);
            lemma_default_held(entries, "track"@, item, "track"@);
        },
        None => {},
    }
}

proof fn lemma_track_given(entries: Seq<(Seq<char>, JsonView)>)
    ensures
        only_given(with_track_fields(entries), entries),
        has_keys(entries, "album"@, "artists"@, "track_number"@, "duration_ms"@) ==> has_keys(
            with_track_fields(entries),
            "available_markets"@,
            "external_ids"@,
            "linked_from"@,
            "popularity"@,
        ),
{
    lemma_given_keys();
    lemma_nothing_given(entries);
    let a = with_default(entries, "available_markets"@, no_items());
    lemma_default_given(entries, entries, "available_markets"@, no_items());
    lemma_default_held(entries, "available_markets"@, no_items(), ""@);
    let b = with_default(a, "external_ids"@, no_entries());
    lemma_default_given(a, entries, "external_ids"@, no_entries());
    lemma_default_held(a, "external_ids"@, no_entries(), "available_markets"@);
    let c = with_default(b, "linked_from"@, JsonView::Null);
    lemma_default_given(b, entries, "linked_from"@, JsonView::Null);
    lemma_default_held(b, "linked_from"@, JsonView::Null, "available_markets"@);
    lemma_default_held(b, "linked_from"@, JsonView::Null, "external_ids"@);
    lemma_default_given(c, entries, "popularity"@, zero());
    lemma_default_held(c, "popularity"@, zero(), "available_markets"@);
    lemma_default_held(c, "popularity"@, zero(), "external_ids"@);
    lemma_default_held(c, "popularity"@, zero(), "linked_from"@);
}

proof fn lemma_show_given(entries: Seq<(Seq<char>, JsonView)>)
    ensures
        only_given(with_show_fields(entries), entries),
        has_keys(entries, "media_type"@, "languages"@, "description"@, "name"@) ==> has_key(
            with_show_fields(entries),
            "available_markets"@,
        ) && has_key(with_show_fields(entries), "publisher"@),
{
    lemma_given_keys();
    lemma_nothing_given(entries);
    let a = with_default(entries, "available_markets"@, no_items());
    lemma_default_given(entries, entries, "available_markets"@, no_items());
    lemma_default_held(entries, "available_markets"@, no_items(), ""@);
    lemma_default_given(a, entries, "publisher"@, no_text());
    lemma_default_held(a, "publisher"@, no_text(), "available_markets"@);
}

proof fn lemma_album_given(entries: Seq<(Seq<char>, JsonView)>)
    ensures
        only_given(with_album_fields(entries), entries),
        has_key(with_album_fields(entries), "tracks"@) <==> has_key(entries, "tracks"@),
        has_keys(entries, "album_type"@, "artists"@, "images"@, "name"@) ==> album_is_complete(
            with_album_fields(entries),
        ),
{
    lemma_given_keys();
    lemma_nothing_given(entries);
    reveal_strlit("tracks");
    reveal_strlit("available_markets");
    reveal_strlit("external_ids");
    reveal_strlit("popularity");
    reveal_strlit("label");
    assert("tracks"@.len() == 6);
    assert("available_markets"@.len() == 17);
    assert("external_ids"@.len() == 12);
    assert("popularity"@.len() == 10);
    assert("label"@.len() == 5);
    lemma_default_given(entries, entries, "available_markets"@, no_items());
    lemma_default_held(entries, "available_markets"@, no_items(), "tracks"@);
    let a = with_default(entries, "available_markets"@, JsonView::Null);
    lemma_default_given(entries, entries, "available_markets"@, JsonView::Null);
    lemma_default_held(entries, "available_markets"@, JsonView::Null, "tracks"@);
    let b = with_default(a, "external_ids"@, no_entries());
    lemma_default_given(a, entries, "external_ids"@, no_entries());
    lemma_default_held(a, "external_ids"@, no_entries(), "tracks"@);
    lemma_default_held(a, "external_ids"@, no_entries(), "available_markets"@);
    let c = with_default(b, "popularity"@, zero());
    lemma_default_given(b, entries, "popularity"@, zero());
    lemma_default_held(b, "popularity"@, zero(), "tracks"@);
    lemma_default_held(b, "popularity"@, zero(), "available_markets"@);
    lemma_default_held(b, "popularity"@, zero(), "external_ids"@);
    lemma_default_given(c, entries, "label"@, JsonView::Null);
    lemma_default_held(c, "label"@, JsonView::Null, "tracks"@);
    lemma_default_held(c, "label"@, JsonView::Null, "available_markets"@);
    lemma_default_held(c, "label"@, JsonView::Null, "external_ids"@);
    lemma_default_held(c, "label"@, JsonView::Null, "popularity"@);
}

proof fn lemma_artist_given(entries: Seq<(Seq<char>, JsonView)>)
    ensures
        only_given(with_artist_fields(entries), entries),
        has_key(with_artist_fields(entries), "tracks"@) <==> has_key(entries, "tracks"@),
        with_artist_fields(with_artist_fields(entries)) == with_artist_fields(entries),
{
    lemma_given_keys();
    lemma_nothing_given(entries);
    reveal_strlit("tracks");
    reveal_strlit("href");
    reveal_strlit("genres");
    reveal_strlit("images");
    reveal_strlit("followers");
    reveal_strlit("popularity");
    assert("tracks"@.len() == 6 && "tracks"@[0] == 't');
    assert("href"@.len() == 4);
    assert("genres"@[0] == 'g');
    assert("images"@[0] == 'i');
    assert("followers"@.len() == 9);
    assert("popularity"@.len() == 10);
    let a = with_default(entries, "href"@, no_text());
    lemma_default_given(entries, entries, "href"@, no_text());
    lemma_default_held(entries, "href"@, no_text(), "tracks"@);
    let b = with_default(a, "genres"@, no_items());
    lemma_default_given(a, entries, "genres"@, no_items());
    lemma_default_held(a, "genres"@, no_items(), "tracks"@);
    lemma_default_held(a, "genres"@, no_items(), "href"@);
    let c = with_default(b, "images"@, no_items());
    lemma_default_given(b, entries, "images"@, no_items());
    lemma_default_held(b, "images"@, no_items(), "tracks"@);
    lemma_default_held(b, "images"@, no_items(), "href"@);
    lemma_default_held(b, "images"@, no_items(), "genres"@);
    let d = with_default(c, "followers"@, empty_listing(JsonView::Null));
    lemma_default_given(c, entries, "followers"@, empty_listing(JsonView::Null));
    lemma_default_held(c, "followers"@, empty_listing(JsonView::Null), "tracks"@);
    lemma_default_held(c, "followers"@, empty_listing(JsonView::Null), "href"@);
    lemma_default_held(c, "followers"@, empty_listing(JsonView::Null), "genres"@);
    lemma_default_held(c, "followers"@, empty_listing(JsonView::Null), "images"@);
    lemma_default_given(d, entries, "popularity"@, zero());
    lemma_default_held(d, "popularity"@, zero(), "tracks"@);
    lemma_default_held(d, "popularity"@, zero(), "href"@);
    lemma_default_held(d, "popularity"@, zero(), "genres"@);
    lemma_default_held(d, "popularity"@, zero(), "images"@);
    lemma_default_held(d, "popularity"@, zero(), "followers"@);
}

/// Completing an object again adds at most the fields of an album.
#[verifier::rlimit(30)]
proof fn lemma_completed_again(entries: Seq<(Seq<char>, JsonView)>)
    ensures
        with_playlist_tracks(completed(entries)) == completed(entries),
        with_saved_track(completed(entries)) == completed(entries),
        with_track_fields(completed(entries)) == completed(entries),
        with_show_fields(completed(entries)) == completed(entries),
        with_artist_fields(completed(entries)) == completed(entries),
        has_key(entries, "album_type"@) && has_key(entries, "images"@) ==> album_is_complete(
            completed(entries),
        ),
        !has_key(entries, "album_type"@) ==> album_is_complete(completed(entries)),
{
    let e1 = with_playlist_tracks(entries);
    let e2 = with_saved_track(e1);
    let e3 = with_track_fields(e2);
    let e4 = with_show_fields(e3);
    let e5 = with_album_fields(e4);
    let e6 = with_artist_fields(e5);
    lemma_own_keys();
    lemma_playlist_given(entries);
    lemma_saved_given(e1);
    lemma_track_given(e2);
    lemma_show_given(e3);
    lemma_album_given(e4);
    lemma_artist_given(e5);
    lemma_given_on_top(e6, e5, e4);
    lemma_given_on_top(e6, e4, e3);
    lemma_given_on_top(e6, e3, e2);
    lemma_given_on_top(e6, e2, e1);
    lemma_given_on_top(e6, e1, entries);
    lemma_given_on_top(e2, e1, entries);
    lemma_given_on_top(e3, e2, entries);
    lemma_given_on_top(e4, e3, entries);
    assert(with_playlist_tracks(e6) == e6) by {
        lemma_given_key(e6, entries, "snapshot_id"@);
        lemma_given_key(e6, entries, "owner"@);
        lemma_given_key(e6, entries, "id"@);
        lemma_given_key(e6, e1, "tracks"@);
    }
    assert(with_saved_track(e6) == e6) by {
        lemma_given_key(e6, e1, "item"@);
        lemma_given_key(e6, e1, "added_at"@);
        lemma_given_key(e6, e2, "track"@);
    }
    assert(with_track_fields(e6) == e6) by {
        lemma_given_key(e6, e2, "album"@);
        lemma_given_key(e6, e2, "artists"@);
        lemma_given_key(e6, e2, "track_number"@);
        lemma_given_key(e6, e2, "duration_ms"@);
        lemma_given_key(e6, e3, "available_markets"@);
        lemma_given_key(e6, e3, "external_ids"@);
        lemma_given_key(e6, e3, "linked_from"@);
        lemma_given_key(e6, e3, "popularity"@);
    }
    assert(with_show_fields(e6) == e6) by {
        lemma_given_key(e6, e3, "media_type"@);
        lemma_given_key(e6, e3, "languages"@);
        lemma_given_key(e6, e3, "description"@);
        lemma_given_key(e6, e3, "name"@);
        lemma_given_key(e6, e4, "available_markets"@);
        lemma_given_key(e6, e4, "publisher"@);
    }
    lemma_given_key(e6, entries, "album_type"@);
    if has_key(entries, "album_type"@) && has_key(entries, "images"@) {
        lemma_given_key(e6, e4, "album_type"@);
        lemma_given_key(e6, e4, "artists"@);
        lemma_given_key(e6, e4, "name"@);
        lemma_given_key(e4, entries, "images"@);
        lemma_given_key(e6, e5, "available_markets"@);
        lemma_given_key(e6, e5, "external_ids"@);
        lemma_given_key(e6, e5, "popularity"@);
        lemma_given_key(e6, e5, "label"@);
        lemma_given_key(e5, e4, "album_type"@);
        lemma_given_key(e5, e4, "artists"@);
        lemma_given_key(e5, e4, "images"@);
        lemma_given_key(e5, e4, "name"@);
    }
}

/// A completed object with the fields of an album, where it reads as one, is not changed when it is
/// completed again.
proof fn lemma_completed_twice(entries: Seq<(Seq<char>, JsonView)>)
    requires
        album_is_complete(completed(entries)),
    ensures
        completed(completed(entries)) == completed(entries),
{
    lemma_completed_again(entries);
    assert(with_album_fields(completed(entries)) == completed(entries));
}

proof fn lemma_all_kept(items: Seq<JsonView>)
    requires
        forall|i: int| 0 <= i < items.len() ==> !(#[trigger] items[i] is Null),
    ensures
        items.filter(not_null()) == items,
    decreases items.len(),
{
    reveal(Seq::filter);
    if items.len() > 0 {
        lemma_all_kept(items.drop_last());
        assert(items.drop_last().push(items.last()) =~= items);
    }
}

proof fn lemma_complete_album_normalized(entries: Seq<(Seq<char>, JsonView)>)
    ensures
        album_is_complete(normalized_entries(entries)) <==> album_is_complete(entries),
{
    lemma_normalized_keys(entries, "album_type"@);
    lemma_normalized_keys(entries, "artists"@);
    lemma_normalized_keys(entries, "images"@);
    lemma_normalized_keys(entries, "name"@);
    lemma_normalized_keys(entries, "available_markets"@);
    lemma_normalized_keys(entries, "tracks"@);
    lemma_normalized_keys(entries, "external_ids"@);
    lemma_normalized_keys(entries, "popularity"@);
    lemma_normalized_keys(entries, "label"@);
}

/// Normalizing a payload again changes nothing, where every object of it settles.
#[verifier::rlimit(30)]
pub proof fn lemma_normalized_twice(value: JsonView)
    requires
        settles(value),
    ensures
        normalized(normalized(value)) == normalized(value),
    decreases value,
{
    match value {
        JsonView::Array(items) => {
            let each = normalized_each(items);
            let kept = each.filter(not_null());
            assert forall|i: int| 0 <= i < kept.len() implies !(#[trigger] kept[i] is Null)
                && normalized(kept[i]) == kept[i] by {
                each.lemma_filter_contains_rev(not_null(), kept[i]);
                let k = choose|k: int| 0 <= k < each.len() && each[k] == kept[i];
                assert(decreases_to!(value => value->Array_0));
                assert(settles(items[k]));
                lemma_normalized_twice(items[k]);
            }
            assert(normalized_each(kept) =~= kept);
            lemma_all_kept(kept);
        },
        JsonView::Object(entries) => {
            let each = normalized_entries(entries);
            assert forall|i: int| 0 <= i < each.len() implies normalized((#[trigger] each[i]).1)
                == each[i].1 by {
                assert(decreases_to!(value => value->Object_0));
                assert(decreases_to!(entries => entries[i]));
                assert(decreases_to!(entries[i] => entries[i].1));
                lemma_normalized_twice(entries[i].1);
            }
            assert(normalized_entries(each) =~= each);
            lemma_completion_commutes(entries);
            lemma_complete_album_normalized(completed(entries));
            lemma_completion_commutes(each);
            lemma_completed_twice(each);
        },
        _ => {},
    }
}

/// An object that stays as it is when it is completed again has the fields of an album, where it
/// reads as one.
proof fn lemma_completed_twice_settles(entries: Seq<(Seq<char>, JsonView)>)
    requires
        completed(completed(entries)) == completed(entries),
    ensures
        album_is_complete(completed(entries)),
{
    let once = completed(entries);
    lemma_completed_again(entries);
    let album = with_album_fields(once);
    lemma_album_given(once);
    lemma_artist_given(album);
    assert(with_artist_fields(album) == once);
    reveal(only_given);
    assert(album =~= once);
}

#[verifier::rlimit(30)]
proof fn lemma_unchanged_entries(entries: Seq<(Seq<char>, JsonView)>)
    requires
        completed(normalized_entries(completed(entries))) == completed(entries),
    ensures
        normalized_entries(entries) == entries,
        album_is_complete(completed(entries)),
{
    let again = normalized_entries(entries);
    lemma_completion_commutes(entries);
    let whole = completed(completed(again));
    assert(whole == completed(entries));
    lemma_completed_keeps_entries(entries);
    lemma_completed_keeps_entries(again);
    lemma_completed_keeps_entries(completed(again));
    assert(again.len() == entries.len());
    assert(whole.take(completed(again).len() as int).take(again.len() as int) =~= whole.take(
        again.len() as int,
    ));
    assert(again == entries);
    lemma_completed_twice_settles(entries);
}

proof fn lemma_unchanged_items(items: Seq<JsonView>)
    requires
        forall|i: int| 0 <= i < items.len() ==> !(#[trigger] items[i] is Null),
        normalized_each(items).filter(not_null()) == items,
    ensures
        normalized_each(items) == items,
{
    let each = normalized_each(items);
    assert forall|i: int| 0 <= i < each.len() implies !(#[trigger] each[i] is Null) by {
        lemma_normalized_null(items[i]);
    }
    lemma_all_kept(each);
}

/// The items of an array that normalizing again does not change are not changed either.
#[verifier::rlimit(30)]
proof fn lemma_unchanged_array(items: Seq<JsonView>, i: int)
    requires
        normalized(normalized(JsonView::Array(items))) == normalized(JsonView::Array(items)),
        0 <= i < items.len(),
    ensures
        normalized(normalized(items[i])) == normalized(items[i]),
{
    let each = normalized_each(items);
    let kept = each.filter(not_null());
    assert forall|k: int| 0 <= k < kept.len() implies !(#[trigger] kept[k] is Null) by {
        each.lemma_filter_contains_rev(not_null(), kept[k]);
    }
    assert(normalized(JsonView::Array(items)) == JsonView::Array(kept));
    assert(normalized(JsonView::Array(kept)) == JsonView::Array(
        normalized_each(kept).filter(not_null()),
    ));
    lemma_unchanged_items(kept);
    lemma_normalized_null(items[i]);
    assert(each[i] == normalized(items[i]));
    if !(items[i] is Null) {
        each.lemma_filter_contains(not_null(), i);
        let k = choose|k: int| 0 <= k < kept.len() && kept[k] == each[i];
        assert(normalized_each(kept)[k] == normalized(kept[k]));
    }
}

/// The values of an object that normalizing again does not change are not changed either, and it has
/// the fields of an album, where it reads as one.
#[verifier::rlimit(30)]
proof fn lemma_unchanged_object(entries: Seq<(Seq<char>, JsonView)>)
    requires
        normalized(normalized(JsonView::Object(entries))) == normalized(JsonView::Object(entries)),
    ensures
        album_is_complete(completed(entries)),
        forall|i: int|
            0 <= i < entries.len() ==> normalized(normalized((#[trigger] entries[i]).1))
                == normalized(entries[i].1),
{
    let each = normalized_entries(entries);
    assert(normalized(JsonView::Object(entries)) == JsonView::Object(completed(each)));
    assert(normalized(JsonView::Object(completed(each))) == JsonView::Object(
        completed(normalized_entries(completed(each))),
    ));
    lemma_unchanged_entries(each);
    assert forall|i: int| 0 <= i < entries.len() implies normalized(
        normalized((#[trigger] entries[i]).1),
    ) == normalized(entries[i].1) by {
        assert(each[i].1 == normalized(entries[i].1));
        assert(normalized_entries(each)[i].1 == normalized(each[i].1));
    }
    lemma_completion_commutes(entries);
    lemma_complete_album_normalized(completed(entries));
}

/// Only a payload that settles is one that normalizing again does not change.
#[verifier::rlimit(30)]
pub proof fn lemma_unchanged_settles(value: JsonView)
    requires
        normalized(normalized(value)) == normalized(value),
    ensures
        settles(value),
    decreases value,
{
    match value {
        JsonView::Array(items) => {
            assert forall|i: int| 0 <= i < items.len() implies settles(#[trigger] items[i]) by {
                lemma_unchanged_array(items, i);
                assert(decreases_to!(value => value->Array_0));
                lemma_unchanged_settles(items[i]);
            }
        },
        JsonView::Object(entries) => {
            lemma_unchanged_object(entries);
            assert forall|i: int| 0 <= i < entries.len() implies settles(
                (#[trigger] entries[i]).1,
            ) by {
                assert(decreases_to!(value => value->Object_0));
                assert(decreases_to!(entries => entries[i]));
                assert(decreases_to!(entries[i] => entries[i].1));
                lemma_unchanged_settles(entries[i].1);
            }
        },
        _ => {},
    }
}

/// A payload in which every object with a kind of album has images settles, so that normalizing it
/// again changes nothing.
#[verifier::rlimit(30)]
pub proof fn lemma_albums_with_images_settle(value: JsonView)
    requires
        albums_have_images(value),
    ensures
        settles(value),
        normalized(normalized(value)) == normalized(value),
    decreases value,
{
    match value {
        JsonView::Array(items) => {
            assert forall|i: int| 0 <= i < items.len() implies settles(#[trigger] items[i]) by {
                assert(decreases_to!(value => value->Array_0));
                lemma_albums_with_images_settle(items[i]);
            }
        },
        JsonView::Object(entries) => {
            assert forall|i: int| 0 <= i < entries.len() implies settles(
                (#[trigger] entries[i]).1,
            ) by {
                assert(decreases_to!(value => value->Object_0));
                assert(decreases_to!(entries => entries[i]));
                assert(decreases_to!(entries[i] => entries[i].1));
                lemma_albums_with_images_settle(entries[i].1);
            }
            lemma_completed_again(entries);
        },
        _ => {},
    }
    lemma_normalized_twice(value);
}

/// An empty reference as a value.
fn empty_listing_json(link: Json) -> (json: Json)
    ensures
        json.deep_view() == empty_listing(link.deep_view()),
{
    let mut entries: Vec<(String, Json)> = Vec::new();
    entries.push(("href".to_owned(), link));
    entries.push(("total".to_owned(), number_json(0)));
    let json = object_json(entries);
    assert(entry_views(entries@) =~= seq![("href"@, link.deep_view()), ("total"@, zero())]);
    json
}

fn no_items_json() -> (json: Json)
    ensures
        json.deep_view() == no_items(),
{
    let json = array_json(Vec::new());
    assert(json.deep_view()->Array_0 =~= seq![]);
    json
}

fn no_entries_json() -> (json: Json)
    ensures
        json.deep_view() == no_entries(),
{
    let json = object_json(Vec::new());
    assert(json.deep_view()->Object_0 =~= seq![]);
    json
}

fn no_text_json() -> (json: Json)
    ensures
        json.deep_view() == no_text(),
{
    Json::Text(String::new())
}

/// The value that an object holds for a key, once more.
fn copy_of(entries: &Vec<(String, Json)>, key: &str) -> (value: Option<Json>)
    ensures
        value.deep_view() == value_of(entry_views(entries@), key@),
{
    match find_key(entries, key) {
        Some(i) => Some(entries[i].1.clone()),
        None => None,
    }
}

fn contains_keys(entries: &Vec<(String, Json)>, a: &str, b: &str, c: &str, d: &str) -> (found: bool)
    ensures
        found == has_keys(entry_views(entries@), a@, b@, c@, d@),
{
    contains_key(entries, a) && contains_key(entries, b) && contains_key(entries, c)
        && contains_key(entries, d)
}

fn is_artist(entries: &Vec<(String, Json)>) -> (artist: bool)
    ensures
        artist == looks_like_artist(entry_views(entries@)),
{
    let says_so = match find_key(entries, "type") {
        Some(i) => match &entries[i].1 {
            Json::Text(kind) => text_is(kind.as_str(), "artist"),
            Json::Array(_) => false,
            Json::Object(_) => false,
            _ => false,
        },
        None => false,
    };
    says_so || (contains_key(entries, "external_urls") && contains_key(entries, "name")
        && contains_key(entries, "id") && (contains_key(entries, "genres") || contains_key(
        entries,
        "images",
    )))
}

/// Adds the fields to an object that its readers count on.
fn complete(entries: &mut Vec<(String, Json)>)
    ensures
        entry_views(final(entries)@) == completed(entry_views(old(entries)@)),
{
    if contains_key(entries, "snapshot_id") && contains_key(entries, "owner") && contains_key(
        entries,
        "id",
    ) {
        let tracks = match copy_of(entries, "items") {
            Some(items) => items,
            None => empty_listing_json(no_text_json()),
        };
        insert_default(entries, "tracks", tracks);
    }
    if contains_key(entries, "added_at") {
        if let Some(item) = copy_of(entries, "item") {
            insert_default(entries, "track", item);
        }
    }
    if contains_keys(entries, "album", "artists", "track_number", "duration_ms") {
        insert_default(entries, "available_markets", no_items_json());
        insert_default(entries, "external_ids", no_entries_json());
        insert_default(entries, "linked_from", Json::Null);
        insert_default(entries, "popularity", number_json(0));
    }
    if contains_keys(entries, "media_type", "languages", "description", "name") {
        insert_default(entries, "available_markets", no_items_json());
        insert_default(entries, "publisher", no_text_json());
    }
    if contains_keys(entries, "album_type", "artists", "images", "name") {
        if contains_key(entries, "tracks") {
            insert_default(entries, "available_markets", Json::Null);
            insert_default(entries, "external_ids", no_entries_json());
            insert_default(entries, "popularity", number_json(0));
            insert_default(entries, "label", Json::Null);
        } else {
            insert_default(entries, "available_markets", no_items_json());
        }
    }
    if is_artist(entries) {
        insert_default(entries, "href", no_text_json());
        insert_default(entries, "genres", no_items_json());
        insert_default(entries, "images", no_items_json());
        insert_default(entries, "followers", empty_listing_json(Json::Null));
        insert_default(entries, "popularity", number_json(0));
    }
}

/// Puts a payload in the form that its readers count on.
pub fn normalize_spotify_payload(value: &mut Json)
    ensures
        final(value).deep_view() == normalized(old(value).deep_view()),
    decreases *old(value),
{
    let ghost whole = *value;
    proof {
        lemma_json_view(whole);
    }
    match value {
        Json::Object(entries) => {
            let ghost before = entries@;
            let mut i: usize = 0;
            while i < entries.len()
                invariant
                    whole == *old(value),
                    whole matches Json::Object(all) && all@ == before,
                    entries@.len() == before.len(),
                    i <= before.len(),
                    forall|k: int| i <= k < before.len() ==> entries@[k] == before[k],
                    forall|k: int|
                        0 <= k < i ==> (#[trigger] entries@[k]).0 == before[k].0
                            && entries@[k].1.deep_view() == normalized(before[k].1.deep_view()),
                decreases before.len() - i,
            {
                assert(decreases_to!(whole => whole->Object_0));
                assert(decreases_to!(whole->Object_0 => whole->Object_0[i as int]));
                assert(decreases_to!(before[i as int] => before[i as int].1));
                normalize_spotify_payload(&mut entries[i].1);
                i += 1;
            }
            assert(entry_views(entries@) =~= normalized_entries(entry_views(before)));
            complete(entries);
        },
        Json::Array(items) => {
            let ghost before = item_views(items@);
            let ghost each = normalized_each(before);
            let ghost all = items@;
            let mut i: usize = 0;
            let ghost mut seen: int = 0;
            assert(each.take(0).filter(not_null()) =~= seq![]) by {
                reveal(Seq::filter);
            }
            while i < items.len()
                invariant
                    whole == *old(value),
                    whole matches Json::Array(every) && every@ == all,
                    before == item_views(all),
                    each == normalized_each(before),
                    0 <= i <= items@.len(),
                    0 <= seen <= all.len(),
                    items@.len() - i == all.len() - seen,
                    forall|k: int|
                        i <= k < items@.len() ==> #[trigger] items@[k] == all[seen + k - i],
                    item_views(items@).take(i as int) == each.take(seen).filter(not_null()),
                decreases items@.len() - i,
            {
                let ghost now = items@;
                assert(items@[i as int] == all[seen]);
                assert(each.take(seen + 1).drop_last() == each.take(seen));
                proof {
                    reveal(Seq::filter);
                    lemma_normalized_null(before[seen]);
                }
                let null = match &items[i] {
                    Json::Null => true,
                    _ => false,
                };
                if null {
                    items.remove(i);
                    assert(item_views(items@).take(i as int) =~= item_views(now).take(i as int));
                } else {
                    assert(decreases_to!(whole => whole->Array_0));
                    assert(decreases_to!(whole->Array_0 => whole->Array_0[seen]));
                    normalize_spotify_payload(&mut items[i]);
                    assert(item_views(items@).take(i + 1) =~= item_views(now).take(i as int).push(
                        each[seen],
                    ));
                    i += 1;
                }
                proof {
                    seen = seen + 1;
                }
            }
            assert(each.take(seen) == each);
            assert(item_views(items@).take(i as int) =~= item_views(items@));
        },
        _ => {},
    }
    proof {
        lemma_json_view(*value);
    }
}

/// An object that describes a playlist: it has an owner, an id and the id of a version.
pub open spec fn describes_playlist(entries: Seq<(Seq<char>, JsonView)>) -> bool {
    has_key(entries, "id"@) && has_key(entries, "owner"@) && has_key(entries, "snapshot_id"@)
}

/// An object that describes something saved or listed: it says what it is, and when it was added.
pub open spec fn describes_listing(entries: Seq<(Seq<char>, JsonView)>) -> bool {
    has_key(entries, "added_at"@) && has_key(entries, "item"@)
}

/// An object that describes a track: it has an album, artists, a length and a place on the album.
pub open spec fn describes_track(entries: Seq<(Seq<char>, JsonView)>) -> bool {
    &&& has_key(entries, "album"@)
    &&& has_key(entries, "artists"@)
    &&& has_key(entries, "duration_ms"@)
    &&& has_key(entries, "track_number"@)
}

/// An object that describes a show: it has a name, a description, languages and a kind of medium.
pub open spec fn describes_show(entries: Seq<(Seq<char>, JsonView)>) -> bool {
    &&& has_key(entries, "description"@)
    &&& has_key(entries, "languages"@)
    &&& has_key(entries, "media_type"@)
    &&& has_key(entries, "name"@)
}

/// An object that describes an album: it has a name, artists, images and a kind of album.
pub open spec fn describes_album(entries: Seq<(Seq<char>, JsonView)>) -> bool {
    &&& has_key(entries, "album_type"@)
    &&& has_key(entries, "artists"@)
    &&& has_key(entries, "images"@)
    &&& has_key(entries, "name"@)
}

/// An object that describes an album and lists its tracks.
pub open spec fn describes_full_album(entries: Seq<(Seq<char>, JsonView)>) -> bool {
    describes_album(entries) && (has_key(entries, "tracks"@) || describes_playlist(entries))
}

/// An object that describes an artist: it says so, or has an id, a name, links, and genres or images.
pub open spec fn describes_artist(entries: Seq<(Seq<char>, JsonView)>) -> bool {
    ||| value_of(entries, "type"@) == Some(JsonView::Text("artist"@))
    ||| {
        &&& has_key(entries, "id"@)
        &&& has_key(entries, "name"@)
        &&& has_key(entries, "external_urls"@)
        &&& has_key(entries, "genres"@) || has_key(entries, "images"@)
    }
}

proof fn lemma_default_value(
    entries: Seq<(Seq<char>, JsonView)>,
    key: Seq<char>,
    value: JsonView,
    other: Seq<char>,
)
    ensures
        value_of(with_default(entries, key, value), other) == (if has_key(entries, other) {
            value_of(entries, other)
        } else if other == key {
            Some(value)
        } else {
            None
        }),
{
    let all = with_default(entries, key, value);
    lemma_default_held(entries, key, value, other);
    lemma_key_index(entries, other);
    lemma_key_index(all, other);
    if has_key(entries, other) {
        let i = key_index(entries, other);
        assert(all[i] == entries[i]);
        let k = key_index(all, other);
        if k < i {
            assert(all[k] == entries[k]);
        }
    } else if other == key {
        let k = key_index(all, other);
        if k < entries.len() {
            assert(entries[k].0 == other);
        }
    }
}

proof fn lemma_track_value(entries: Seq<(Seq<char>, JsonView)>, key: Seq<char>)
    ensures
        value_of(with_track_fields(entries), key) == (if has_key(entries, key) || !describes_track(
            entries,
        ) {
            value_of(entries, key)
        } else if key == "available_markets"@ {
            Some(no_items())
        } else if key == "external_ids"@ {
            Some(no_entries())
        } else if key == "linked_from"@ {
            Some(JsonView::Null)
        } else if key == "popularity"@ {
            Some(zero())
        } else {
            None
        }),
{
    let a = with_default(entries, "available_markets"@, no_items());
    let b = with_default(a, "external_ids"@, no_entries());
    let c = with_default(b, "linked_from"@, JsonView::Null);
    lemma_default_value(entries, "available_markets"@, no_items(), key);
    lemma_default_value(a, "external_ids"@, no_entries(), key);
    lemma_default_value(b, "linked_from"@, JsonView::Null, key);
    lemma_default_value(c, "popularity"@, zero(), key);
}

proof fn lemma_show_value(entries: Seq<(Seq<char>, JsonView)>, key: Seq<char>)
    ensures
        value_of(with_show_fields(entries), key) == (if has_key(entries, key) || !describes_show(
            entries,
        ) {
            value_of(entries, key)
        } else if key == "available_markets"@ {
            Some(no_items())
        } else if key == "publisher"@ {
            Some(no_text())
        } else {
            None
        }),
{
    let a = with_default(entries, "available_markets"@, no_items());
    lemma_default_value(entries, "available_markets"@, no_items(), key);
    lemma_default_value(a, "publisher"@, no_text(), key);
}

proof fn lemma_album_value(entries: Seq<(Seq<char>, JsonView)>, key: Seq<char>)
    ensures
        value_of(with_album_fields(entries), key) == (if has_key(entries, key) || !describes_album(
            entries,
        ) {
            value_of(entries, key)
        } else if !has_key(entries, "tracks"@) {
            if key == "available_markets"@ {
                Some(no_items())
            } else {
                None
            }
        } else if key == "available_markets"@ {
            Some(JsonView::Null)
        } else if key == "external_ids"@ {
            Some(no_entries())
        } else if key == "popularity"@ {
            Some(zero())
        } else if key == "label"@ {
            Some(JsonView::Null)
        } else {
            None
        }),
{
    lemma_default_value(entries, "available_markets"@, no_items(), key);
    let a = with_default(entries, "available_markets"@, JsonView::Null);
    let b = with_default(a, "external_ids"@, no_entries());
    let c = with_default(b, "popularity"@, zero());
    lemma_default_value(entries, "available_markets"@, JsonView::Null, key);
    lemma_default_value(a, "external_ids"@, no_entries(), key);
    lemma_default_value(b, "popularity"@, zero(), key);
    lemma_default_value(c, "label"@, JsonView::Null, key);
}

proof fn lemma_artist_value(entries: Seq<(Seq<char>, JsonView)>, key: Seq<char>)
    ensures
        value_of(with_artist_fields(entries), key) == (if has_key(entries, key)
            || !describes_artist(entries) {
            value_of(entries, key)
        } else if key == "href"@ {
            Some(no_text())
        } else if key == "genres"@ {
            Some(no_items())
        } else if key == "images"@ {
            Some(no_items())
        } else if key == "followers"@ {
            Some(empty_listing(JsonView::Null))
        } else if key == "popularity"@ {
            Some(zero())
        } else {
            None
        }),
{
    let a = with_default(entries, "href"@, no_text());
    let b = with_default(a, "genres"@, no_items());
    let c = with_default(b, "images"@, no_items());
    let d = with_default(c, "followers"@, empty_listing(JsonView::Null));
    lemma_default_value(entries, "href"@, no_text(), key);
    lemma_default_value(a, "genres"@, no_items(), key);
    lemma_default_value(b, "images"@, no_items(), key);
    lemma_default_value(c, "followers"@, empty_listing(JsonView::Null), key);
    lemma_default_value(d, "popularity"@, zero(), key);
}

/// What the first two steps of a completion add: `tracks` and `track`.
proof fn lemma_first_values(entries: Seq<(Seq<char>, JsonView)>, key: Seq<char>)
    ensures
        value_of(with_saved_track(with_playlist_tracks(entries)), key) == (if has_key(entries, key) {
            value_of(entries, key)
        } else if describes_playlist(entries) && key == "tracks"@ {
            if has_key(entries, "items"@) {
                value_of(entries, "items"@)
            } else {
                Some(empty_listing(no_text()))
            }
        } else if describes_listing(entries) && key == "track"@ {
            value_of(entries, "item"@)
        } else {
            None
        }),
{
    let tracks = match value_of(entries, "items"@) {
        Some(items) => items,
        None => empty_listing(no_text()),
    };
    let e1 = with_playlist_tracks(entries);
    lemma_default_value(entries, "tracks"@, tracks, key);
    lemma_playlist_given(entries);
    lemma_own_keys();
    lemma_given_key(e1, entries, "item"@);
    lemma_given_key(e1, entries, "added_at"@);
    if has_key(entries, "item"@) {
        reveal_strlit("item");
        reveal_strlit("tracks");
        assert("item"@.len() != "tracks"@.len());
        lemma_default_value(entries, "tracks"@, tracks, "item"@);
    }
    match value_of(e1, "item"@) {
        Some(item) => lemma_default_value(e1, "track"@, item, key),
        None => {},
    }
}

proof fn lemma_given_keys_differ()
    ensures
        "tracks"@.len() == 6 && "tracks"@[0] == 't',
        "track"@.len() == 5 && "track"@[0] == 't',
        "available_markets"@.len() == 17,
        "external_ids"@.len() == 12,
        "linked_from"@.len() == 11,
        "popularity"@.len() == 10,
        "publisher"@.len() == 9 && "publisher"@[0] == 'p',
        "label"@.len() == 5 && "label"@[0] == 'l',
        "href"@.len() == 4 && "href"@[0] == 'h',
        "genres"@.len() == 6 && "genres"@[0] == 'g',
        "images"@.len() == 6 && "images"@[0] == 'i',
        "followers"@.len() == 9 && "followers"@[0] == 'f',
        "type"@.len() == 4 && "type"@[0] == 't',
        "external_urls"@.len() == 13,
        "items"@.len() == 5 && "items"@[0] == 'i',
{
    reveal_strlit("tracks");
    reveal_strlit("track");
    reveal_strlit("available_markets");
    reveal_strlit("external_ids");
    reveal_strlit("linked_from");
    reveal_strlit("popularity");
    reveal_strlit("publisher");
    reveal_strlit("label");
    reveal_strlit("href");
    reveal_strlit("genres");
    reveal_strlit("images");
    reveal_strlit("followers");
    reveal_strlit("type");
    reveal_strlit("external_urls");
    reveal_strlit("items");
}

proof fn lemma_kind_kept(
    entries: Seq<(Seq<char>, JsonView)>,
    all: Seq<(Seq<char>, JsonView)>,
)
    requires
        only_given(all, entries),
    ensures
        describes_playlist(all) == describes_playlist(entries),
        describes_listing(all) == describes_listing(entries),
        describes_track(all) == describes_track(entries),
        describes_show(all) == describes_show(entries),
        has_key(all, "images"@) == has_key(entries, "images"@) ==> describes_album(all)
            == describes_album(entries),
{
    lemma_own_keys();
    lemma_given_key(all, entries, "snapshot_id"@);
    lemma_given_key(all, entries, "owner"@);
    lemma_given_key(all, entries, "id"@);
    lemma_given_key(all, entries, "item"@);
    lemma_given_key(all, entries, "added_at"@);
    lemma_given_key(all, entries, "album"@);
    lemma_given_key(all, entries, "artists"@);
    lemma_given_key(all, entries, "track_number"@);
    lemma_given_key(all, entries, "duration_ms"@);
    lemma_given_key(all, entries, "media_type"@);
    lemma_given_key(all, entries, "languages"@);
    lemma_given_key(all, entries, "description"@);
    lemma_given_key(all, entries, "name"@);
    lemma_given_key(all, entries, "album_type"@);
}

/// What a completed object holds for a key.
#[verifier::rlimit(30)]
proof fn lemma_completed_value(entries: Seq<(Seq<char>, JsonView)>, key: Seq<char>)
    ensures
        value_of(completed(entries), key) == (if has_key(entries, key) {
            value_of(entries, key)
        } else if key == "tracks"@ {
            if !describes_playlist(entries) {
                None
            } else if has_key(entries, "items"@) {
                value_of(entries, "items"@)
            } else {
                Some(empty_listing(no_text()))
            }
        } else if key == "track"@ {
            if describes_listing(entries) {
                value_of(entries, "item"@)
            } else {
                None
            }
        } else if key == "available_markets"@ {
            if describes_track(entries) || describes_show(entries) {
                Some(no_items())
            } else if describes_full_album(entries) {
                Some(JsonView::Null)
            } else if describes_album(entries) {
                Some(no_items())
            } else {
                None
            }
        } else if key == "external_ids"@ && (describes_track(entries) || describes_full_album(
            entries,
        )) {
            Some(no_entries())
        } else if key == "linked_from"@ && describes_track(entries) {
            Some(JsonView::Null)
        } else if key == "popularity"@ && (describes_track(entries) || describes_full_album(
            entries,
        ) || describes_artist(entries)) {
            Some(zero())
        } else if key == "publisher"@ && describes_show(entries) {
            Some(no_text())
        } else if key == "label"@ && describes_full_album(entries) {
            Some(JsonView::Null)
        } else if key == "href"@ && describes_artist(entries) {
            Some(no_text())
        } else if (key == "genres"@ || key == "images"@) && describes_artist(entries) {
            Some(no_items())
        } else if key == "followers"@ && describes_artist(entries) {
            Some(empty_listing(JsonView::Null))
        } else {
            None
        }),
{
    let e1 = with_playlist_tracks(entries);
    let e2 = with_saved_track(e1);
    let e3 = with_track_fields(e2);
    let e4 = with_show_fields(e3);
    let e5 = with_album_fields(e4);
    lemma_given_keys_differ();
    lemma_playlist_given(entries);
    lemma_saved_given(e1);
    lemma_track_given(e2);
    lemma_show_given(e3);
    lemma_album_given(e4);
    lemma_given_on_top(e2, e1, entries);
    lemma_given_on_top(e3, e2, entries);
    lemma_given_on_top(e4, e3, entries);
    lemma_given_on_top(e5, e4, entries);
    lemma_stage_values(entries, "images"@);
    lemma_stage_values(entries, "genres"@);
    lemma_stage_values(entries, "tracks"@);
    lemma_stage_values(entries, "type"@);
    lemma_stage_values(entries, "external_urls"@);
    lemma_stage_values(entries, key);
    lemma_kind_kept(entries, e4);
    lemma_kind_kept(entries, e5);
    lemma_own_keys();
    lemma_given_key(e5, entries, "name"@);
    lemma_given_key(e5, entries, "id"@);
    lemma_album_value(e4, "images"@);
    lemma_album_value(e4, "genres"@);
    lemma_album_value(e4, "type"@);
    lemma_album_value(e4, "external_urls"@);
    lemma_album_value(e4, key);
    assert(describes_artist(e5) == describes_artist(entries));
    lemma_artist_value(e5, key);
}

/// What the first four steps of a completion add.
#[verifier::rlimit(30)]
proof fn lemma_stage_values(entries: Seq<(Seq<char>, JsonView)>, key: Seq<char>)
    ensures
        value_of(
            with_show_fields(with_track_fields(with_saved_track(with_playlist_tracks(entries)))),
            key,
        ) == (if has_key(entries, key) {
            value_of(entries, key)
        } else if describes_playlist(entries) && key == "tracks"@ {
            if has_key(entries, "items"@) {
                value_of(entries, "items"@)
            } else {
                Some(empty_listing(no_text()))
            }
        } else if describes_listing(entries) && key == "track"@ {
            value_of(entries, "item"@)
        } else if describes_track(entries) && key == "available_markets"@ {
            Some(no_items())
        } else if describes_track(entries) && key == "external_ids"@ {
            Some(no_entries())
        } else if describes_track(entries) && key == "linked_from"@ {
            Some(JsonView::Null)
        } else if describes_track(entries) && key == "popularity"@ {
            Some(zero())
        } else if describes_show(entries) && key == "available_markets"@ {
            Some(no_items())
        } else if describes_show(entries) && key == "publisher"@ {
            Some(no_text())
        } else {
            None
        }),
{
    let e1 = with_playlist_tracks(entries);
    let e2 = with_saved_track(e1);
    let e3 = with_track_fields(e2);
    lemma_playlist_given(entries);
    lemma_saved_given(e1);
    lemma_track_given(e2);
    lemma_given_on_top(e2, e1, entries);
    lemma_given_on_top(e3, e2, entries);
    lemma_kind_kept(entries, e2);
    lemma_kind_kept(entries, e3);
    lemma_first_values(entries, key);
    lemma_track_value(e2, key);
    lemma_show_value(e3, key);
}

/// What a normalized object holds for a key: what the completed object holds, normalized.
proof fn lemma_normalized_value(entries: Seq<(Seq<char>, JsonView)>, key: Seq<char>)
    ensures
        value_of(normalized(JsonView::Object(entries))->Object_0, key) == (match value_of(
            completed(entries),
            key,
        ) {
            Some(value) => Some(normalized(value)),
            None => None,
        }),
{
    lemma_completion_commutes(entries);
    lemma_normalized_keys(completed(entries), key);
    assert(normalized(JsonView::Object(entries)) == JsonView::Object(
        completed(normalized_entries(entries)),
    ));
}

/// What an object holds it keeps, normalized; and it gets no key but those that belong to what it
/// describes.
pub proof fn lemma_normalized_object(entries: Seq<(Seq<char>, JsonView)>, key: Seq<char>)
    ensures
        normalized(JsonView::Object(entries)) is Object,
        ({
            let all = normalized(JsonView::Object(entries))->Object_0;
            &&& value_of(entries, key) matches Some(value) ==> value_of(all, key) == Some(
                normalized(value),
            )
            &&& has_key(all, key) && !has_key(entries, key) ==> {
                ||| key == "tracks"@ && describes_playlist(entries)
                ||| key == "track"@ && describes_listing(entries)
                ||| describes_track(entries) && (key == "available_markets"@ || key
                    == "external_ids"@ || key == "linked_from"@ || key == "popularity"@)
                ||| describes_show(entries) && (key == "available_markets"@ || key == "publisher"@)
                ||| describes_album(entries) && key == "available_markets"@
                ||| describes_full_album(entries) && (key == "external_ids"@ || key
                    == "popularity"@ || key == "label"@)
                ||| describes_artist(entries) && (key == "href"@ || key == "genres"@ || key
                    == "images"@ || key == "followers"@ || key == "popularity"@)
            }
        }),
{
    lemma_completed_value(entries, key);
    lemma_normalized_value(entries, key);
}

/// A playlist without `tracks` gets its `items` for them, whatever kind of value they are; one
/// without either gets a reference to none. No other object gets any.
pub proof fn lemma_playlist_gets_items_as_tracks(entries: Seq<(Seq<char>, JsonView)>)
    requires
        !has_key(entries, "tracks"@),
    ensures
        ({
            let all = normalized(JsonView::Object(entries))->Object_0;
            &&& describes_playlist(entries) && has_key(entries, "items"@) ==> {
                &&& has_key(all, "tracks"@)
                &&& value_of(all, "tracks"@) == value_of(all, "items"@)
            }
            &&& describes_playlist(entries) && !has_key(entries, "items"@) ==> value_of(
                all,
                "tracks"@,
            ) == Some(
                JsonView::Object(
                    seq![
                        ("href"@, JsonView::Text(seq![])),
                        ("total"@, JsonView::Number(number_of(0))),
                    ],
                ),
            )
            &&& !describes_playlist(entries) ==> !has_key(all, "tracks"@)
        }),
{
    lemma_completed_value(entries, "tracks"@);
    lemma_completed_value(entries, "items"@);
    lemma_normalized_value(entries, "tracks"@);
    lemma_normalized_value(entries, "items"@);
    lemma_normalized_defaults();
}

/// Something saved or listed without a `track` gets its `item` for it, and no other object gets one.
pub proof fn lemma_listing_gets_item_as_track(entries: Seq<(Seq<char>, JsonView)>)
    requires
        !has_key(entries, "track"@),
    ensures
        ({
            let all = normalized(JsonView::Object(entries))->Object_0;
            &&& describes_listing(entries) ==> has_key(all, "track"@) && value_of(all, "track"@)
                == value_of(all, "item"@)
            &&& !describes_listing(entries) ==> !has_key(all, "track"@)
        }),
{
    lemma_given_keys_differ();
    lemma_completed_value(entries, "track"@);
    lemma_completed_value(entries, "item"@);
    lemma_normalized_value(entries, "track"@);
    lemma_normalized_value(entries, "item"@);
}

/// Tracks, shows and albums have their markets: a list of none, or nothing for an album with its
/// tracks that is not also a track or a show.
pub proof fn lemma_markets_are_there(entries: Seq<(Seq<char>, JsonView)>)
    requires
        !has_key(entries, "available_markets"@),
    ensures
        ({
            let all = normalized(JsonView::Object(entries))->Object_0;
            let markets = value_of(all, "available_markets"@);
            &&& describes_track(entries) ==> markets == Some(JsonView::Array(seq![]))
            &&& describes_show(entries) ==> markets == Some(JsonView::Array(seq![]))
            &&& describes_album(entries) && !describes_full_album(entries) ==> markets == Some(
                JsonView::Array(seq![]),
            )
            &&& describes_full_album(entries) && !describes_track(entries) && !describes_show(
                entries,
            ) ==> markets == Some(JsonView::Null)
        }),
{
    lemma_given_keys_differ();
    lemma_completed_value(entries, "available_markets"@);
    lemma_normalized_value(entries, "available_markets"@);
    lemma_normalized_defaults();
}

/// Tracks have outside ids, a link and a popularity; albums with their tracks have outside ids, a
/// popularity and a label; shows have a publisher; artists have a link, genres, images, followers and
/// a popularity. What they lack of these is empty.
#[verifier::rlimit(30)]
pub proof fn lemma_fields_are_there(entries: Seq<(Seq<char>, JsonView)>)
    ensures
        ({
            let all = normalized(JsonView::Object(entries))->Object_0;
            &&& describes_track(entries) || describes_full_album(entries) ==> {
                &&& !has_key(entries, "external_ids"@) ==> value_of(all, "external_ids"@) == Some(
                    JsonView::Object(seq![]),
                )
                &&& !has_key(entries, "popularity"@) ==> value_of(all, "popularity"@) == Some(
                    JsonView::Number(number_of(0)),
                )
            }
            &&& describes_track(entries) && !has_key(entries, "linked_from"@) ==> value_of(
                all,
                "linked_from"@,
            ) == Some(JsonView::Null)
            &&& describes_full_album(entries) && !has_key(entries, "label"@) ==> value_of(
                all,
                "label"@,
            ) == Some(JsonView::Null)
            &&& describes_show(entries) && !has_key(entries, "publisher"@) ==> value_of(
                all,
                "publisher"@,
            ) == Some(JsonView::Text(seq![]))
            &&& describes_artist(entries) ==> {
                &&& !has_key(entries, "href"@) ==> value_of(all, "href"@) == Some(
                    JsonView::Text(seq![]),
                )
                &&& !has_key(entries, "genres"@) ==> value_of(all, "genres"@) == Some(
                    JsonView::Array(seq![]),
                )
                &&& !has_key(entries, "images"@) ==> value_of(all, "images"@) == Some(
                    JsonView::Array(seq![]),
                )
                &&& !has_key(entries, "followers"@) ==> value_of(all, "followers"@) == Some(
                    JsonView::Object(
                        seq![
                            ("href"@, JsonView::Null),
                            ("total"@, JsonView::Number(number_of(0))),
                        ],
                    ),
                )
                &&& !has_key(entries, "popularity"@) ==> value_of(all, "popularity"@) == Some(
                    JsonView::Number(number_of(0)),
                )
            }
        }),
{
    lemma_normalized_defaults();
    lemma_given_keys_differ();
    lemma_completed_value(entries, "external_ids"@);
    lemma_normalized_value(entries, "external_ids"@);
    lemma_completed_value(entries, "popularity"@);
    lemma_normalized_value(entries, "popularity"@);
    lemma_completed_value(entries, "linked_from"@);
    lemma_normalized_value(entries, "linked_from"@);
    lemma_completed_value(entries, "label"@);
    lemma_normalized_value(entries, "label"@);
    lemma_completed_value(entries, "publisher"@);
    lemma_normalized_value(entries, "publisher"@);
    lemma_completed_value(entries, "href"@);
    lemma_normalized_value(entries, "href"@);
    lemma_completed_value(entries, "genres"@);
    lemma_normalized_value(entries, "genres"@);
    lemma_completed_value(entries, "images"@);
    lemma_normalized_value(entries, "images"@);
    lemma_completed_value(entries, "followers"@);
    lemma_normalized_value(entries, "followers"@);
}

/// An array is normalized item by item: two arrays one behind the other as each of them, and an array
/// of one item to that item normalized, or to none where the item is `null`. Anything that is no
/// array and no object stays as it is.
#[verifier::rlimit(30)]
pub proof fn lemma_arrays_item_by_item(left: Seq<JsonView>, right: Seq<JsonView>, item: JsonView)
    ensures
        normalized(JsonView::Array(left + right)) == JsonView::Array(
            normalized(JsonView::Array(left))->Array_0 + normalized(JsonView::Array(right))->Array_0,
        ),
        normalized(JsonView::Array(seq![])) == JsonView::Array(seq![]),
        normalized(JsonView::Array(seq![item])) == JsonView::Array(
            if item is Null {
                seq![]
            } else {
                seq![normalized(item)]
            },
        ),
        !(item is Array) && !(item is Object) ==> normalized(item) == item,
{
    lemma_filter_halves(normalized_each(left), normalized_each(right));
    assert(normalized_each(left + right) =~= normalized_each(left) + normalized_each(right));
    reveal(Seq::filter);
    assert(normalized_each(seq![]) =~= seq![]);
    assert(normalized(JsonView::Array(seq![])) == JsonView::Array(seq![]));
    lemma_normalized_null(item);
    assert(normalized_each(seq![item]) =~= seq![normalized(item)]);
    assert(seq![normalized(item)].drop_last() =~= seq![]);
    assert(Seq::<JsonView>::empty().filter(not_null()) =~= seq![]);
    assert(seq![normalized(item)].filter(not_null()) =~= (if item is Null {
        seq![]
    } else {
        seq![normalized(item)]
    }));
    assert(normalized(JsonView::Array(seq![item])) == JsonView::Array(
        normalized_each(seq![item]).filter(not_null()),
    ));
}

proof fn lemma_filter_halves(left: Seq<JsonView>, right: Seq<JsonView>)
    ensures
        (left + right).filter(not_null()) == left.filter(not_null()) + right.filter(not_null()),
    decreases right.len(),
{
    reveal(Seq::filter);
    if right.len() == 0 {
        assert(left + right =~= left);
        assert(left.filter(not_null()) + right.filter(not_null()) =~= left.filter(not_null()));
    } else {
        lemma_filter_halves(left, right.drop_last());
        assert((left + right).drop_last() =~= left + right.drop_last());
        assert((left + right).filter(not_null()) =~= left.filter(not_null()) + right.filter(
            not_null(),
        ));
    }
}

} // verus!
