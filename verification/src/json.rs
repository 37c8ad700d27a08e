//! JSON values: the library's own tree of them, and what `serde_json` reads from a text.

use vstd::prelude::*;

use crate::text::text_is;

verus! {

/// A number of a JSON text, as `serde_json` keeps it.
#[verifier::external_type_specification]
#[verifier::external_body]
pub struct ExNumber(serde_json::Number);

/// A JSON value as `serde_json` reads it from a text.
#[verifier::external_type_specification]
#[verifier::external_body]
pub struct ExValue(serde_json::Value);

/// `Number::clone` of `serde_json` gives the same number.
pub assume_specification[ <serde_json::Number as Clone>::clone ](
    number: &serde_json::Number,
) -> (copy: serde_json::Number)
    ensures
        copy == *number,
;

/// A JSON value. The entries of an object are kept in a list. A value that is read from a text has
/// no key twice; where a key stands in a list more than once, its first entry counts.
#[derive(Debug, PartialEq)]
pub enum Json {
    Null,
    Bool(bool),
    Number(serde_json::Number),
    Text(String),
    Array(Vec<Json>),
    Object(Vec<(String, Json)>),
}

/// What a [`Json`] value stands for.
pub enum JsonView {
    Null,
    Bool(bool),
    Number(serde_json::Number),
    Text(Seq<char>),
    Array(Seq<JsonView>),
    Object(Seq<(Seq<char>, JsonView)>),
}

/// What a value stands for, all the way down.
pub open spec fn json_view(value: Json) -> JsonView
    decreases value,
{
    match value {
        Json::Null => JsonView::Null,
        Json::Bool(b) => JsonView::Bool(b),
        Json::Number(n) => JsonView::Number(n),
        Json::Text(s) => JsonView::Text(s@),
        Json::Array(items) => JsonView::Array(
            Seq::new(
                items@.len(),
                |i: int|
                    if 0 <= i < items@.len() {
                        json_view(items@[i])
                    } else {
                        JsonView::Null
                    },
            ),
        ),
        Json::Object(entries) => JsonView::Object(
            Seq::new(
                entries@.len(),
                |i: int|
                    if 0 <= i < entries@.len() {
                        (entries@[i].0@, json_view(entries@[i].1))
                    } else {
                        (Seq::empty(), JsonView::Null)
                    },
            ),
        ),
    }
}

impl DeepView for Json {
    type V = JsonView;

    open spec fn deep_view(&self) -> JsonView {
        json_view(*self)
    }
}

/// What a list of values stands for.
pub open spec fn item_views(items: Seq<Json>) -> Seq<JsonView> {
    Seq::new(items.len(), |i: int| items[i].deep_view())
}

/// What a list of entries stands for.
pub open spec fn entry_views(entries: Seq<(String, Json)>) -> Seq<(Seq<char>, JsonView)> {
    Seq::new(entries.len(), |i: int| (entries[i].0@, entries[i].1.deep_view()))
}

/// An array stands for what its items stand for, and an object for what its entries do.
pub proof fn lemma_json_view(value: Json)
    ensures
        value matches Json::Array(items) ==> value.deep_view() == JsonView::Array(
            item_views(items@),
        ),
        value matches Json::Object(entries) ==> value.deep_view() == JsonView::Object(
            entry_views(entries@),
        ),
{
    match value {
        Json::Array(items) => {
            assert(value.deep_view()->Array_0 =~= item_views(items@));
        },
        Json::Object(entries) => {
            assert(value.deep_view()->Object_0 =~= entry_views(entries@));
        },
        _ => {},
    }
}

impl Clone for Json {
    fn clone(&self) -> (copy: Self)
        ensures
            copy.deep_view() == self.deep_view(),
    {
        self.duplicate()
    }
}

impl Json {
    /// The same value once more.
    fn duplicate(&self) -> (copy: Self)
        ensures
            copy.deep_view() == self.deep_view(),
        decreases self,
    {
        let copy = match self {
            Json::Null => Json::Null,
            Json::Bool(b) => Json::Bool(*b),
            Json::Number(n) => Json::Number(n.clone()),
            Json::Text(s) => Json::Text(s.clone()),
            Json::Array(items) => {
                let mut copies: Vec<Json> = Vec::new();
                let mut i: usize = 0;
                while i < items.len()
                    invariant
                        i <= items@.len(),
                        *self == Json::Array(*items),
                        item_views(copies@) == item_views(items@).take(i as int),
                    decreases items@.len() - i,
                {
                    assert(decreases_to!(self => self->Array_0));
                    let ghost before = copies@;
                    copies.push(items[i].duplicate());
                    assert(item_views(copies@) == item_views(before).push(items@[i as int].deep_view()));
                    assert(item_views(copies@) == item_views(items@).take(i + 1));
                    i += 1;
                }
                assert(item_views(copies@) == item_views(items@));
                Json::Array(copies)
            },
            Json::Object(entries) => {
                let mut copies: Vec<(String, Json)> = Vec::new();
                let mut i: usize = 0;
                while i < entries.len()
                    invariant
                        i <= entries@.len(),
                        *self == Json::Object(*entries),
                        entry_views(copies@) == entry_views(entries@).take(i as int),
                    decreases entries@.len() - i,
                {
                    assert(decreases_to!(self => self->Object_0));
                    assert(decreases_to!(entries => entries[i as int]));
                    let ghost before = copies@;
                    copies.push((entries[i].0.clone(), entries[i].1.duplicate()));
                    assert(entry_views(copies@) == entry_views(before).push(
                        (entries@[i as int].0@, entries@[i as int].1.deep_view()),
                    ));
                    assert(entry_views(copies@) == entry_views(entries@).take(i + 1));
                    i += 1;
                }
                assert(entry_views(copies@) == entry_views(entries@));
                Json::Object(copies)
            },
        };
        proof {
            lemma_json_view(*self);
            lemma_json_view(copy);
        }
        copy
    }
}

/// The first place at which a key stands among entries; their number, where it does not.
pub open spec fn key_index(entries: Seq<(Seq<char>, JsonView)>, key: Seq<char>) -> int
    decreases entries.len(),
{
    if entries.len() == 0 {
        0
    } else if entries[0].0 == key {
        0
    } else {
        1 + key_index(entries.skip(1), key)
    }
}

/// The entries hold the key.
pub open spec fn has_key(entries: Seq<(Seq<char>, JsonView)>, key: Seq<char>) -> bool {
    exists|i: int| 0 <= i < entries.len() && #[trigger] entries[i].0 == key
}

/// The value that the entries hold for the key.
pub open spec fn value_of(entries: Seq<(Seq<char>, JsonView)>, key: Seq<char>) -> Option<JsonView> {
    if has_key(entries, key) {
        Some(entries[key_index(entries, key)].1)
    } else {
        None
    }
}

/// The entries, with one more for the key where they hold none.
pub open spec fn with_default(
    entries: Seq<(Seq<char>, JsonView)>,
    key: Seq<char>,
    value: JsonView,
) -> Seq<(Seq<char>, JsonView)> {
    if has_key(entries, key) {
        entries
    } else {
        entries.push((key, value))
    }
}

/// The place of the first entry for a key: it holds the key and none before it does.
pub proof fn lemma_key_index(entries: Seq<(Seq<char>, JsonView)>, key: Seq<char>)
    ensures
        0 <= key_index(entries, key) <= entries.len(),
        has_key(entries, key) <==> key_index(entries, key) < entries.len(),
        has_key(entries, key) ==> entries[key_index(entries, key)].0 == key,
        forall|i: int| 0 <= i < key_index(entries, key) ==> #[trigger] entries[i].0 != key,
    decreases entries.len(),
{
    if entries.len() > 0 && entries[0].0 != key {
        let rest = entries.skip(1);
        lemma_key_index(rest, key);
        assert forall|i: int| 0 <= i < key_index(entries, key) implies #[trigger] entries[i].0
            != key by {
            if i > 0 {
                assert(entries[i] == rest[i - 1]);
            }
        }
        if has_key(entries, key) {
            let i = choose|i: int| 0 <= i < entries.len() && #[trigger] entries[i].0 == key;
            assert(rest[i - 1].0 == key);
        }
        if has_key(rest, key) {
            assert(entries[key_index(entries, key)] == rest[key_index(rest, key)]);
        }
    }
}

/// No key stands among the entries twice.
pub open spec fn no_key_twice(entries: Seq<(Seq<char>, JsonView)>) -> bool {
    forall|i: int, j: int|
        0 <= i < j < entries.len() ==> (#[trigger] entries[i]).0 != (#[trigger] entries[j]).0
}

/// No object of the value, however deep, has a key twice.
pub open spec fn keys_unique(value: JsonView) -> bool
    decreases value,
{
    match value {
        JsonView::Array(items) => forall|i: int|
            0 <= i < items.len() ==> keys_unique(#[trigger] items[i]),
        JsonView::Object(entries) => {
            &&& no_key_twice(entries)
            &&& forall|i: int| 0 <= i < entries.len() ==> keys_unique((#[trigger] entries[i]).1)
        },
        _ => true,
    }
}

/// Looks a key up among the entries of an object.
pub fn find_key(entries: &Vec<(String, Json)>, key: &str) -> (place: Option<usize>)
    ensures
        place matches Some(i) ==> {
            &&& i < entries@.len()
            &&& has_key(entry_views(entries@), key@)
            &&& i == key_index(entry_views(entries@), key@)
        },
        place is None ==> !has_key(entry_views(entries@), key@),
{
    let ghost views = entry_views(entries@);
    proof {
        lemma_key_index(views, key@);
    }
    let mut i: usize = 0;
    while i < entries.len()
        invariant
            i <= entries@.len(),
            views == entry_views(entries@),
            0 <= key_index(views, key@) <= views.len(),
            has_key(views, key@) <==> key_index(views, key@) < views.len(),
            has_key(views, key@) ==> views[key_index(views, key@)].0 == key@,
            forall|k: int| 0 <= k < key_index(views, key@) ==> #[trigger] views[k].0 != key@,
            forall|k: int| 0 <= k < i ==> #[trigger] views[k].0 != key@,
        decreases entries@.len() - i,
    {
        if text_is(entries[i].0.as_str(), key) {
            assert(views[i as int].0 == key@);
            return Some(i);
        }
        assert(views[i as int].0 != key@);
        i += 1;
    }
    None
}

/// Whether the entries of an object hold a key.
pub fn contains_key(entries: &Vec<(String, Json)>, key: &str) -> (found: bool)
    ensures
        found == has_key(entry_views(entries@), key@),
{
    find_key(entries, key).is_some()
}

/// Adds an entry for a key to an object that has none.
pub fn insert_default(entries: &mut Vec<(String, Json)>, key: &str, value: Json)
    ensures
        entry_views(final(entries)@) == with_default(
            entry_views(old(entries)@),
            key@,
            value.deep_view(),
        ),
{
    if !contains_key(entries, key) {
        entries.push((key.to_owned(), value));
        assert(entry_views(entries@) == entry_views(old(entries)@).push((key@, value.deep_view())));
    }
}

/// The value that an object holds for a key.
pub open spec fn member(value: JsonView, key: Seq<char>) -> Option<JsonView> {
    match value {
        JsonView::Object(entries) => value_of(entries, key),
        _ => None,
    }
}

/// The text that an object holds for a key.
pub open spec fn text_member(value: JsonView, key: Seq<char>) -> Option<Seq<char>> {
    match member(value, key) {
        Some(JsonView::Text(text)) => Some(text),
        _ => None,
    }
}

impl Json {
    /// The text that an object holds for a key.
    pub fn text_member(&self, key: &str) -> (text: Option<&String>)
        ensures
            text.deep_view() == text_member(self.deep_view(), key@),
    {
        proof {
            lemma_json_view(*self);
        }
        match self {
            Json::Object(entries) => match find_key(entries, key) {
                Some(i) => match &entries[i].1 {
                    Json::Text(text) => Some(text),
                    Json::Array(_) => None,
                    Json::Object(_) => None,
                    _ => None,
                },
                None => None,
            },
            _ => None,
        }
    }
}

/// `Number::from` of `serde_json` on an unsigned number: the JSON number of that value.
pub uninterp spec fn number_of(number: u64) -> serde_json::Number;

/// `Number::from` of `serde_json`, on a `u64`: the JSON number of that value, the same one for the
/// same value.
#[verifier::external_body]
fn unsigned_number(number: u64) -> (json: serde_json::Number)
    ensures
        json == number_of(number),
{
    serde_json::Number::from(number)
}

/// A whole number as a JSON value.
pub fn number_json(number: u64) -> (json: Json)
    ensures
        json.deep_view() == JsonView::Number(number_of(number)),
{
    Json::Number(unsigned_number(number))
}

/// A text as a JSON value.
pub fn text_json(text: &str) -> (json: Json)
    ensures
        json.deep_view() == JsonView::Text(text@),
{
    Json::Text(text.to_owned())
}

/// Values as a JSON array.
pub fn array_json(items: Vec<Json>) -> (json: Json)
    ensures
        json.deep_view() == JsonView::Array(item_views(items@)),
{
    let json = Json::Array(items);
    proof {
        lemma_json_view(json);
    }
    json
}

/// Entries as a JSON object.
pub fn object_json(entries: Vec<(String, Json)>) -> (json: Json)
    ensures
        json.deep_view() == JsonView::Object(entry_views(entries@)),
{
    let json = Json::Object(entries);
    proof {
        lemma_json_view(json);
    }
    json
}

/// What a `serde_json` value holds, all the way down. The entries of an object are listed in the
/// order in which `serde_json` walks them.
pub uninterp spec fn json_of(value: serde_json::Value) -> JsonView;

/// The outermost layer of a `serde_json` value.
enum JsonNode {
    Null,
    Bool(bool),
    Number(serde_json::Number),
    Text(String),
    Array(Vec<serde_json::Value>),
    Object(Vec<(String, serde_json::Value)>),
}

/// What the outermost layer of a value says of the whole value.
spec fn node_view(node: JsonNode) -> JsonView {
    match node {
        JsonNode::Null => JsonView::Null,
        JsonNode::Bool(b) => JsonView::Bool(b),
        JsonNode::Number(n) => JsonView::Number(n),
        JsonNode::Text(s) => JsonView::Text(s@),
        JsonNode::Array(items) => JsonView::Array(
            Seq::new(items@.len(), |i: int| json_of(items@[i])),
        ),
        JsonNode::Object(entries) => JsonView::Object(
            Seq::new(entries@.len(), |i: int| (entries@[i].0@, json_of(entries@[i].1))),
        ),
    }
}

/// The variants of `serde_json::Value`, told apart: each carries over what it holds, and an object
/// its entries in the order of `Map::into_iter`. A `Map` has no key twice.
#[verifier::external_body]
fn split_value(value: serde_json::Value) -> (node: JsonNode)
    ensures
        node_view(node) == json_of(value),
        node_view(node) matches JsonView::Object(entries) ==> no_key_twice(entries),
{
    match value {
        serde_json::Value::Null => JsonNode::Null,
        serde_json::Value::Bool(b) => JsonNode::Bool(b),
        serde_json::Value::Number(n) => JsonNode::Number(n),
        serde_json::Value::String(s) => JsonNode::Text(s),
        serde_json::Value::Array(items) => JsonNode::Array(items),
        serde_json::Value::Object(entries) => JsonNode::Object(entries.into_iter().collect()),
    }
}

/// A `serde_json` value as the library's own.
pub fn json_from_value(value: serde_json::Value) -> (json: Json)
    ensures
        json.deep_view() == json_of(value),
        keys_unique(json.deep_view()),
    decreases json_of(value),
{
    let ghost whole = json_of(value);
    let json = match split_value(value) {
        JsonNode::Null => Json::Null,
        JsonNode::Bool(b) => Json::Bool(b),
        JsonNode::Number(n) => Json::Number(n),
        JsonNode::Text(s) => Json::Text(s),
        JsonNode::Array(items) => {
            let ghost views = whole->Array_0;
            let mut rest = items;
            let mut converted: Vec<Json> = Vec::new();
            while rest.len() > 0
                invariant
                    whole == json_of(value),
                    whole == JsonView::Array(views),
                    rest@.len() + converted@.len() == views.len(),
                    forall|i: int|
                        0 <= i < rest@.len() ==> json_of(#[trigger] rest@[i]) == views[converted@.len()
                            + i],
                    item_views(converted@) == views.take(converted@.len() as int),
                    forall|i: int|
                        0 <= i < converted@.len() ==> keys_unique(#[trigger] views[i]),
                decreases rest@.len(),
            {
                let item = rest.remove(0);
                assert(json_of(item) == views[converted@.len() as int]);
                assert(decreases_to!(whole => whole->Array_0));
                assert(decreases_to!(views => views[converted@.len() as int]));
                let ghost done = converted@.len() as int;
                converted.push(json_from_value(item));
                assert(item_views(converted@) == views.take(done + 1));
            }
            assert(item_views(converted@) == views);
            Json::Array(converted)
        },
        JsonNode::Object(entries) => {
            let ghost views = whole->Object_0;
            let mut rest = entries;
            let mut converted: Vec<(String, Json)> = Vec::new();
            while rest.len() > 0
                invariant
                    whole == json_of(value),
                    whole == JsonView::Object(views),
                    rest@.len() + converted@.len() == views.len(),
                    forall|i: int|
                        0 <= i < rest@.len() ==> (#[trigger] rest@[i].0@, json_of(rest@[i].1))
                            == views[converted@.len() + i],
                    entry_views(converted@) == views.take(converted@.len() as int),
                    no_key_twice(views),
                    forall|i: int|
                        0 <= i < converted@.len() ==> keys_unique((#[trigger] views[i]).1),
                decreases rest@.len(),
            {
                let (key, item) = rest.remove(0);
                assert((key@, json_of(item)) == views[converted@.len() as int]);
                assert(decreases_to!(whole => whole->Object_0));
                assert(decreases_to!(views => views[converted@.len() as int]));
                let ghost done = converted@.len() as int;
                assert(decreases_to!(views[done] => views[done].1));
                converted.push((key, json_from_value(item)));
                assert(entry_views(converted@) == views.take(done + 1));
            }
            assert(entry_views(converted@) == views);
            Json::Object(converted)
        },
    };
    proof {
        lemma_json_view(json);
    }
    json
}

/// `serde_json::from_str` into a `Value`: the value that a text holds, or the message of the error
/// where it is no JSON text.
pub uninterp spec fn parsed_json(text: Seq<char>) -> Result<JsonView, Seq<char>>;

/// `serde_json::from_str` into a `Value`. What comes back, the value or the message of the error,
/// is a function of the text alone.
#[verifier::external_body]
fn parse_value(text: &str) -> (parsed: Result<serde_json::Value, String>)
    ensures
        match parsed {
            Ok(value) => parsed_json(text@) == Ok::<JsonView, Seq<char>>(json_of(value)),
            Err(message) => parsed_json(text@) == Err::<JsonView, Seq<char>>(message@),
        },
{
    match serde_json::from_str::<serde_json::Value>(text) {
        Ok(value) => Ok(value),
        Err(error) => Err(error.to_string()),
    }
}

/// The JSON value that a text holds.
pub fn parse_json(text: &str) -> (parsed: Result<Json, String>)
    ensures
        match parsed {
            Ok(json) => parsed_json(text@) == Ok::<JsonView, Seq<char>>(json.deep_view())
                && keys_unique(json.deep_view()),
            Err(message) => parsed_json(text@) == Err::<JsonView, Seq<char>>(message@),
        },
{
    match parse_value(text) {
        Ok(value) => Ok(json_from_value(value)),
        Err(message) => Err(message),
    }
}

/// An object holds for a key what its entry for it says, and text only where that is a text; anything
/// that is no object holds nothing.
pub proof fn lemma_members(value: JsonView, key: Seq<char>)
    ensures
        value matches JsonView::Object(entries) ==> {
            &&& no_key_twice(entries) ==> forall|i: int|
                0 <= i < entries.len() && (#[trigger] entries[i]).0 == key ==> member(value, key)
                    == Some(entries[i].1)
            &&& (forall|i: int| 0 <= i < entries.len() ==> (#[trigger] entries[i]).0 != key)
                ==> member(value, key) is None
        },
        !(value is Object) ==> member(value, key) is None,
        text_member(value, key) matches Some(text) ==> member(value, key) == Some(
            JsonView::Text(text),
        ),
        member(value, key) matches Some(JsonView::Text(text)) ==> text_member(value, key) == Some(
            text,
        ),
{
    if let JsonView::Object(entries) = value {
        lemma_key_index(entries, key);
        if no_key_twice(entries) {
            assert forall|i: int|
                0 <= i < entries.len() && (#[trigger] entries[i]).0 == key implies member(value, key)
                == Some(entries[i].1) by {
                assert(entries[key_index(entries, key)].0 == entries[i].0);
            }
        }
    }
}

} // verus!
