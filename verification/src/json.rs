//! JSON values: the tree that the wire format is read from and written to.

use crate::text::same;
use serde_json::Value;
use vstd::prelude::*;

verus! {

/// A JSON value. A number is told by the `u64` that it is, where it is one.
pub enum JsonView {
    Null,
    Bool(bool),
    Number(Option<u64>),
    Str(Seq<char>),
    Array(Seq<JsonView>),
    Object(Map<Seq<char>, JsonView>),
}

/// A JSON value as the library holds it. Of two members of one name the first counts.
#[derive(Debug, PartialEq, Eq)]
pub enum Json {
    Null,
    Bool(bool),
    Number(Option<u64>),
    Str(String),
    Array(Vec<Json>),
    Object(Vec<(String, Json)>),
}

/// The place of the first member called `key` at or after `from`, or the number of members.
pub open spec fn place_of(members: Seq<(Seq<char>, JsonView)>, key: Seq<char>, from: int) -> int
    decreases members.len() - from,
{
    if from < members.len() && members[from].0 != key {
        place_of(members, key, from + 1)
    } else {
        from
    }
}

/// The members of an object by their names.
pub open spec fn by_name(members: Seq<(Seq<char>, JsonView)>) -> Map<Seq<char>, JsonView> {
    Map::new(
        |key: Seq<char>| place_of(members, key, 0) < members.len(),
        |key: Seq<char>| members[place_of(members, key, 0)].1,
    )
}

impl Json {
    /// The value as a tree, its objects' members by their names.
    pub open spec fn tree(self) -> JsonView
        decreases self, 1int,
    {
        match self {
            Json::Null => JsonView::Null,
            Json::Bool(b) => JsonView::Bool(b),
            Json::Number(n) => JsonView::Number(n),
            Json::Str(s) => JsonView::Str(s@),
            Json::Array(_) => JsonView::Array(
                self.parts().map_values(|p: (Seq<char>, JsonView)| p.1),
            ),
            Json::Object(_) => JsonView::Object(by_name(self.parts())),
        }
    }

    /// The items of an array, and the members of an object with their names.
    pub open spec fn parts(self) -> Seq<(Seq<char>, JsonView)>
        decreases self, 0int,
    {
        match self {
            Json::Array(items) => Seq::new(
                items@.len(),
                |i: int|
                    (
                        Seq::empty(),
                        if 0 <= i < items@.len() {
                            items@[i].tree()
                        } else {
                            JsonView::Null
                        },
                    ),
            ),
            Json::Object(members) => Seq::new(
                members@.len(),
                |i: int|
                    (
                        members@[i].0@,
                        if 0 <= i < members@.len() {
                            members@[i].1.tree()
                        } else {
                            JsonView::Null
                        },
                    ),
            ),
            _ => Seq::empty(),
        }
    }
}

impl View for Json {
    type V = JsonView;

    open spec fn view(&self) -> JsonView {
        self.tree()
    }
}

/// The members of an object as pairs of a name and a tree.
pub open spec fn pairs_of(members: Seq<(String, Json)>) -> Seq<(Seq<char>, JsonView)> {
    members.map_values(|m: (String, Json)| (m.0@, m.1@))
}

/// The views of a list of values.
pub open spec fn trees(items: Seq<Json>) -> Seq<JsonView> {
    items.map_values(|item: Json| item@)
}

/// What an array and an object are, in terms of their parts.
pub proof fn lemma_tree(json: Json)
    ensures
        json matches Json::Array(items) ==> json@ == JsonView::Array(trees(items@)),
        json matches Json::Object(members) ==> json@ == JsonView::Object(
            by_name(pairs_of(members@)),
        ),
{
    reveal_with_fuel(Json::tree, 2);
    reveal_with_fuel(Json::parts, 2);
    match json {
        Json::Array(items) => {
            assert(json@->Array_0 =~= trees(items@));
        },
        Json::Object(members) => {
            assert(json.parts() =~= pairs_of(members@));
        },
        _ => {},
    }
}

/// The value behind an optional reference.
pub open spec fn seen(value: Option<&Json>) -> Option<JsonView> {
    match value {
        Some(json) => Some(json@),
        None => None,
    }
}

/// The member `key` of an object; nothing of any other value.
pub open spec fn member_of(value: Option<JsonView>, key: Seq<char>) -> Option<JsonView> {
    match value {
        Some(JsonView::Object(members)) => if members.contains_key(key) {
            Some(members[key])
        } else {
            None
        },
        _ => None,
    }
}

/// The text of a string; nothing of any other value.
pub open spec fn str_of(value: Option<JsonView>) -> Option<Seq<char>> {
    match value {
        Some(JsonView::Str(text)) => Some(text),
        _ => None,
    }
}

/// The number, where it is a `u64`; nothing of any other value.
pub open spec fn u64_of(value: Option<JsonView>) -> Option<u64> {
    match value {
        Some(JsonView::Number(n)) => n,
        _ => None,
    }
}

/// The items of an array; nothing of any other value.
pub open spec fn items_of(value: Option<JsonView>) -> Option<Seq<JsonView>> {
    match value {
        Some(JsonView::Array(items)) => Some(items),
        _ => None,
    }
}

proof fn lemma_place_of(members: Seq<(Seq<char>, JsonView)>, key: Seq<char>, from: int, i: int)
    requires
        0 <= from <= i <= members.len(),
        forall|j: int| from <= j < i ==> members[j].0 != key,
        i < members.len() ==> members[i].0 == key,
    ensures
        place_of(members, key, from) == i,
    decreases i - from,
{
    if from < i {
        lemma_place_of(members, key, from + 1, i);
    }
}

/// The member `key` of the value, if it is an object that has one.
pub fn member<'a>(value: Option<&'a Json>, key: &str) -> (res: Option<&'a Json>)
    ensures
        seen(res) == member_of(seen(value), key@),
{
    match value {
        Some(Json::Object(members)) => {
            let ghost pairs = pairs_of(members@);
            proof {
                lemma_tree(*value->0);
            }
            for i in 0..members.len()
                invariant
                    value == Some(&Json::Object(*members)),
                    pairs == pairs_of(members@),
                    value->0@ == JsonView::Object(by_name(pairs)),
                    forall|j: int| 0 <= j < i ==> pairs[j].0 != key@,
            {
                if same(members[i].0.as_str(), key) {
                    proof {
                        lemma_place_of(pairs, key@, 0, i as int);
                    }
                    return Some(&members[i].1);
                }
            }
            proof {
                lemma_place_of(pairs, key@, 0, pairs.len() as int);
            }
            None
        },
        _ => None,
    }
}

/// The text of the value, if it is a string.
pub fn as_str<'a>(value: Option<&'a Json>) -> (res: Option<&'a str>)
    ensures
        res.deep_view() == str_of(seen(value)),
{
    match value {
        Some(Json::Str(text)) => Some(text.as_str()),
        _ => None,
    }
}

/// The number, if the value is one that a `u64` holds.
pub fn as_u64(value: Option<&Json>) -> (res: Option<u64>)
    ensures
        res == u64_of(seen(value)),
{
    match value {
        Some(Json::Number(n)) => *n,
        _ => None,
    }
}

/// The items of the value, if it is an array.
pub fn as_array<'a>(value: Option<&'a Json>) -> (res: Option<&'a Vec<Json>>)
    ensures
        res is Some <==> items_of(seen(value)) is Some,
        res is Some ==> trees(res->0@) == items_of(seen(value))->0,
{
    match value {
        Some(Json::Array(items)) => {
            proof {
                lemma_tree(*value->0);
            }
            Some(items)
        },
        _ => None,
    }
}

/// A value of `serde_json`, which Verus does not see into.
#[verifier::external_type_specification]
#[verifier::external_body]
pub struct ExValue(serde_json::Value);

/// The tree that a value of `serde_json` holds.
pub uninterp spec fn value_tree(value: serde_json::Value) -> JsonView;

/// What `serde_json` reads in a text: a value, or nothing where the text is not one JSON value or
/// nests too deep.
pub uninterp spec fn json_of(text: Seq<char>) -> Option<JsonView>;

/// The compact text that `serde_json` writes for a tree of objects and strings.
pub uninterp spec fn json_text(tree: JsonView) -> Seq<char>;

/// One level of a value, the values below it left as they are.
pub enum Layer<'a> {
    Null,
    Bool(bool),
    Number(Option<u64>),
    Str(&'a str),
    Array(Vec<&'a Value>),
    Object(Vec<(&'a str, &'a Value)>),
}

/// The names and trees of the members at one level.
pub open spec fn layer_pairs(members: Seq<(&str, &Value)>) -> Seq<(Seq<char>, JsonView)> {
    members.map_values(|m: (&str, &Value)| (m.0@, value_tree(*m.1)))
}

/// The tree whose topmost level is `layer`.
pub open spec fn layer_tree(layer: Layer<'_>) -> JsonView {
    match layer {
        Layer::Null => JsonView::Null,
        Layer::Bool(b) => JsonView::Bool(b),
        Layer::Number(n) => JsonView::Number(n),
        Layer::Str(s) => JsonView::Str(s@),
        Layer::Array(items) => JsonView::Array(items@.map_values(|item: &Value| value_tree(*item))),
        Layer::Object(members) => JsonView::Object(by_name(layer_pairs(members@))),
    }
}

/// No two members have one name.
pub open spec fn distinct_names(pairs: Seq<(Seq<char>, JsonView)>) -> bool {
    forall|i: int, j: int| 0 <= i < j < pairs.len() ==> pairs[i].0 != pairs[j].0
}

/// `serde_json::from_str` into a `Value`: it reads what the text stands for, and fails on a text
/// that stands for nothing.
#[verifier::external_body]
fn read_value(text: &str) -> (res: Option<Value>)
    ensures
        match res {
            Some(value) => json_of(text@) == Some(value_tree(value)),
            None => json_of(text@) is None,
        },
{
    serde_json::from_str(text).ok()
}

/// The variants of `serde_json::Value`: the tree is what the variant and its field say, a number by
/// `Number::as_u64`, and an object has no two members of one name.
#[verifier::external_body]
fn open_value<'a>(value: &'a Value) -> (layer: Layer<'a>)
    ensures
        layer_tree(layer) == value_tree(*value),
        layer matches Layer::Object(members) ==> distinct_names(layer_pairs(members@)),
{
    match value {
        Value::Null => Layer::Null,
        Value::Bool(b) => Layer::Bool(*b),
        Value::Number(n) => Layer::Number(n.as_u64()),
        Value::String(s) => Layer::Str(s.as_str()),
        Value::Array(items) => Layer::Array(items.iter().collect()),
        Value::Object(members) => {
            Layer::Object(members.iter().map(|m| (m.0.as_str(), m.1)).collect())
        },
    }
}

proof fn lemma_by_name(pairs: Seq<(Seq<char>, JsonView)>, i: int)
    requires
        distinct_names(pairs),
        0 <= i < pairs.len(),
    ensures
        by_name(pairs).contains_key(pairs[i].0),
        by_name(pairs)[pairs[i].0] == pairs[i].1,
{
    lemma_place_of(pairs, pairs[i].0, 0, i);
}

proof fn lemma_by_name_finite(pairs: Seq<(Seq<char>, JsonView)>)
    ensures
        by_name(pairs).dom().finite(),
{
    let names = pairs.map_values(|p: (Seq<char>, JsonView)| p.0);
    assert forall|key: Seq<char>| by_name(pairs).contains_key(key) implies names.to_set().contains(
        key,
    ) by {
        lemma_place_in(pairs, key, 0);
        let i = place_of(pairs, key, 0);
        assert(names[i] == key);
    }
    assert(by_name(pairs).dom().subset_of(names.to_set()));
    vstd::set_lib::lemma_set_subset_finite(names.to_set(), by_name(pairs).dom());
}

proof fn lemma_place_in(pairs: Seq<(Seq<char>, JsonView)>, key: Seq<char>, from: int)
    requires
        0 <= from <= pairs.len(),
    ensures
        from <= place_of(pairs, key, from) <= pairs.len(),
        place_of(pairs, key, from) < pairs.len() ==> pairs[place_of(pairs, key, from)].0 == key,
    decreases pairs.len() - from,
{
    if from < pairs.len() && pairs[from].0 != key {
        lemma_place_in(pairs, key, from + 1);
    }
}

/// The value as the library holds it.
fn adopt(value: &Value) -> (json: Json)
    ensures
        json@ == value_tree(*value),
    decreases value_tree(*value),
{
    match open_value(value) {
        Layer::Null => Json::Null,
        Layer::Bool(b) => Json::Bool(b),
        Layer::Number(n) => Json::Number(n),
        Layer::Str(s) => Json::Str(s.to_owned()),
        Layer::Array(items) => {
            let ghost below = items@.map_values(|item: &Value| value_tree(*item));
            let mut held: Vec<Json> = Vec::new();
            for i in 0..items.len()
                invariant
                    below == items@.map_values(|item: &Value| value_tree(*item)),
                    value_tree(*value) == JsonView::Array(below),
                    trees(held@) == below.take(i as int),
            {
                proof {
                    assert(below[i as int] == value_tree(*items@[i as int]));
                    assert(decreases_to!(value_tree(*value) => value_tree(*value)->Array_0));
                    assert(decreases_to!(below => below[i as int]));
                }
                let item = adopt(items[i]);
                proof {
                    assert(trees(held@.push(item)) =~= trees(held@).push(item@));
                    assert(below.take(i + 1) =~= below.take(i as int).push(below[i as int]));
                }
                held.push(item);
            }
            let json = Json::Array(held);
            proof {
                lemma_tree(json);
                assert(below.take(below.len() as int) =~= below);
            }
            json
        },
        Layer::Object(members) => {
            let ghost below = layer_pairs(members@);
            let mut held: Vec<(String, Json)> = Vec::new();
            for i in 0..members.len()
                invariant
                    below == layer_pairs(members@),
                    distinct_names(below),
                    value_tree(*value) == JsonView::Object(by_name(below)),
                    pairs_of(held@) == below.take(i as int),
            {
                proof {
                    lemma_by_name(below, i as int);
                    lemma_by_name_finite(below);
                    assert(decreases_to!(value_tree(*value) => value_tree(*value)->Object_0));
                    assert(decreases_to!(by_name(below) => by_name(below)[below[i as int].0]));
                }
                let item = (members[i].0.to_owned(), adopt(members[i].1));
                proof {
                    assert(pairs_of(held@.push(item)) =~= pairs_of(held@).push((item.0@, item.1@)));
                    assert(below.take(i + 1) =~= below.take(i as int).push(below[i as int]));
                }
                held.push(item);
            }
            let json = Json::Object(held);
            proof {
                lemma_tree(json);
                assert(below.take(below.len() as int) =~= below);
            }
            json
        },
    }
}

/// The JSON value that the text stands for, if it stands for one.
pub fn parse_json(text: &str) -> (res: Option<Json>)
    ensures
        match res {
            Some(json) => json_of(text@) == Some(json@),
            None => json_of(text@) is None,
        },
{
    match read_value(text) {
        Some(value) => Some(adopt(&value)),
        None => None,
    }
}

/// A tree of strings, and of objects that nest at most `depth` deep.
pub open spec fn plain(tree: JsonView, depth: nat) -> bool
    decreases depth,
{
    match tree {
        JsonView::Str(_) => true,
        JsonView::Object(members) => {
            &&& depth > 0
            &&& forall|key: Seq<char>|
                members.contains_key(key) ==> plain(#[trigger] members[key], (depth - 1) as nat)
        },
        _ => false,
    }
}

/// `Value::String`: the value that is this text.
#[verifier::external_body]
pub(crate) fn text_value(text: &str) -> (value: Value)
    ensures
        value_tree(value) == JsonView::Str(text@),
{
    Value::String(text.to_owned())
}

/// The names and trees of members that are yet to be put into an object.
pub open spec fn member_pairs(members: Seq<(String, Value)>) -> Seq<(Seq<char>, JsonView)> {
    members.map_values(|m: (String, Value)| (m.0@, value_tree(m.1)))
}

/// `Value::Object` of a `serde_json::Map` collected from pairs: the object with these members.
#[verifier::external_body]
pub(crate) fn object_value(members: Vec<(String, Value)>) -> (value: Value)
    requires
        distinct_names(member_pairs(members@)),
    ensures
        value_tree(value) == JsonView::Object(by_name(member_pairs(members@))),
{
    Value::Object(members.into_iter().collect())
}

/// `Value::to_string`, on objects and strings: the text depends on the tree alone, since an object's
/// members are kept in the order of their names; it holds no line break, since control characters
/// in strings are escaped; and `serde_json::from_str`, which allows this nesting, reads it back as
/// the same tree.
#[verifier::external_body]
pub(crate) fn value_text(value: &Value) -> (text: String)
    requires
        plain(value_tree(*value), 127),
    ensures
        text@ == json_text(value_tree(*value)),
        !text@.contains('\n'),
        json_of(text@) == Some(value_tree(*value)),
{
    value.to_string()
}

/// An object of two members.
pub proof fn lemma_two_names(a: (Seq<char>, JsonView), b: (Seq<char>, JsonView))
    requires
        a.0 != b.0,
    ensures
        distinct_names(seq![a, b]),
        by_name(seq![a, b]) == map![a.0 => a.1, b.0 => b.1],
{
    let pairs = seq![a, b];
    reveal_with_fuel(place_of, 3);
    assert(by_name(pairs) =~= map![a.0 => a.1, b.0 => b.1]);
}

} // verus!
