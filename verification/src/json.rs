//! JSON values as the claim mappings read them, and the dotted paths into them.

use serde_json::Value;
use vstd::prelude::*;

use crate::text::{pieces, same, split_pieces};

verus! {

broadcast use {vstd::string::group_string_axioms, vstd::seq_lib::group_seq_properties};

/// What a JSON value is. No mapping reads a number, so a number carries nothing.
pub enum JsonTree {
    Null,
    Bool(bool),
    Number,
    Text(Seq<char>),
    Array(Seq<JsonTree>),
    Object(Map<Seq<char>, JsonTree>),
}

/// A JSON value. Of two members with one name, the later one counts.
#[derive(Debug)]
pub enum Json {
    Null,
    Bool(bool),
    Number,
    Text(String),
    Array(Vec<Json>),
    Object(Vec<(String, Json)>),
}

/// The tree that a JSON value stands for.
pub open spec fn json_tree(json: Json) -> JsonTree
    decreases json,
{
    match json {
        Json::Null => JsonTree::Null,
        Json::Bool(b) => JsonTree::Bool(b),
        Json::Number => JsonTree::Number,
        Json::Text(s) => JsonTree::Text(s@),
        Json::Array(items) => JsonTree::Array(item_trees(items@)),
        Json::Object(members) => JsonTree::Object(member_trees(members@)),
    }
}

/// The trees of the items of an array.
pub open spec fn item_trees(items: Seq<Json>) -> Seq<JsonTree>
    decreases items,
{
    Seq::new(
        items.len(),
        |i: int|
            if 0 <= i < items.len() {
                json_tree(items[i])
            } else {
                JsonTree::Null
            },
    )
}

/// The members of an object, by name.
pub open spec fn member_trees(members: Seq<(String, Json)>) -> Map<Seq<char>, JsonTree>
    decreases members,
{
    if members.len() == 0 {
        Map::empty()
    } else {
        member_trees(members.drop_last()).insert(members.last().0@, json_tree(members.last().1))
    }
}

impl View for Json {
    type V = JsonTree;

    open spec fn view(&self) -> JsonTree {
        json_tree(*self)
    }
}

/// The value that a map gives a key, if any.
pub open spec fn lookup<V>(map: Map<Seq<char>, V>, key: Seq<char>) -> Option<V> {
    if map.dom().contains(key) {
        Some(map[key])
    } else {
        None
    }
}

/// The member of that name: only an object has members.
pub open spec fn member(tree: JsonTree, key: Seq<char>) -> Option<JsonTree> {
    match tree {
        JsonTree::Object(members) => lookup(members, key),
        _ => None,
    }
}

/// The value at the end of a path of member names.
pub open spec fn walk(tree: JsonTree, path: Seq<Seq<char>>) -> Option<JsonTree>
    decreases path.len(),
{
    if path.len() == 0 {
        Some(tree)
    } else {
        match member(tree, path[0]) {
            Some(next) => walk(next, path.drop_first()),
            None => None,
        }
    }
}

/// The value at a dotted path.
pub open spec fn at_path(tree: JsonTree, path: Seq<char>) -> Option<JsonTree> {
    walk(tree, pieces(path, '.'))
}

/// The tree of a JSON value that may be absent.
pub open spec fn tree_of(json: Option<&Json>) -> Option<JsonTree> {
    match json {
        Some(j) => Some(j@),
        None => None,
    }
}

impl Json {
    /// The member of that name, where this is an object that has one.
    pub fn get(&self, key: &str) -> (r: Option<&Json>)
        ensures
            tree_of(r) == member(self@, key@),
    {
        match self {
            Json::Object(members) => {
                let mut i: usize = members.len();
                assert(members@.take(i as int) == members@);
                while i > 0
                    invariant
                        i <= members.len(),
                        self@ == JsonTree::Object(member_trees(members@)),
                        lookup(member_trees(members@.take(i as int)), key@) == lookup(
                            member_trees(members@),
                            key@,
                        ),
                    decreases i,
                {
                    let ghost seen = members@.take(i as int);
                    assert(seen.drop_last() == members@.take(i - 1));
                    assert(seen.last() == members@[i - 1]);
                    i -= 1;
                    if same(members[i].0.as_str(), key) {
                        return Some(&members[i].1);
                    }
                }
                assert(members@.take(0) == Seq::<(String, Json)>::empty());
                None
            },
            _ => None,
        }
    }

    /// The text of a JSON string.
    pub fn as_str(&self) -> (r: Option<&str>)
        ensures
            match r {
                Some(s) => self@ == JsonTree::Text(s@),
                None => !(self@ is Text),
            },
    {
        match self {
            Json::Text(s) => Some(s.as_str()),
            _ => None,
        }
    }
}

/// Follows a dotted path from member to member.
pub fn resolve_json_path<'a>(value: &'a Json, path: &str) -> (r: Option<&'a Json>)
    ensures
        tree_of(r) == at_path(value@, path@),
{
    let segments = split_pieces(path, '.');
    let ghost names = segments.deep_view();
    let mut current: &'a Json = value;
    let mut i: usize = 0;
    assert(names.skip(0) == names);
    while i < segments.len()
        invariant
            i <= segments.len(),
            names == segments.deep_view(),
            names == pieces(path@, '.'),
            walk(current@, names.skip(i as int)) == walk(value@, names),
        decreases segments.len() - i,
    {
        let ghost rest = names.skip(i as int);
        assert(rest[0] == segments[i as int]@);
        assert(rest.drop_first() == names.skip(i + 1));
        match current.get(segments[i].as_str()) {
            Some(next) => {
                current = next;
            },
            None => {
                return None;
            },
        }
        i += 1;
    }
    Some(current)
}

/// `serde_json::Value`, a JSON value of that crate.
#[verifier::external_type_specification]
#[verifier::external_body]
pub struct ExValue(Value);

/// `serde_json::Error`, the reason for which a text was not read as JSON.
#[verifier::external_type_specification]
#[verifier::external_body]
pub struct ExJsonError(serde_json::Error);

/// What a `serde_json::Value` holds.
pub uninterp spec fn value_tree(value: Value) -> JsonTree;

/// What `serde_json::from_str` reads from a text: nothing where it fails.
pub uninterp spec fn parsed_tree(text: Seq<char>) -> Option<JsonTree>;

/// The outermost layer of a `serde_json::Value`.
pub enum JsonLayer<'a> {
    Null,
    Bool(bool),
    Number,
    Text(&'a String),
    Array(&'a Vec<Value>),
    Object(Vec<(&'a String, &'a Value)>),
}

/// The trees of the items of an array of `serde_json::Value`.
pub open spec fn value_trees(items: Seq<Value>) -> Seq<JsonTree> {
    items.map_values(|v: Value| value_tree(v))
}

/// Whether a layer is the outermost layer of a tree.
pub open spec fn is_layer_of(layer: JsonLayer, tree: JsonTree) -> bool {
    match layer {
        JsonLayer::Null => tree == JsonTree::Null,
        JsonLayer::Bool(b) => tree == JsonTree::Bool(b),
        JsonLayer::Number => tree == JsonTree::Number,
        JsonLayer::Text(s) => tree == JsonTree::Text(s@),
        JsonLayer::Array(items) => tree == JsonTree::Array(value_trees(items@)),
        JsonLayer::Object(members) => {
            &&& tree is Object
            &&& forall|i: int|
                #![trigger members@[i]]
                0 <= i < members@.len() ==> lookup(tree->Object_0, members@[i].0@) == Some(
                    value_tree(*members@[i].1),
                )
            &&& forall|k: Seq<char>| #[trigger]
                tree->Object_0.dom().contains(k) ==> exists|i: int|
                    0 <= i < members@.len() && (#[trigger] members@[i]).0@ == k
            &&& tree->Object_0.dom().finite()
        },
    }
}

/// Takes a `serde_json::Value` apart: an array into its items in order, an object
/// into the pairs that `serde_json::Map::iter` gives, which are exactly its members.
#[verifier::external_body]
fn layer_of<'a>(value: &'a Value) -> (r: JsonLayer<'a>)
    ensures
        is_layer_of(r, value_tree(*value)),
{
    match value {
        Value::Null => JsonLayer::Null,
        Value::Bool(b) => JsonLayer::Bool(*b),
        Value::Number(_) => JsonLayer::Number,
        Value::String(s) => JsonLayer::Text(s),
        Value::Array(items) => JsonLayer::Array(items),
        Value::Object(members) => JsonLayer::Object(members.iter().collect()),
    }
}

/// `serde_json::from_str` at the type `Value`: what it reads, and whether it
/// reads anything, depends on the text alone.
#[verifier::external_body]
fn value_from_str(text: &str) -> (r: Result<Value, serde_json::Error>)
    ensures
        parsed_tree(text@) == match r {
            Ok(value) => Some(value_tree(value)),
            Err(_) => None,
        },
{
    serde_json::from_str::<Value>(text)
}

/// The same JSON value in the type of this library.
fn json_of_value(value: &Value) -> (r: Json)
    ensures
        r@ == value_tree(*value),
    decreases value_tree(*value),
{
    match layer_of(value) {
        JsonLayer::Null => Json::Null,
        JsonLayer::Bool(b) => Json::Bool(b),
        JsonLayer::Number => Json::Number,
        JsonLayer::Text(s) => Json::Text(s.clone()),
        JsonLayer::Array(items) => {
            let mut r: Vec<Json> = Vec::new();
            let mut i: usize = 0;
            while i < items.len()
                invariant
                    i <= items.len(),
                    value_tree(*value) == JsonTree::Array(value_trees(items@)),
                    r.len() == i,
                    forall|j: int| 0 <= j < i ==> json_tree(#[trigger] r@[j]) == value_tree(items@[j]),
                decreases items.len() - i,
            {
                let ghost trees = value_tree(*value)->Array_0;
                assert(trees[i as int] == value_tree(items@[i as int]));
                assert(decreases_to!(value_tree(*value) => trees[i as int]));
                let item = json_of_value(&items[i]);
                r.push(item);
                i += 1;
            }
            assert(item_trees(r@) == value_trees(items@));
            Json::Array(r)
        },
        JsonLayer::Object(members) => {
            let mut r: Vec<(String, Json)> = Vec::new();
            let ghost tree = value_tree(*value)->Object_0;
            let mut i: usize = 0;
            while i < members.len()
                invariant
                    i <= members.len(),
                    value_tree(*value) == JsonTree::Object(tree),
                    is_layer_of(JsonLayer::Object(members), value_tree(*value)),
                    member_trees(r@).submap_of(tree),
                    forall|j: int| 0 <= j < i ==> member_trees(r@).dom().contains(
                        (#[trigger] members@[j]).0@,
                    ),
                decreases members.len() - i,
            {
                let (name, part) = members[i];
                assert(lookup(tree, members@[i as int].0@) == Some(value_tree(*members@[i as int].1)));
                assert(decreases_to!(value_tree(*value) => tree[name@]));
                let json = json_of_value(part);
                let ghost before = r@;
                r.push((name.clone(), json));
                assert(r@.drop_last() == before);
                i += 1;
            }
            assert forall|k: Seq<char>| tree.dom().contains(k) implies member_trees(
                r@,
            ).dom().contains(k) by {
                let j = choose|j: int|
                    0 <= j < members@.len() && (#[trigger] members@[j]).0@ == k;
                assert(member_trees(r@).dom().contains(members@[j].0@));
            }
            assert(member_trees(r@).dom() =~= tree.dom());
            assert(member_trees(r@) =~= tree);
            Json::Object(r)
        },
    }
}

/// Reads a text as JSON.
pub fn parse_json(text: &str) -> (r: Option<Json>)
    ensures
        parsed_tree(text@) == match r {
            Some(json) => Some(json@),
            None => None,
        },
{
    match value_from_str(text) {
        Ok(value) => Some(json_of_value(&value)),
        Err(_) => None,
    }
}

}
