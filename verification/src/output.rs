//! The assembly of one nested document from results that are addressed by
//! dotted paths.

use vstd::prelude::*;
use crate::error::EngineError;
use crate::output::laws::{blocked, found, lemma_found_after_merge, merged_onto};

pub mod laws;

verus! {

/// `serde_json::Value`, of which nothing is known but what `value_node`
/// names.
#[verifier::external_type_specification]
#[verifier::external_body]
pub struct ExJsonValue(serde_json::Value);

/// `serde_json::Map`, of which nothing is known but what `map_entries`
/// names.
#[verifier::external_type_specification]
#[verifier::external_body]
#[verifier::reject_recursive_types(K)]
#[verifier::reject_recursive_types(V)]
pub struct ExJsonMap<K, V>(serde_json::Map<K, V>);

/// The document that the results are merged into: an object whose members
/// keep the order in which their keys were first inserted.
pub type OutputDocument = serde_json::Map<String, serde_json::Value>;

/// What a JSON value holds.
pub enum Node {
    Null,
    Bool(bool),
    /// A number, as the text that is written for it.
    Number(Seq<char>),
    Text(Seq<char>),
    Array(Seq<Node>),
    Object(Seq<(Seq<char>, Node)>),
}

/// What a `serde_json::Value` holds.
pub uninterp spec fn value_node(v: serde_json::Value) -> Node;

/// The members of a `serde_json::Map`, each key with what its value holds,
/// in the order in which the map hands them out.
pub uninterp spec fn map_entries(m: serde_json::Map<String, serde_json::Value>) -> Seq<
    (Seq<char>, Node),
>;

/// What each of some values holds.
pub open spec fn nodes_of(values: Seq<serde_json::Value>) -> Seq<Node> {
    values.map_values(|v: serde_json::Value| value_node(v))
}

/// Whether a member has the key.
pub open spec fn has_key(entries: Seq<(Seq<char>, Node)>, key: Seq<char>) -> bool {
    exists|i: int| 0 <= i < entries.len() && (#[trigger] entries[i]).0 == key
}

/// The place of a member with the key.
pub open spec fn key_place(entries: Seq<(Seq<char>, Node)>, key: Seq<char>) -> int {
    choose|i: int| 0 <= i < entries.len() && (#[trigger] entries[i]).0 == key
}

/// What the member with the key holds.
pub open spec fn held(entries: Seq<(Seq<char>, Node)>, key: Seq<char>) -> Node {
    entries[key_place(entries, key)].1
}

/// Whether no two members have one key.
pub open spec fn distinct_keys(entries: Seq<(Seq<char>, Node)>) -> bool {
    forall|i: int, j: int|
        0 <= i < j < entries.len() ==> (#[trigger] entries[i]).0 != (#[trigger] entries[j]).0
}

/// Whether no object in a value holds a key twice, at any depth. This is so
/// of what every `serde_json::Map` and every `serde_json::Value` holds: a
/// map has one member for a key.
pub open spec fn well_formed(node: Node) -> bool
    decreases node,
{
    match node {
        Node::Object(members) => distinct_keys(members) && forall|i: int|
            0 <= i < members.len() ==> well_formed(#[trigger] members[i].1),
        Node::Array(items) => forall|i: int| 0 <= i < items.len() ==> well_formed(#[trigger] items[i]),
        _ => true,
    }
}

/// The members after the key is given a value: a member with the key keeps
/// its place, a new member comes last.
pub open spec fn put(entries: Seq<(Seq<char>, Node)>, key: Seq<char>, node: Node) -> Seq<
    (Seq<char>, Node),
> {
    if has_key(entries, key) {
        entries.update(key_place(entries, key), (key, node))
    } else {
        entries.push((key, node))
    }
}

/// The place of the first `c` in `s`, and the length of `s` where it holds
/// none.
pub open spec fn first_index_of(s: Seq<char>, c: char) -> int
    decreases s.len(),
{
    if s.len() == 0 || s[0] == c {
        0
    } else {
        1 + first_index_of(s.skip(1), c)
    }
}

/// What is appended to an array on which a value is merged: the elements of
/// an array, and any other value as one element.
pub open spec fn appended(val: Node) -> Seq<Node> {
    match val {
        Node::Array(items) => items,
        _ => seq![val],
    }
}

/// The members after a value is merged under a key: set where the key is
/// free, appended where the key holds an array, and else put in the place of
/// what the key held.
pub open spec fn placed(entries: Seq<(Seq<char>, Node)>, key: Seq<char>, val: Node) -> Seq<
    (Seq<char>, Node),
> {
    if has_key(entries, key) {
        match held(entries, key) {
            Node::Array(items) => put(entries, key, Node::Array(items + appended(val))),
            _ => put(entries, key, val),
        }
    } else {
        put(entries, key, val)
    }
}

/// Whether a path holds a dot, at which it is split.
pub open spec fn has_dot(path: Seq<char>) -> bool {
    0 <= first_index_of(path, '.') < path.len()
}

/// The first segment of a path that holds a dot: what stands before its
/// first dot.
pub open spec fn head(path: Seq<char>) -> Seq<char> {
    path.take(first_index_of(path, '.'))
}

/// The rest of a path that holds a dot: what stands after its first dot.
pub open spec fn tail(path: Seq<char>) -> Seq<char> {
    path.skip(first_index_of(path, '.') + 1)
}

/// The members after a value is merged at a dotted path. The path is split
/// at each dot. Every segment but the last names an object to descend into,
/// which is made where the key is free; where the key holds a value that is
/// no object, nothing changes. The last segment is the key under which the
/// value is merged.
pub open spec fn merged(entries: Seq<(Seq<char>, Node)>, path: Seq<char>, val: Node) -> Seq<
    (Seq<char>, Node),
>
    decreases path.len(),
{
    if has_dot(path) {
        if has_key(entries, head(path)) {
            match held(entries, head(path)) {
                Node::Object(members) => put(
                    entries,
                    head(path),
                    Node::Object(merged(members, tail(path), val)),
                ),
                _ => entries,
            }
        } else {
            put(entries, head(path), Node::Object(merged(Seq::empty(), tail(path), val)))
        }
    } else {
        placed(entries, path, val)
    }
}

/// `serde_json::Map::new`: a map without members.
#[verifier::external_body]
fn document_new() -> (m: serde_json::Map<String, serde_json::Value>)
    ensures
        map_entries(m) == Seq::<(Seq<char>, Node)>::empty(),
{
    serde_json::Map::new()
}

/// `serde_json::Map::contains_key`: whether a member has the key.
#[verifier::external_body]
fn document_contains_key(m: &serde_json::Map<String, serde_json::Value>, key: &str) -> (r: bool)
    ensures
        r == has_key(map_entries(*m), key@),
{
    m.contains_key(key)
}

/// `serde_json::Map::insert`, with the crate's feature `preserve_order`: a
/// member with the key keeps its place and gets the value; where there is
/// none, a new member comes last. The map holds no key twice, at any depth,
/// before and after.
#[verifier::external_body]
fn document_insert(
    m: &mut serde_json::Map<String, serde_json::Value>,
    key: String,
    val: serde_json::Value,
)
    ensures
        map_entries(*final(m)) == put(map_entries(*old(m)), key@, value_node(val)),
        well_formed(Node::Object(map_entries(*old(m)))),
        well_formed(Node::Object(map_entries(*final(m)))),
{
    m.insert(key, val);
}

/// `serde_json::Map::get_mut`: the value of the member with the key, to be
/// changed in place, and `None` where no member has the key. The map ends as
/// it was but for what that value has become. It holds no key twice, at any
/// depth, before and after.
#[verifier::external_body]
fn document_get_mut<'a>(m: &'a mut serde_json::Map<String, serde_json::Value>, key: &str) -> (r:
    Option<&'a mut serde_json::Value>)
    ensures
        well_formed(Node::Object(map_entries(*old(m)))),
        well_formed(Node::Object(map_entries(*final(m)))),
        match r {
            Some(v) => {
                &&& has_key(map_entries(*old(m)), key@)
                &&& value_node(*v) == held(map_entries(*old(m)), key@)
                &&& map_entries(*final(m)) == put(map_entries(*old(m)), key@, value_node(*final(v)))
            },
            None => !has_key(map_entries(*old(m)), key@) && *final(m) == *old(m),
        },
{
    m.get_mut(key)
}

/// `serde_json::Value::as_object_mut`: the map of an object, to be changed in
/// place, and `None` for any other value, which stays as it was.
#[verifier::external_body]
fn as_object_mut<'a>(v: &'a mut serde_json::Value) -> (r: Option<
    &'a mut serde_json::Map<String, serde_json::Value>,
>)
    ensures
        match r {
            Some(members) => value_node(*old(v)) == Node::Object(map_entries(*members))
                && value_node(*final(v)) == Node::Object(map_entries(*final(members))),
            None => !(value_node(*old(v)) is Object) && *final(v) == *old(v),
        },
{
    v.as_object_mut()
}

/// `serde_json::Value::as_array_mut`: the elements of an array, to be changed
/// in place, and `None` for any other value, which stays as it was.
#[verifier::external_body]
fn as_array_mut<'a>(v: &'a mut serde_json::Value) -> (r: Option<&'a mut Vec<serde_json::Value>>)
    ensures
        match r {
            Some(items) => value_node(*old(v)) == Node::Array(nodes_of(items@)) && value_node(
                *final(v),
            ) == Node::Array(nodes_of(final(items)@)),
            None => !(value_node(*old(v)) is Array) && *final(v) == *old(v),
        },
{
    v.as_array_mut()
}

/// Tells the variant `serde_json::Value::Array` from the others: the
/// elements of an array, and any other value back as it is.
#[verifier::external_body]
fn into_array(v: serde_json::Value) -> (r: Result<Vec<serde_json::Value>, serde_json::Value>)
    ensures
        match r {
            Ok(items) => value_node(v) == Node::Array(nodes_of(items@)),
            Err(other) => other == v && !(value_node(v) is Array),
        },
{
    match v {
        serde_json::Value::Array(items) => Ok(items),
        other => Err(other),
    }
}

/// The variant `serde_json::Value::Object`: the object with the members of
/// the map.
#[verifier::external_body]
fn object(m: serde_json::Map<String, serde_json::Value>) -> (v: serde_json::Value)
    ensures
        value_node(v) == Node::Object(map_entries(m)),
{
    serde_json::Value::Object(m)
}

/// `str::split_once` with a character: the text before the first delimiter
/// and the text after it, and `None` where the text holds no delimiter.
#[verifier::external_body]
fn split_once(text: &str, delimiter: char) -> (r: Option<(&str, &str)>)
    ensures
        match r {
            Some((head, tail)) => !head@.contains(delimiter) && text@ == head@ + seq![delimiter]
                + tail@,
            None => !text@.contains(delimiter),
        },
{
    text.split_once(delimiter)
}

/// The first `c` of a text stands where the part before it ends that holds
/// none.
pub proof fn lemma_first_index_of_split(text: Seq<char>, head: Seq<char>, tail: Seq<char>, c: char)
    requires
        !head.contains(c),
        text == head + seq![c] + tail,
    ensures
        first_index_of(text, c) == head.len(),
        text.take(head.len() as int) == head,
        text.skip(head.len() as int + 1) == tail,
    decreases head.len(),
{
    if head.len() > 0 {
        assert(head[0] != c);
        assert forall|i: int| 0 <= i < head.skip(1).len() implies head.skip(1)[i] != c by {
            assert(head[i + 1] == head.skip(1)[i]);
        }
        assert(text.skip(1) =~= head.skip(1) + seq![c] + tail);
        lemma_first_index_of_split(text.skip(1), head.skip(1), tail, c);
        assert(text[0] == head[0]);
    } else {
        assert(text[0] == c);
    }
    assert(text.take(head.len() as int) =~= head);
    assert(text.skip(head.len() as int + 1) =~= tail);
}

/// A text that holds no `c` has its first `c` at its length.
pub proof fn lemma_first_index_of_none(text: Seq<char>, c: char)
    requires
        !text.contains(c),
    ensures
        first_index_of(text, c) == text.len(),
    decreases text.len(),
{
    if text.len() > 0 {
        assert(text[0] != c);
        assert forall|i: int| 0 <= i < text.skip(1).len() implies text.skip(1)[i] != c by {
            assert(text[i + 1] == text.skip(1)[i]);
        }
        lemma_first_index_of_none(text.skip(1), c);
    }
}

/// Merges one value into the document at a dotted path. Unless the path
/// leads through a value that is no object, in which case nothing changes,
/// the document then holds at the path the value, or, where a list stood
/// there, that list with the value appended.
pub fn set_output_value(m: &mut OutputDocument, path: &str, val: serde_json::Value)
    ensures
        map_entries(*final(m)) == merged(map_entries(*old(m)), path@, value_node(val)),
        well_formed(Node::Object(map_entries(*old(m)))),
        well_formed(Node::Object(map_entries(*final(m)))),
        blocked(map_entries(*old(m)), path@) ==> map_entries(*final(m)) == map_entries(*old(m)),
        !blocked(map_entries(*old(m)), path@) ==> found(map_entries(*final(m)), path@) == Some(
            merged_onto(found(map_entries(*old(m)), path@), value_node(val)),
        ),
    decreases path@.len(),
{
    let ghost before = map_entries(*m);
    match split_once(path, '.') {
        Some((current_key, remaining_path)) => {
            proof {
                lemma_first_index_of_split(path@, current_key@, remaining_path@, '.');
            }
            if !document_contains_key(m, current_key) {
                document_insert(m, current_key.to_owned(), object(document_new()));
            }
            match document_get_mut(m, current_key) {
                Some(v) => match as_object_mut(v) {
                    Some(sub_map) => {
                        set_output_value(sub_map, remaining_path, val);
                    },
                    None => {},
                },
                None => {},
            }
            proof {
                lemma_found_after_merge(before, path@, value_node(val));
            }
        },
        None => {
            proof {
                lemma_first_index_of_none(path@, '.');
            }
            match document_get_mut(m, path) {
                Some(existing_val) => match as_array_mut(existing_val) {
                    Some(items) => {
                        let ghost held = nodes_of(items@);
                        match into_array(val) {
                            Ok(mut new_arr) => {
                                let ghost added = nodes_of(new_arr@);
                                items.append(&mut new_arr);
                                assert(nodes_of(items@) =~= held + added);
                            },
                            Err(other) => {
                                items.push(other);
                                assert(nodes_of(items@) =~= held + seq![value_node(val)]);
                            },
                        }
                        proof {
                            lemma_found_after_merge(before, path@, value_node(val));
                        }
                        return;
                    },
                    None => {},
                },
                None => {},
            }
            proof {
                if has_key(before, path@) {
                    lemma_put_same(before, path@);
                }
            }
            document_insert(m, path.to_owned(), val);
            proof {
                lemma_found_after_merge(before, path@, value_node(val));
            }
        },
    }
}

/// Putting under a key what the key holds changes nothing.
pub proof fn lemma_put_same(entries: Seq<(Seq<char>, Node)>, key: Seq<char>)
    requires
        has_key(entries, key),
    ensures
        put(entries, key, held(entries, key)) == entries,
{
    let i = key_place(entries, key);
    assert(entries.update(i, (key, entries[i].1)) =~= entries);
}

/// What a flat map of results holds: each path with what its value holds.
pub open spec fn results_of(map: Seq<(String, serde_json::Value)>) -> Seq<(Seq<char>, Node)> {
    map.map_values(|entry: (String, serde_json::Value)| (entry.0@, value_node(entry.1)))
}

/// The members after the first `upto` results of a flat map are merged, one
/// after the other.
pub open spec fn merged_map(
    entries: Seq<(Seq<char>, Node)>,
    results: Seq<(Seq<char>, Node)>,
    upto: int,
) -> Seq<(Seq<char>, Node)>
    decreases upto,
{
    if upto <= 0 {
        entries
    } else {
        merged(merged_map(entries, results, upto - 1), results[upto - 1].0, results[upto - 1].1)
    }
}

/// The members of the document that the first `upto` flat maps build, one
/// after the other, from a document without members.
pub open spec fn built(maps: Seq<Seq<(Seq<char>, Node)>>, upto: int) -> Seq<(Seq<char>, Node)>
    decreases upto,
{
    if upto <= 0 {
        Seq::empty()
    } else {
        merged_map(built(maps, upto - 1), maps[upto - 1], maps[upto - 1].len() as int)
    }
}

/// What each of some flat maps holds.
pub open spec fn maps_of(output_results: Seq<Vec<(String, serde_json::Value)>>) -> Seq<
    Seq<(Seq<char>, Node)>,
> {
    output_results.map_values(|map: Vec<(String, serde_json::Value)>| results_of(map@))
}

/// Builds the document of the results of many evaluations: every result of
/// every flat map is merged at its path, the maps in their order and the
/// results of a map in theirs.
pub fn build_output(output_results: Vec<Vec<(String, serde_json::Value)>>) -> (r: Result<
    OutputDocument,
    EngineError,
>)
    ensures
        r matches Ok(output) && map_entries(output) == built(
            maps_of(output_results@),
            output_results@.len() as int,
        ) && well_formed(Node::Object(map_entries(output))),
{
    let mut output = document_new();
    let ghost all = output_results@;
    let ghost maps = maps_of(all);
    for result in outer: output_results
        invariant
            outer.seq() == all,
            maps == maps_of(all),
            map_entries(output) == built(maps, outer.index()),
            well_formed(Node::Object(map_entries(output))),
    {
        let ghost one = result@;
        let ghost results = results_of(one);
        let ghost start = map_entries(output);
        assert(maps[outer.index()] == results);
        for entry in inner: result
            invariant
                inner.seq() == one,
                results == results_of(one),
                map_entries(output) == merged_map(start, results, inner.index()),
                well_formed(Node::Object(map_entries(output))),
        {
            let (k, v) = entry;
            assert(results[inner.index()] == (k@, value_node(v)));
            set_output_value(&mut output, k.as_str(), v);
        }
    }
    Ok(output)
}

} // verus!
