//! What holds of every merge: keys keep the places of their first insertion,
//! and a value is found again at the path at which it was merged.

use vstd::prelude::*;
use crate::output::{
    Node,
    appended,
    built,
    distinct_keys,
    has_dot,
    has_key,
    head,
    held,
    key_place,
    merged,
    merged_map,
    placed,
    put,
    tail,
    well_formed,
};

verus! {

/// What stands at a dotted path, and `None` where a segment of the path
/// names no member, or a segment before the last names a value that is no
/// object.
pub open spec fn found(entries: Seq<(Seq<char>, Node)>, path: Seq<char>) -> Option<Node>
    decreases path.len(),
{
    if has_dot(path) {
        if has_key(entries, head(path)) {
            match held(entries, head(path)) {
                Node::Object(members) => found(members, tail(path)),
                _ => None,
            }
        } else {
            None
        }
    } else if has_key(entries, path) {
        Some(held(entries, path))
    } else {
        None
    }
}

/// Whether a segment before the last names a value that is no object.
pub open spec fn blocked(entries: Seq<(Seq<char>, Node)>, path: Seq<char>) -> bool
    decreases path.len(),
{
    has_dot(path) && has_key(entries, head(path)) && match held(entries, head(path)) {
        Node::Object(members) => blocked(members, tail(path)),
        _ => true,
    }
}

/// What a merge leaves at its path: the array that stood there with the
/// value appended, and else the value.
pub open spec fn merged_onto(held: Option<Node>, val: Node) -> Node {
    match held {
        Some(Node::Array(items)) => Node::Array(items + appended(val)),
        _ => val,
    }
}

/// A merge keeps every key at its place and adds at most one key, at the end:
/// the keys of an object stand in the order of their first insertion.
pub proof fn lemma_merged_keeps_places(entries: Seq<(Seq<char>, Node)>, path: Seq<char>, val: Node)
    ensures
        entries.len() <= merged(entries, path, val).len() <= entries.len() + 1,
        forall|i: int|
            0 <= i < entries.len() ==> (#[trigger] merged(entries, path, val)[i]).0 == entries[i].0,
{
}

/// Giving a key a value keeps the keys distinct, and the key is then held at
/// one place, with that value.
pub proof fn lemma_put_distinct(entries: Seq<(Seq<char>, Node)>, key: Seq<char>, node: Node)
    requires
        distinct_keys(entries),
    ensures
        distinct_keys(put(entries, key, node)),
        has_key(put(entries, key, node), key),
        put(entries, key, node)[key_place(put(entries, key, node), key)] == (key, node),
        forall|other: Seq<char>|
            other != key ==> has_key(put(entries, key, node), other) == has_key(entries, other),
        forall|other: Seq<char>|
            other != key && has_key(entries, other) ==> key_place(put(entries, key, node), other)
                == key_place(entries, other) && put(entries, key, node)[key_place(
                entries,
                other,
            )] == entries[key_place(entries, other)],
{
    let after = put(entries, key, node);
    let at = if has_key(entries, key) {
        key_place(entries, key)
    } else {
        entries.len() as int
    };
    assert(after[at] == (key, node));
    assert(has_key(after, key));
    assert(key_place(after, key) == at);
    assert forall|other: Seq<char>| other != key implies has_key(after, other) == has_key(
        entries,
        other,
    ) by {
        if has_key(entries, other) {
            let w = key_place(entries, other);
            assert(after[w].0 == other);
        }
        if has_key(after, other) {
            let w = key_place(after, other);
            assert(entries[w].0 == other);
        }
    }
    assert forall|other: Seq<char>| other != key && has_key(entries, other) implies key_place(
        after,
        other,
    ) == key_place(entries, other) && after[key_place(entries, other)] == entries[key_place(
        entries,
        other,
    )] by {
        let w = key_place(entries, other);
        assert(after[w].0 == other);
        let v = key_place(after, other);
        assert(after[v].0 == other);
    }
}

/// A merge of a well-formed value into a well-formed object leaves a
/// well-formed object.
pub proof fn lemma_merged_well_formed(entries: Seq<(Seq<char>, Node)>, path: Seq<char>, val: Node)
    requires
        well_formed(Node::Object(entries)),
        well_formed(val),
    ensures
        well_formed(Node::Object(merged(entries, path, val))),
    decreases path.len(),
{
    if has_dot(path) {
        let key = head(path);
        if has_key(entries, key) {
            let at = key_place(entries, key);
            match entries[at].1 {
                Node::Object(members) => {
                    assert(well_formed(entries[at].1));
                    lemma_merged_well_formed(members, tail(path), val);
                    lemma_put_well_formed(
                        entries,
                        key,
                        Node::Object(merged(members, tail(path), val)),
                    );
                },
                _ => {},
            }
        } else {
            assert(well_formed(Node::Object(Seq::<(Seq<char>, Node)>::empty())));
            lemma_merged_well_formed(Seq::empty(), tail(path), val);
            lemma_put_well_formed(
                entries,
                key,
                Node::Object(merged(Seq::empty(), tail(path), val)),
            );
        }
    } else {
        lemma_merged_onto_well_formed(entries, path, val);
        if has_key(entries, path) {
            assert(placed(entries, path, val) == put(
                entries,
                path,
                merged_onto(Some(held(entries, path)), val),
            ));
        }
        lemma_put_well_formed(entries, path, merged_onto(found(entries, path), val));
    }
}

/// Giving a key a well-formed value leaves a well-formed object.
pub proof fn lemma_put_well_formed(entries: Seq<(Seq<char>, Node)>, key: Seq<char>, node: Node)
    requires
        well_formed(Node::Object(entries)),
        well_formed(node),
    ensures
        well_formed(Node::Object(put(entries, key, node))),
{
    lemma_put_distinct(entries, key, node);
    let after = put(entries, key, node);
    assert forall|i: int| 0 <= i < after.len() implies well_formed(#[trigger] after[i].1) by {
        if i < entries.len() && after[i] == entries[i] {
            assert(well_formed(entries[i].1));
        }
    }
}

/// What a merge leaves at its path is well-formed where the object and the
/// value are.
pub proof fn lemma_merged_onto_well_formed(entries: Seq<(Seq<char>, Node)>, key: Seq<char>, val: Node)
    requires
        well_formed(Node::Object(entries)),
        well_formed(val),
        !has_dot(key),
    ensures
        well_formed(merged_onto(found(entries, key), val)),
{
    if has_key(entries, key) {
        let at = key_place(entries, key);
        assert(well_formed(entries[at].1));
        match entries[at].1 {
            Node::Array(items) => {
                let all = items + appended(val);
                assert forall|i: int| 0 <= i < all.len() implies well_formed(#[trigger] all[i]) by {
                    if i < items.len() {
                        assert(well_formed(items[i]));
                    } else {
                        match val {
                            Node::Array(more) => {
                                assert(well_formed(more[i - items.len()]));
                            },
                            _ => {},
                        }
                    }
                }
            },
            _ => {},
        }
    }
}

/// A merge whose path leads through a value that is no object changes
/// nothing. Any other merge leaves at its path the value, or, where an array
/// stood there, that array with the value appended: the elements of a list,
/// in their order, and any other value as one element.
pub proof fn lemma_found_after_merge(entries: Seq<(Seq<char>, Node)>, path: Seq<char>, val: Node)
    requires
        well_formed(Node::Object(entries)),
    ensures
        blocked(entries, path) ==> merged(entries, path, val) == entries,
        !blocked(entries, path) ==> found(merged(entries, path, val), path) == Some(
            merged_onto(found(entries, path), val),
        ),
        !blocked(entries, path) ==> !blocked(merged(entries, path, val), path),
    decreases path.len(),
{
    if has_dot(path) {
        let key = head(path);
        if has_key(entries, key) {
            let at = key_place(entries, key);
            match entries[at].1 {
                Node::Object(members) => {
                    assert(well_formed(entries[at].1));
                    lemma_found_after_merge(members, tail(path), val);
                    let below = Node::Object(merged(members, tail(path), val));
                    lemma_put_distinct(entries, key, below);
                    if blocked(entries, path) {
                        assert(put(entries, key, below) =~= entries);
                    }
                },
                _ => {},
            }
        } else {
            let none = Seq::<(Seq<char>, Node)>::empty();
            assert(well_formed(Node::Object(none)));
            lemma_found_after_merge(none, tail(path), val);
            lemma_free_path(none, tail(path));
            lemma_put_distinct(entries, key, Node::Object(merged(none, tail(path), val)));
        }
    } else {
        lemma_put_distinct(entries, path, merged_onto(found(entries, path), val));
        if has_key(entries, path) {
            assert(placed(entries, path, val) == put(
                entries,
                path,
                merged_onto(Some(held(entries, path)), val),
            ));
        }
    }
}

/// Nothing is found in an object without members, and no path is blocked in
/// it.
pub proof fn lemma_free_path(entries: Seq<(Seq<char>, Node)>, path: Seq<char>)
    requires
        entries.len() == 0,
    ensures
        found(entries, path) is None,
        !blocked(entries, path),
{
}

/// Last writer wins: where no list stands at a path and a value that is no
/// list is merged there, a second value merged at the same path takes its
/// place.
pub proof fn lemma_last_writer_wins(
    entries: Seq<(Seq<char>, Node)>,
    path: Seq<char>,
    first: Node,
    second: Node,
)
    requires
        well_formed(Node::Object(entries)),
        well_formed(first),
        !blocked(entries, path),
        !(found(entries, path) matches Some(Node::Array(_))),
        !(first is Array),
    ensures
        found(merged(merged(entries, path, first), path, second), path) == Some(second),
{
    lemma_found_after_merge(entries, path, first);
    lemma_merged_well_formed(entries, path, first);
    lemma_found_after_merge(merged(entries, path, first), path, second);
}

/// Lists concatenate: where nothing stands at a path, two lists merged there
/// one after the other leave the elements of the first followed by those of
/// the second.
pub proof fn lemma_lists_concatenate(
    entries: Seq<(Seq<char>, Node)>,
    path: Seq<char>,
    first: Seq<Node>,
    second: Seq<Node>,
)
    requires
        well_formed(Node::Object(entries)),
        well_formed(Node::Array(first)),
        !blocked(entries, path),
        found(entries, path) is None,
    ensures
        found(
            merged(merged(entries, path, Node::Array(first)), path, Node::Array(second)),
            path,
        ) == Some(Node::Array(first + second)),
{
    lemma_found_after_merge(entries, path, Node::Array(first));
    lemma_merged_well_formed(entries, path, Node::Array(first));
    lemma_found_after_merge(merged(entries, path, Node::Array(first)), path, Node::Array(second));
}

/// A value that is no list, merged where a list stands, becomes its last
/// element.
pub proof fn lemma_scalar_is_appended(
    entries: Seq<(Seq<char>, Node)>,
    path: Seq<char>,
    items: Seq<Node>,
    val: Node,
)
    requires
        well_formed(Node::Object(entries)),
        found(entries, path) == Some(Node::Array(items)),
        !(val is Array),
    ensures
        found(merged(entries, path, val), path) == Some(Node::Array(items.push(val))),
{
    lemma_found_is_not_blocked(entries, path);
    lemma_found_after_merge(entries, path, val);
    assert(items + seq![val] =~= items.push(val));
}

/// A path at which something stands is not blocked.
pub proof fn lemma_found_is_not_blocked(entries: Seq<(Seq<char>, Node)>, path: Seq<char>)
    requires
        found(entries, path) is Some,
    ensures
        !blocked(entries, path),
    decreases path.len(),
{
    if has_dot(path) && has_key(entries, head(path)) {
        match held(entries, head(path)) {
            Node::Object(members) => {
                lemma_found_is_not_blocked(members, tail(path));
            },
            _ => {},
        }
    }
}

/// Whether every value of every flat map is well-formed.
pub open spec fn well_formed_results(maps: Seq<Seq<(Seq<char>, Node)>>) -> bool {
    forall|i: int, j: int|
        0 <= i < maps.len() && 0 <= j < maps[i].len() ==> well_formed(#[trigger] maps[i][j].1)
}

/// The results of a flat map, merged into a well-formed object, leave a
/// well-formed object.
pub proof fn lemma_merged_map_well_formed(
    entries: Seq<(Seq<char>, Node)>,
    results: Seq<(Seq<char>, Node)>,
    upto: int,
)
    requires
        well_formed(Node::Object(entries)),
        upto <= results.len(),
        forall|j: int| 0 <= j < results.len() ==> well_formed(#[trigger] results[j].1),
    ensures
        well_formed(Node::Object(merged_map(entries, results, upto))),
    decreases upto,
{
    if upto > 0 {
        lemma_merged_map_well_formed(entries, results, upto - 1);
        lemma_merged_well_formed(
            merged_map(entries, results, upto - 1),
            results[upto - 1].0,
            results[upto - 1].1,
        );
    }
}

/// The document built from well-formed results is well-formed, so that what
/// holds of a merge into a well-formed object holds of every step of the
/// building.
pub proof fn lemma_built_well_formed(maps: Seq<Seq<(Seq<char>, Node)>>, upto: int)
    requires
        upto <= maps.len(),
        well_formed_results(maps),
    ensures
        well_formed(Node::Object(built(maps, upto))),
    decreases upto,
{
    if upto > 0 {
        lemma_built_well_formed(maps, upto - 1);
        assert forall|j: int| 0 <= j < maps[upto - 1].len() implies well_formed(
            #[trigger] maps[upto - 1][j].1,
        ) by {}
        lemma_merged_map_well_formed(
            built(maps, upto - 1),
            maps[upto - 1],
            maps[upto - 1].len() as int,
        );
    }
}

} // verus!
