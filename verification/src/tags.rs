//! Tags: an event carries them as a list of `key:value` strings, and leaves the
//! source with an object from key to value in their place.

use vstd::prelude::*;
use vstd::string::StringExecFns;

use crate::json::{find_member, last_index, lemma_last_index, replace_at, Json};
use crate::text::{lemma_split_nonempty, split, split_on, texts};

verus! {

/// The key of a tag: what stands before its first colon.
pub open spec fn tag_key(tag: Seq<char>) -> Seq<char> {
    split_on(tag, ':')[0]
}

/// The value of a tag: what stands between its first colon and its second,
/// and the empty text where it has no colon.
pub open spec fn tag_value(tag: Seq<char>) -> Seq<char> {
    let pieces = split_on(tag, ':');
    if pieces.len() > 1 {
        pieces[1]
    } else {
        Seq::<char>::empty()
    }
}

/// The mapping that a tag list spells: each string in it gives its key the
/// value it names, a later one over an earlier one; what is no string gives
/// nothing.
pub open spec fn tag_map(tags: Seq<Json>) -> Map<Seq<char>, Seq<char>>
    decreases tags.len(),
{
    if tags.len() == 0 {
        Map::empty()
    } else {
        let before = tag_map(tags.drop_last());
        match tags.last() {
            Json::Str(s) => before.insert(tag_key(s@), tag_value(s@)),
            _ => before,
        }
    }
}

/// The members are the mapping `m`: each key of `m` once, with its value as a
/// string, and nothing else.
pub open spec fn holds_tags(members: Seq<(String, Json)>, m: Map<Seq<char>, Seq<char>>) -> bool {
    &&& forall|i: int|
        0 <= i < members.len() ==> m.contains_key((#[trigger] members[i]).0@)
            && members[i].1.spec_text() == Some(m[members[i].0@])
    &&& forall|i: int, j: int|
        0 <= i < j < members.len() ==> (#[trigger] members[i]).0@ != (#[trigger] members[j]).0@
    &&& forall|k: Seq<char>| #[trigger]
        m.contains_key(k) ==> exists|i: int|
            0 <= i < members.len() && (#[trigger] members[i]).0@ == k
}

/// The document is an object that is the mapping `m`.
pub open spec fn is_tag_object(doc: Json, m: Map<Seq<char>, Seq<char>>) -> bool {
    doc matches Json::Object(members) && holds_tags(members@, m)
}

/// The tag list of an event, where it has one: the array at `attributes.tags`.
pub open spec fn tags_of(event: Json) -> Option<Seq<Json>> {
    match event.spec_member("attributes"@) {
        Some(attributes) => match attributes.spec_member("tags"@) {
            Some(tags) => tags.spec_items(),
            None => None,
        },
        None => None,
    }
}

/// `after` is the object `before` with another document in the place of the
/// member that `key` names, and is like it in all else.
pub open spec fn member_replaced(before: Json, key: Seq<char>, after: Json) -> bool {
    match (before, after) {
        (Json::Object(b), Json::Object(a)) => match last_index(b@, key) {
            Some(i) => a@.len() == b@.len() && a@ == b@.update(i, (b@[i].0, a@[i].1)),
            None => false,
        },
        _ => false,
    }
}

/// The document that `after` has in the place of the member that `key` names
/// in `before`.
pub open spec fn replacement(before: Json, key: Seq<char>, after: Json) -> Json {
    match (before, after) {
        (Json::Object(b), Json::Object(a)) => match last_index(b@, key) {
            Some(i) => a@[i].1,
            None => Json::Null,
        },
        _ => Json::Null,
    }
}

/// `unpacked` is `event` with its tag list rewritten as a mapping: the very
/// event where it has no tag list; else like it but for `attributes.tags`,
/// which is an object that is the mapping its tag list spells.
pub open spec fn is_unpacked(event: Json, unpacked: Json) -> bool {
    match tags_of(event) {
        None => unpacked == event,
        Some(tags) => {
            let attributes = event.spec_member("attributes"@).unwrap();
            let new_attributes = replacement(event, "attributes"@, unpacked);
            &&& member_replaced(event, "attributes"@, unpacked)
            &&& member_replaced(attributes, "tags"@, new_attributes)
            &&& is_tag_object(
                replacement(attributes, "tags"@, new_attributes),
                tag_map(tags),
            )
        },
    }
}

/// The object that is the mapping a tag list spells.
pub fn build_tag_object(tags: &Vec<Json>) -> (doc: Json)
    ensures
        is_tag_object(doc, tag_map(tags@)),
{
    let mut members: Vec<(String, Json)> = Vec::new();
    let mut i: usize = 0;
    proof {
        assert(tags@.take(0) =~= Seq::<Json>::empty());
    }
    while i < tags.len()
        invariant
            i <= tags.len(),
            holds_tags(members@, tag_map(tags@.take(i as int))),
        decreases tags.len() - i,
    {
        let ghost m = tag_map(tags@.take(i as int));
        let ghost before = members@;
        proof {
            assert(tags@.take(i + 1).drop_last() =~= tags@.take(i as int));
            assert(tags@.take(i + 1).last() == tags@[i as int]);
        }
        match tags[i].as_str() {
            Some(s) => {
                let pieces = split(s, ':');
                proof {
                    lemma_split_nonempty(s@, ':');
                    assert(texts(pieces@).len() == pieces@.len());
                    assert(texts(pieces@)[0] == pieces@[0]@);
                    if pieces@.len() > 1 {
                        assert(texts(pieces@)[1] == pieces@[1]@);
                    }
                }
                let key = pieces[0].clone();
                let value = if pieces.len() > 1 {
                    pieces[1].clone()
                } else {
                    String::new()
                };
                let ghost k = key@;
                let ghost m2 = m.insert(k, value@);
                assert(k == tag_key(s@));
                assert(value@ == tag_value(s@));
                assert(tag_map(tags@.take(i + 1)) == m2);
                proof {
                    lemma_last_index(before, k);
                }
                match find_member(&members, key.as_str()) {
                    Some(at) => {
                        replace_at(&mut members, at, (key, Json::Str(value)));
                        proof {
                            let after = members@;
                            assert forall|x: int| 0 <= x < after.len() implies m2.contains_key(
                                (#[trigger] after[x]).0@,
                            ) && after[x].1.spec_text() == Some(m2[after[x].0@]) by {
                                if x != at {
                                    assert(after[x] == before[x]);
                                    assert(before[x].0@ != before[at as int].0@);
                                }
                            }
                            assert forall|x: int, y: int| 0 <= x < y < after.len() implies (
                            #[trigger] after[x]).0@ != (#[trigger] after[y]).0@ by {
                                assert(after[x].0@ == before[x].0@);
                                assert(after[y].0@ == before[y].0@);
                            }
                            assert forall|q: Seq<char>| #[trigger]
                                m2.contains_key(q) implies exists|x: int|
                                0 <= x < after.len() && (#[trigger] after[x]).0@ == q by {
                                if q == k {
                                    assert(after[at as int].0@ == q);
                                } else {
                                    assert(m.contains_key(q));
                                    let w = choose|x: int|
                                        0 <= x < before.len() && (#[trigger] before[x]).0@ == q;
                                    assert(after[w].0@ == q);
                                }
                            }
                        }
                    },
                    None => {
                        members.push((key, Json::Str(value)));
                        proof {
                            let after = members@;
                            let n = before.len() as int;
                            assert(after[n].0@ == k);
                            assert forall|x: int| 0 <= x < after.len() implies m2.contains_key(
                                (#[trigger] after[x]).0@,
                            ) && after[x].1.spec_text() == Some(m2[after[x].0@]) by {
                                if x < n {
                                    assert(after[x] == before[x]);
                                    assert(before[x].0@ != k);
                                }
                            }
                            assert forall|x: int, y: int| 0 <= x < y < after.len() implies (
                            #[trigger] after[x]).0@ != (#[trigger] after[y]).0@ by {
                                assert(after[x] == before[x]);
                                if y < n {
                                    assert(after[y] == before[y]);
                                }
                            }
                            assert forall|q: Seq<char>| #[trigger]
                                m2.contains_key(q) implies exists|x: int|
                                0 <= x < after.len() && (#[trigger] after[x]).0@ == q by {
                                if q == k {
                                    assert(after[n].0@ == q);
                                } else {
                                    assert(m.contains_key(q));
                                    let w = choose|x: int|
                                        0 <= x < before.len() && (#[trigger] before[x]).0@ == q;
                                    assert(after[w] == before[w]);
                                    assert(after[w].0@ == q);
                                }
                            }
                        }
                    },
                }
            },
            None => {
                assert(tag_map(tags@.take(i + 1)) == m);
            },
        }
        i = i + 1;
    }
    proof {
        assert(tags@.take(tags.len() as int) =~= tags@);
    }
    Json::Object(members)
}

/// Rewrites the tag list of an event as a mapping from key to value.
pub fn unpack_tags(event: Json) -> (unpacked: Json)
    ensures
        is_unpacked(event, unpacked),
{
    let tag_doc = match event.member("attributes") {
        Some(attributes) => match attributes.member("tags") {
            Some(tags) => match tags.as_array() {
                Some(items) => Some(build_tag_object(items)),
                None => None,
            },
            None => None,
        },
        None => None,
    };
    assert(tag_doc is None <==> tags_of(event) is None);
    match tag_doc {
        None => event,
        Some(doc) => {
            assert(is_tag_object(doc, tag_map(tags_of(event).unwrap())));
            match event {
                Json::Object(mut members) => {
                    let ghost outer = members@;
                    let found = find_member(&members, "attributes");
                    let at = found.unwrap();
                    let entry = members.remove(at);
                    match entry.1 {
                        Json::Object(mut inner) => {
                            let ghost before = inner@;
                            let tags_at = find_member(&inner, "tags").unwrap();
                            let tags_entry = inner.remove(tags_at);
                            inner.insert(tags_at, (tags_entry.0, doc));
                            proof {
                                assert(inner@ =~= before.update(
                                    tags_at as int,
                                    (before[tags_at as int].0, doc),
                                ));
                            }
                            let attributes = Json::Object(inner);
                            members.insert(at, (entry.0, attributes));
                            proof {
                                assert(members@ =~= outer.update(
                                    at as int,
                                    (outer[at as int].0, attributes),
                                ));
                            }
                            Json::Object(members)
                        },
                        other => {
                            proof {
                                assert(false);
                            }
                            other
                        },
                    }
                },
                other => {
                    proof {
                        assert(false);
                    }
                    other
                },
            }
        },
    }
}

} // verus!
