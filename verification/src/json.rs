//! Semi-structured documents: the tree that an event record is, the lookups
//! that routing and formatting make in it, and its two text renderings.

use vstd::prelude::*;
use vstd::string::StringExecFns;

verus! {

/// A semi-structured document. A number that is no integer is carried as the
/// text that spells it; an object is a list of members in which a later member
/// hides an earlier one of the same name.
#[derive(Debug, PartialEq, Eq)]
pub enum Json {
    Null,
    Bool(bool),
    Int(i128),
    Real(String),
    Str(String),
    Array(Vec<Json>),
    Object(Vec<(String, Json)>),
}

/// Whether two strings hold the same text.
pub fn same_text(a: &str, b: &str) -> (same: bool)
    ensures
        same == (a@ == b@),
{
    let x = String::from_str(a);
    let y = String::from_str(b);
    x == y
}

/// The position of the member named `key` that a lookup finds: the last one.
pub open spec fn last_index(members: Seq<(String, Json)>, key: Seq<char>) -> Option<int>
    decreases members.len(),
{
    if members.len() == 0 {
        None
    } else if members.last().0@ == key {
        Some(members.len() - 1)
    } else {
        last_index(members.drop_last(), key)
    }
}

/// What `last_index` finds is the position of a member of that name, and it
/// finds nothing only where no member has the name.
pub proof fn lemma_last_index(members: Seq<(String, Json)>, key: Seq<char>)
    ensures
        match last_index(members, key) {
            Some(i) => 0 <= i < members.len() && members[i].0@ == key,
            None => forall|j: int| 0 <= j < members.len() ==> (#[trigger] members[j]).0@ != key,
        },
    decreases members.len(),
{
    if members.len() > 0 && members.last().0@ != key {
        let front = members.drop_last();
        lemma_last_index(front, key);
        if last_index(members, key) is None {
            assert forall|j: int| 0 <= j < members.len() implies (#[trigger] members[j]).0@
                != key by {
                if j < members.len() - 1 {
                    assert(front[j] == members[j]);
                }
            }
        }
    }
}

/// Puts `value` in the place of the item at `i`, and hands that item out.
pub fn replace_at<T>(v: &mut Vec<T>, i: usize, value: T) -> (former: T)
    requires
        i < old(v).len(),
    ensures
        former == old(v)@[i as int],
        final(v)@ == old(v)@.update(i as int, value),
{
    let former = v.remove(i);
    v.insert(i, value);
    proof {
        assert(v@ =~= old(v)@.update(i as int, value));
    }
    former
}

/// Executable `last_index`.
pub fn find_member(members: &Vec<(String, Json)>, key: &str) -> (found: Option<usize>)
    ensures
        match found {
            Some(i) => i < members.len() && last_index(members@, key@) == Some(i as int),
            None => last_index(members@, key@) is None,
        },
{
    let mut i: usize = members.len();
    proof {
        assert(members@.take(i as int) =~= members@);
    }
    while i > 0
        invariant
            i <= members.len(),
            last_index(members@, key@) == last_index(members@.take(i as int), key@),
        decreases i,
    {
        proof {
            assert(members@.take(i as int).drop_last() =~= members@.take(i - 1));
        }
        if same_text(members[i - 1].0.as_str(), key) {
            return Some(i - 1);
        }
        i = i - 1;
    }
    None
}

impl Json {
    /// The member of an object that `key` names; nothing for any other document.
    pub open spec fn spec_member(self, key: Seq<char>) -> Option<Json> {
        match self {
            Json::Object(members) => match last_index(members@, key) {
                Some(i) => Some(members@[i].1),
                None => None,
            },
            _ => None,
        }
    }

    /// The text of a string document.
    pub open spec fn spec_text(self) -> Option<Seq<char>> {
        match self {
            Json::Str(s) => Some(s@),
            _ => None,
        }
    }

    /// The items of an array document.
    pub open spec fn spec_items(self) -> Option<Seq<Json>> {
        match self {
            Json::Array(items) => Some(items@),
            _ => None,
        }
    }

    /// Looks up a member by name.
    pub fn member<'a>(&'a self, key: &str) -> (found: Option<&'a Json>)
        ensures
            match found {
                Some(m) => self.spec_member(key@) == Some(*m),
                None => self.spec_member(key@) is None,
            },
    {
        match self {
            Json::Object(members) => {
                match find_member(members, key) {
                    Some(i) => Some(&members[i].1),
                    None => None,
                }
            },
            _ => None,
        }
    }

    /// The text, where the document is a string.
    pub fn as_str<'a>(&'a self) -> (text: Option<&'a str>)
        ensures
            match text {
                Some(t) => self.spec_text() == Some(t@),
                None => self.spec_text() is None,
            },
    {
        match self {
            Json::Str(s) => Some(s.as_str()),
            _ => None,
        }
    }

    /// The items, where the document is an array.
    pub fn as_array<'a>(&'a self) -> (items: Option<&'a Vec<Json>>)
        ensures
            match items {
                Some(v) => self.spec_items() == Some(v@),
                None => self.spec_items() is None,
            },
    {
        match self {
            Json::Array(items) => Some(items),
            _ => None,
        }
    }
}

#[verifier::external_type_specification]
#[verifier::external_body]
pub struct ExValue(serde_json::Value);

/// The compact JSON text of a document, as `serde_json::to_string` writes it.
pub uninterp spec fn compact_text(doc: Json) -> Seq<char>;

/// The debug text of a document, as the `Debug` impl of `serde_json::Value`
/// writes it.
pub uninterp spec fn debug_text(doc: Json) -> Seq<char>;

/// Builds the `serde_json::Value` that a document stands for, variant by
/// variant: `Value::Null`, `Value::Bool`, `Number::from_i128`, `Value::String`,
/// `Value::Array` and `Value::Object`. An integer beyond 64 bits, or a real
/// whose text `serde_json::from_str` does not read, becomes `Value::Null`.
/// Nothing is claimed of the value.
#[verifier::external_body]
pub(crate) fn to_value(doc: &Json) -> serde_json::Value {
    match doc {
        Json::Null => serde_json::Value::Null,
        Json::Bool(b) => serde_json::Value::Bool(*b),
        Json::Int(i) => serde_json::Number::from_i128(*i).map(serde_json::Value::Number).unwrap_or_default(),
        Json::Real(text) => serde_json::from_str(text).unwrap_or_default(),
        Json::Str(s) => serde_json::Value::String(s.clone()),
        Json::Array(items) => serde_json::Value::Array(items.iter().map(to_value).collect()),
        Json::Object(members) => serde_json::Value::Object(
            members.iter().map(|m| (m.0.clone(), to_value(&m.1))).collect(),
        ),
    }
}

/// Calls `serde_json::to_string` on the value that the document stands for.
/// Trusted: the text is `compact_text` of the document, that is, it depends on
/// the document alone. Serialising a `Value` cannot fail: its keys are strings.
#[verifier::external_body]
pub(crate) fn render_compact(doc: &Json) -> (text: String)
    ensures
        text@ == compact_text(*doc),
{
    serde_json::to_string(&to_value(doc)).unwrap_or_default()
}

/// Formats the value that the document stands for with `{:?}`, the `Debug`
/// impl of `serde_json::Value`. Trusted: the text is `debug_text` of the
/// document, that is, it depends on the document alone.
#[verifier::external_body]
pub(crate) fn render_debug(doc: &Json) -> (text: String)
    ensures
        text@ == debug_text(*doc),
{
    format!("{:?}", to_value(doc))
}

} // verus!
