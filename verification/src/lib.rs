//! Tails a paginated, rate-limited log-search service: windows and queries,
//! deduplication, rate-limit bookkeeping, and routing of events to outputs.

use vstd::prelude::*;

pub mod json;
pub mod limits;
pub mod logs;
pub mod sink;
pub mod tags;
pub mod tailer;
pub mod text;

use crate::json::Json;
use crate::logs::{spec_next_link, SchemaError, SearchRequest, Timestamp};
use crate::text::{split, split_on, texts};

verus! {

/// A thing which knows how to talk to one endpoint of the service: which
/// searches to make, and what to take from the responses. The tailer does the
/// rest.
pub trait Source: Sized {
    /// Whether the source can be asked for a query at `now`.
    spec fn can_query(&self, now: Timestamp) -> bool;

    /// What `construct_query` does at `now`: `after` is the source after it,
    /// `request` its answer.
    spec fn queried(&self, now: Timestamp, after: Self, request: Option<SearchRequest>) -> bool;

    /// What `extract_results` does with the body of a response: `after` is
    /// the source after it, `results` its answer.
    spec fn extracted(
        &self,
        body: Json,
        after: Self,
        results: Result<Vec<Json>, SchemaError>,
    ) -> bool;

    /// The page size of the source.
    spec fn spec_batch_size(&self) -> usize;

    /// Whether the source can be asked for a query at `now`.
    fn ready(&self, now: Timestamp) -> (ready: bool)
        ensures
            ready == self.can_query(now),
    ;

    /// The next search to make, asked for at `now`. With none, the tailer
    /// stops.
    fn construct_query(&mut self, now: Timestamp) -> (request: Option<SearchRequest>)
        requires
            old(self).can_query(now),
        ensures
            old(self).queried(now, *final(self), request),
    ;

    /// The events of a response that are to be handed out. Where events can
    /// come twice, this is the place to drop them.
    fn extract_results(&mut self, body: Json) -> (results: Result<Vec<Json>, SchemaError>)
        ensures
            old(self).extracted(body, *final(self), results),
    ;

    /// The address of the next page of a response: the string at
    /// `links.next`, which is where the service puts it.
    fn extract_next(&self, body: &Json) -> (next: Result<Option<String>, SchemaError>)
        ensures
            match spec_next_link(*body) {
                Ok(Some(url)) => next matches Ok(Some(u)) && u@ == url,
                Ok(None) => next == Ok::<Option<String>, SchemaError>(None),
                Err(e) => next == Err::<Option<String>, SchemaError>(e),
            },
    ;

    /// The page size of the source, which is not zero.
    fn get_batch_size(&self) -> (size: usize)
        ensures
            size == self.spec_batch_size(),
            size > 0,
    ;
}

/// A dotted path into a document, such as `attributes.tags.pod_name`.
#[derive(Clone, Debug, PartialEq, Eq)]
pub struct JsonKey(pub Vec<String>);

/// The document that `path` leads to inside `doc`, one member lookup for each
/// segment; nothing as soon as a segment names no member.
pub open spec fn resolve(path: Seq<Seq<char>>, doc: Json) -> Option<Json>
    decreases path.len(),
{
    if path.len() == 0 {
        Some(doc)
    } else {
        match doc.spec_member(path[0]) {
            Some(inner) => resolve(path.skip(1), inner),
            None => None,
        }
    }
}

impl JsonKey {
    /// The segments of the path.
    pub open spec fn segments(self) -> Seq<Seq<char>> {
        texts(self.0@)
    }

    /// The path that a dotted string spells: its pieces between the dots.
    pub fn parse(s: &str) -> (key: JsonKey)
        ensures
            key.segments() == split_on(s@, '.'),
    {
        JsonKey(split(s, '.'))
    }

    /// Follows the path into `event`.
    pub fn get<'a>(&self, event: &'a Json) -> (found: Option<&'a Json>)
        ensures
            match found {
                Some(doc) => resolve(self.segments(), *event) == Some(*doc),
                None => resolve(self.segments(), *event) is None,
            },
    {
        let mut current: &'a Json = event;
        let mut i: usize = 0;
        proof {
            assert(self.segments().skip(0) =~= self.segments());
        }
        while i < self.0.len()
            invariant
                i <= self.0.len(),
                resolve(self.segments(), *event) == resolve(self.segments().skip(i as int), *current),
            decreases self.0.len() - i,
        {
            proof {
                assert(self.segments().skip(i as int)[0] == self.0@[i as int]@);
                assert(self.segments().skip(i as int).skip(1) =~= self.segments().skip(i + 1));
            }
            match current.member(self.0[i].as_str()) {
                Some(inner) => {
                    current = inner;
                },
                None => {
                    return None;
                },
            }
            i = i + 1;
        }
        Some(current)
    }
}

impl From<String> for JsonKey {
    /// The path that a dotted string spells.
    fn from(s: String) -> (key: JsonKey)
        ensures
            key.segments() == split_on(s@, '.'),
    {
        JsonKey::parse(s.as_str())
    }
}

impl vstd::std_specs::convert::FromSpecImpl<String> for JsonKey {
    open spec fn obeys_from_spec() -> bool {
        false
    }

    open spec fn from_spec(s: String) -> JsonKey {
        arbitrary()
    }
}

impl From<&str> for JsonKey {
    /// The path that a dotted string spells.
    fn from(s: &str) -> (key: JsonKey)
        ensures
            key.segments() == split_on(s@, '.'),
    {
        JsonKey::parse(s)
    }
}

impl vstd::std_specs::convert::FromSpecImpl<&str> for JsonKey {
    open spec fn obeys_from_spec() -> bool {
        false
    }

    open spec fn from_spec(s: &str) -> JsonKey {
        arbitrary()
    }
}

} // verus!
