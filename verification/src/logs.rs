//! The log-search source: its time windows, its requests, what it takes from a
//! response, and how an event is written out.

use vstd::prelude::*;
use vstd::string::StringExecFns;

use vstd::hash_set::StringHashSet;

use crate::json::{compact_text, debug_text, find_member, render_compact, render_debug, Json};
use crate::tags::{is_unpacked, unpack_tags};
use crate::text::join;
use crate::{resolve, JsonKey, Source};

verus! {

/// An instant of UTC: whole seconds since the Unix epoch, and nanoseconds
/// within the second.
#[derive(Clone, Copy, Debug, PartialEq, Eq, Structural)]
pub struct Timestamp {
    pub secs: i64,
    pub nanos: u32,
}

/// The seconds by which each window of a follow reaches back over the one
/// before it.
pub const OVERLAP_SECS: i64 = 10;

impl Timestamp {
    /// This instant moved by `delta` seconds.
    pub open spec fn shifted(self, delta: int) -> Timestamp
        recommends
            i64::MIN <= self.secs + delta <= i64::MAX,
    {
        Timestamp { secs: (self.secs + delta) as i64, nanos: self.nanos }
    }
}

/// Windows that follow each other for ever, each reaching back ten seconds
/// over the end of the one before.
#[derive(Clone, Copy, Debug, PartialEq, Eq, Structural)]
pub struct Follow {
    pub next_window_start: Timestamp,
    pub next_window_end: Option<Timestamp>,
}

/// One window, then none.
#[derive(Clone, Copy, Debug, PartialEq, Eq, Structural)]
pub struct Snapshot {
    pub next_window_start: Timestamp,
    pub next_window_end: Option<Timestamp>,
}

impl Follow {
    /// The end of the next window, asked for at `now`: the end planned for it,
    /// or else `now`.
    pub open spec fn planned_end(self, now: Timestamp) -> Timestamp {
        match self.next_window_end {
            Some(end) => end,
            None => now,
        }
    }

    /// The window that `next` hands out at `now`.
    pub open spec fn spec_window(self, now: Timestamp) -> (Timestamp, Timestamp) {
        (self.next_window_start, self.planned_end(now))
    }

    /// The generator after `next` was asked at `now`.
    pub open spec fn spec_after(self, now: Timestamp) -> Follow {
        Follow {
            next_window_start: self.planned_end(now).shifted(-OVERLAP_SECS),
            next_window_end: None,
        }
    }

    /// Whether the start of the window after the next can be reckoned at `now`.
    pub open spec fn can_advance(self, now: Timestamp) -> bool {
        self.planned_end(now).secs - OVERLAP_SECS >= i64::MIN
    }

    /// The follow that `new` makes.
    pub open spec fn spec_new(now: Timestamp, initial_window: u64) -> Follow {
        Follow {
            next_window_start: now.shifted(-(initial_window as int)),
            next_window_end: Some(now),
        }
    }

    /// A follow started at `now` whose first window covers the `initial_window`
    /// seconds before it.
    pub fn new(now: Timestamp, initial_window: u64) -> (follow: Follow)
        requires
            now.secs - initial_window >= i64::MIN,
        ensures
            follow == Follow::spec_new(now, initial_window),
    {
        let start_secs: i64 = (now.secs as i128 - initial_window as i128) as i64;
        Follow {
            next_window_start: Timestamp { secs: start_secs, nanos: now.nanos },
            next_window_end: Some(now),
        }
    }

    /// A follow started at `now`, where the start of its first window can be
    /// reckoned.
    pub fn try_new(now: Timestamp, initial_window: u64) -> (follow: Option<Follow>)
        ensures
            follow == if now.secs - initial_window >= i64::MIN {
                Some(Follow::spec_new(now, initial_window))
            } else {
                None
            },
    {
        if now.secs as i128 - initial_window as i128 >= i64::MIN as i128 {
            Some(Follow::new(now, initial_window))
        } else {
            None
        }
    }

    /// Whether the start of the window after the next can be reckoned at
    /// `now`.
    pub fn ready(&self, now: Timestamp) -> (ready: bool)
        ensures
            ready == self.can_advance(now),
    {
        let end = match self.next_window_end {
            Some(end) => end,
            None => now,
        };
        end.secs >= i64::MIN + OVERLAP_SECS
    }

    /// Hands out the next window and plans the one after.
    pub fn next(&mut self, now: Timestamp) -> (window: Option<(Timestamp, Timestamp)>)
        requires
            old(self).can_advance(now),
        ensures
            window == Some(old(self).spec_window(now)),
            *final(self) == old(self).spec_after(now),
    {
        let start = self.next_window_start;
        let end = match self.next_window_end {
            Some(end) => end,
            None => now,
        };
        self.next_window_start = Timestamp { secs: end.secs - OVERLAP_SECS, nanos: end.nanos };
        self.next_window_end = None;
        Some((start, end))
    }
}

impl Snapshot {
    /// The snapshot that `new` makes.
    pub open spec fn spec_new(from: Timestamp, window: u64) -> Snapshot {
        Snapshot { next_window_start: from, next_window_end: Some(from.shifted(window as int)) }
    }

    /// The one window `[from, from + window)`, in seconds.
    pub fn new(from: Timestamp, window: u64) -> (snapshot: Snapshot)
        requires
            from.secs + window <= i64::MAX,
        ensures
            snapshot == Snapshot::spec_new(from, window),
    {
        let end_secs: i64 = (from.secs as i128 + window as i128) as i64;
        Snapshot {
            next_window_start: from,
            next_window_end: Some(Timestamp { secs: end_secs, nanos: from.nanos }),
        }
    }

    /// The one window `[from, from + window)`, where its end can be reckoned.
    pub fn try_new(from: Timestamp, window: u64) -> (snapshot: Option<Snapshot>)
        ensures
            snapshot == if from.secs + window <= i64::MAX {
                Some(Snapshot::spec_new(from, window))
            } else {
                None
            },
    {
        if from.secs as i128 + window as i128 <= i64::MAX as i128 {
            Some(Snapshot::new(from, window))
        } else {
            None
        }
    }

    /// The window that `next` hands out, if it is still to come.
    pub open spec fn spec_window(self) -> Option<(Timestamp, Timestamp)> {
        match self.next_window_end {
            Some(end) => Some((self.next_window_start, end)),
            None => None,
        }
    }

    /// The generator after `next` was asked.
    pub open spec fn spec_after(self) -> Snapshot {
        Snapshot { next_window_start: self.next_window_start, next_window_end: None }
    }

    /// Hands out the window the first time, and nothing after that.
    pub fn next(&mut self) -> (window: Option<(Timestamp, Timestamp)>)
        ensures
            window == old(self).spec_window(),
            *final(self) == old(self).spec_after(),
    {
        let start = self.next_window_start;
        let window = match self.next_window_end {
            Some(end) => Some((start, end)),
            None => None,
        };
        self.next_window_end = None;
        window
    }
}

/// The two ways of producing windows.
#[derive(Clone, Copy, Debug, PartialEq, Eq, Structural)]
pub enum WindowMode {
    Follow(Follow),
    Snapshot(Snapshot),
}

impl WindowMode {
    /// The window that `next_window` hands out at `now`.
    pub open spec fn spec_window(self, now: Timestamp) -> Option<(Timestamp, Timestamp)> {
        match self {
            WindowMode::Follow(f) => Some(f.spec_window(now)),
            WindowMode::Snapshot(s) => s.spec_window(),
        }
    }

    /// The mode after `next_window` was asked at `now`.
    pub open spec fn spec_after(self, now: Timestamp) -> WindowMode {
        match self {
            WindowMode::Follow(f) => WindowMode::Follow(f.spec_after(now)),
            WindowMode::Snapshot(s) => WindowMode::Snapshot(s.spec_after()),
        }
    }

    /// Whether the window after the next can be reckoned at `now`.
    pub open spec fn can_advance(self, now: Timestamp) -> bool {
        match self {
            WindowMode::Follow(f) => f.can_advance(now),
            WindowMode::Snapshot(_) => true,
        }
    }

    /// Whether the window after the next can be reckoned at `now`.
    pub fn ready(&self, now: Timestamp) -> (ready: bool)
        ensures
            ready == self.can_advance(now),
    {
        match self {
            WindowMode::Follow(f) => f.ready(now),
            WindowMode::Snapshot(_) => true,
        }
    }

    /// Hands out the next window, if the mode has one.
    pub fn next_window(&mut self, now: Timestamp) -> (window: Option<(Timestamp, Timestamp)>)
        requires
            old(self).can_advance(now),
        ensures
            window == old(self).spec_window(now),
            *final(self) == old(self).spec_after(now),
    {
        match self {
            WindowMode::Follow(f) => f.next(now),
            WindowMode::Snapshot(s) => s.next(),
        }
    }
}

/// A follow started at `t` with history `h` first hands out `[t - h, t)`,
/// whenever it is asked; and the window that any follow hands out after
/// another starts ten seconds before the end of that other, whenever each is
/// asked for.
pub proof fn lemma_follow_windows_overlap(
    t: Timestamp,
    h: u64,
    follow: Follow,
    now1: Timestamp,
    now2: Timestamp,
)
    requires
        t.secs - h >= i64::MIN,
        follow.can_advance(now1),
    ensures
        Follow::spec_new(t, h).spec_window(now1) == (t.shifted(-(h as int)), t),
        follow.spec_after(now1).spec_window(now2).0 == follow.spec_window(now1).1.shifted(
            -OVERLAP_SECS,
        ),
        follow.spec_window(now1).1.secs - follow.spec_after(now1).spec_window(now2).0.secs
            == OVERLAP_SECS,
        follow.spec_after(now1).spec_window(now2).0.nanos == follow.spec_window(now1).1.nanos,
{
}

/// A snapshot from `from` over `window` seconds hands out `[from, from +
/// window)` once and nothing after that, whenever it is asked.
pub proof fn lemma_snapshot_one_window(from: Timestamp, window: u64)
    requires
        from.secs + window <= i64::MAX,
    ensures
        Snapshot::spec_new(from, window).spec_window() == Some(
            (from, from.shifted(window as int)),
        ),
        Snapshot::spec_new(from, window).spec_after().spec_window() is None,
        Snapshot::spec_new(from, window).spec_after().spec_after() == Snapshot::spec_new(
            from,
            window,
        ).spec_after(),
{
}

/// How an event is written out.
#[derive(Clone, Debug, PartialEq, Eq)]
pub enum LogFormat {
    /// The values at `keys`, with `sep` between them.
    Text { sep: String, keys: Vec<JsonKey> },
    /// The whole event as compact JSON.
    Structured,
}

/// What stands in the place of a key that the event does not hold.
pub open spec fn missing_text() -> Seq<char> {
    "KEY_NOT_FOUND"@
}

/// The text of one field: a string as it is, any other document in its debug
/// form, and `KEY_NOT_FOUND` where the path leads nowhere.
pub open spec fn field_text(path: Seq<Seq<char>>, event: Json) -> Seq<char> {
    match resolve(path, event) {
        None => missing_text(),
        Some(Json::Str(s)) => s@,
        Some(other) => debug_text(other),
    }
}

/// The texts of the fields at `keys`, in order.
pub open spec fn field_texts(keys: Seq<JsonKey>, event: Json) -> Seq<Seq<char>> {
    Seq::new(keys.len(), |i: int| field_text(keys[i].segments(), event))
}

/// A key that leads nowhere in the event is written as `KEY_NOT_FOUND` in its
/// own place among the fields, and the other fields are written as they are
/// without it.
pub proof fn lemma_missing_field(keys: Seq<JsonKey>, event: Json, i: int)
    requires
        0 <= i < keys.len(),
        resolve(keys[i].segments(), event) is None,
    ensures
        field_texts(keys, event).len() == keys.len(),
        field_texts(keys, event)[i] == missing_text(),
        forall|j: int|
            0 <= j < keys.len() && j != i ==> #[trigger] field_texts(keys, event)[j] == field_text(
                keys[j].segments(),
                event,
            ),
{
}

impl Default for LogFormat {
    /// Timestamp, status and message of the event's attributes, with `" | "`
    /// between them.
    fn default() -> (format: LogFormat)
        ensures
            format matches LogFormat::Text { sep, keys } && sep@ == " | "@ && keys@.len() == 3
                && keys@[0].segments() == seq!["attributes"@, "timestamp"@]
                && keys@[1].segments() == seq!["attributes"@, "status"@]
                && keys@[2].segments() == seq!["attributes"@, "message"@],
    {
        let k0 = JsonKey(vec![String::from_str("attributes"), String::from_str("timestamp")]);
        let k1 = JsonKey(vec![String::from_str("attributes"), String::from_str("status")]);
        let k2 = JsonKey(vec![String::from_str("attributes"), String::from_str("message")]);
        proof {
            assert(k0.segments() =~= seq!["attributes"@, "timestamp"@]);
            assert(k1.segments() =~= seq!["attributes"@, "status"@]);
            assert(k2.segments() =~= seq!["attributes"@, "message"@]);
        }
        LogFormat::text(String::from_str(" | "), vec![k0, k1, k2])
    }
}

impl LogFormat {
    /// The line that `format` writes for `event`.
    pub open spec fn spec_format(self, event: Json) -> Seq<char> {
        match self {
            LogFormat::Text { sep, keys } => join(field_texts(keys@, event), sep@),
            LogFormat::Structured => compact_text(event),
        }
    }

    /// A field projection.
    pub fn text(sep: String, keys: Vec<JsonKey>) -> (format: LogFormat)
        ensures
            format == (LogFormat::Text { sep, keys }),
    {
        LogFormat::Text { sep, keys }
    }

    /// Writes `event` out as one line, without the line end.
    pub fn format(&self, event: &Json) -> (line: String)
        ensures
            line@ == self.spec_format(*event),
    {
        match self {
            LogFormat::Text { sep, keys } => Self::format_text(sep.as_str(), keys, event),
            LogFormat::Structured => Self::format_raw(event),
        }
    }

    /// The whole event as compact JSON.
    pub fn format_raw(event: &Json) -> (line: String)
        ensures
            line@ == compact_text(*event),
    {
        render_compact(event)
    }

    /// The text of the field at `key`.
    pub fn format_field(key: &JsonKey, event: &Json) -> (text: String)
        ensures
            text@ == field_text(key.segments(), *event),
    {
        match key.get(event) {
            Some(value) => match value.as_str() {
                Some(s) => String::from_str(s),
                None => render_debug(value),
            },
            None => String::from_str("KEY_NOT_FOUND"),
        }
    }

    /// The fields at `keys`, with `sep` between them.
    pub fn format_text(sep: &str, keys: &Vec<JsonKey>, event: &Json) -> (line: String)
        ensures
            line@ == join(field_texts(keys@, *event), sep@),
    {
        let mut output = String::new();
        let mut i: usize = 0;
        let ghost fields = field_texts(keys@, *event);
        while i < keys.len()
            invariant
                i <= keys.len(),
                fields == field_texts(keys@, *event),
                output@ == join(fields.take(i as int), sep@),
            decreases keys.len() - i,
        {
            proof {
                assert(fields.take(i + 1).drop_last() =~= fields.take(i as int));
                assert(fields.take(i + 1).last() == fields[i as int]);
                assert(fields.take(1)[0] == fields[0]);
            }
            if i > 0 {
                output.append(sep);
            }
            let field = Self::format_field(&keys[i], event);
            output.append(field.as_str());
            proof {
                assert(Seq::<char>::empty() + field@ =~= field@);
            }
            i = i + 1;
        }
        proof {
            assert(fields.take(keys.len() as int) =~= fields);
        }
        output
    }
}

/// The page size that the source asks for.
pub const BATCH_SIZE: usize = 1000;

/// What a response can lack of the shape that the source expects.
#[derive(Clone, Copy, Debug, PartialEq, Eq, Structural)]
pub enum SchemaError {
    /// The response has no `data`.
    NoResults,
    /// Its `data` is no array.
    ResultsNotList,
    /// An event in `data` has no `id` that is a string.
    EventWithoutId,
    /// Its `links.next` is no string.
    NextNotText,
    /// Its rate-limit headers are missing or spell no limits.
    LimitsUnreadable,
}

impl SchemaError {
    /// The text of `message`.
    pub open spec fn message_text(self) -> Seq<char> {
        match self {
            SchemaError::NoResults => "Log query has no data"@,
            SchemaError::ResultsNotList => "Log query data not a list"@,
            SchemaError::EventWithoutId => "Log event without an id"@,
            SchemaError::NextNotText => "Next url not a string"@,
            SchemaError::LimitsUnreadable => "Rate limit headers not readable"@,
        }
    }

    /// The fault in words.
    pub fn message(&self) -> (text: String)
        ensures
            text@ == self.message_text(),
    {
        match self {
            SchemaError::NoResults => String::from_str("Log query has no data"),
            SchemaError::ResultsNotList => String::from_str("Log query data not a list"),
            SchemaError::EventWithoutId => String::from_str("Log event without an id"),
            SchemaError::NextNotText => String::from_str("Next url not a string"),
            SchemaError::LimitsUnreadable => String::from_str("Rate limit headers not readable"),
        }
    }
}

/// One search: the window `[from, to)` of the query, and the page size.
#[derive(Clone, Debug, PartialEq, Eq)]
pub struct SearchRequest {
    pub url: String,
    pub from: Timestamp,
    pub to: Timestamp,
    pub query: String,
    pub limit: usize,
}

/// The text of an instant in RFC 3339, as `chrono::DateTime::<Utc>::to_rfc3339`
/// writes it for the instant that `chrono::DateTime::from_timestamp` makes of
/// the seconds and nanoseconds; nothing where it makes none of them.
pub uninterp spec fn rfc3339_text(secs: int, nanos: int) -> Option<Seq<char>>;

/// Calls `chrono::DateTime::from_timestamp` and, on the instant it gives,
/// `to_rfc3339`. Trusted: whether there is a text, and which, depends on the
/// two numbers alone.
#[verifier::external_body]
pub(crate) fn render_rfc3339(secs: i64, nanos: u32) -> (text: Option<String>)
    ensures
        match rfc3339_text(secs as int, nanos as int) {
            Some(t) => text matches Some(s) && s@ == t,
            None => text is None,
        },
{
    match chrono::DateTime::from_timestamp(secs, nanos) {
        Some(instant) => Some(instant.to_rfc3339()),
        None => None,
    }
}

/// `doc` is the body of a search: the window and the query under `filter`, the
/// page size under `page`, and the order by timestamp.
pub open spec fn is_search_body(
    doc: Json,
    from: Seq<char>,
    to: Seq<char>,
    query: Seq<char>,
    limit: int,
) -> bool {
    &&& doc matches Json::Object(top)
    &&& top@.len() == 3
    &&& top@[0].0@ == "filter"@
    &&& top@[0].1 matches Json::Object(filter)
    &&& filter@.len() == 3
    &&& filter@[0].0@ == "from"@
    &&& filter@[0].1.spec_text() == Some(from)
    &&& filter@[1].0@ == "to"@
    &&& filter@[1].1.spec_text() == Some(to)
    &&& filter@[2].0@ == "query"@
    &&& filter@[2].1.spec_text() == Some(query)
    &&& top@[1].0@ == "page"@
    &&& top@[1].1 matches Json::Object(page)
    &&& page@.len() == 1
    &&& page@[0].0@ == "limit"@
    &&& page@[0].1 == Json::Int(limit as i128)
    &&& top@[2].0@ == "sort"@
    &&& top@[2].1.spec_text() == Some("timestamp"@)
}

impl SearchRequest {
    /// The body to post, given the texts of the two ends of the window.
    pub fn body_with(&self, from: String, to: String) -> (doc: Json)
        ensures
            is_search_body(doc, from@, to@, self.query@, self.limit as int),
    {
        let filter = Json::Object(
            vec![
                (String::from_str("from"), Json::Str(from)),
                (String::from_str("to"), Json::Str(to)),
                (String::from_str("query"), Json::Str(self.query.clone())),
            ],
        );
        let page = Json::Object(vec![(String::from_str("limit"), Json::Int(self.limit as i128))]);
        Json::Object(
            vec![
                (String::from_str("filter"), filter),
                (String::from_str("page"), page),
                (String::from_str("sort"), Json::Str(String::from_str("timestamp"))),
            ],
        )
    }

    /// The body to post: the window in RFC 3339, the query, the page size and
    /// the order. None where an end of the window has no such text.
    pub fn body(&self) -> (doc: Option<Json>)
        ensures
            match (
                rfc3339_text(self.from.secs as int, self.from.nanos as int),
                rfc3339_text(self.to.secs as int, self.to.nanos as int),
            ) {
                (Some(from), Some(to)) => doc matches Some(d) && is_search_body(
                    d,
                    from,
                    to,
                    self.query@,
                    self.limit as int,
                ),
                _ => doc is None,
            },
    {
        match render_rfc3339(self.from.secs, self.from.nanos) {
            Some(from) => match render_rfc3339(self.to.secs, self.to.nanos) {
                Some(to) => Some(self.body_with(from, to)),
                None => None,
            },
            None => None,
        }
    }
}

/// The source of log events: where it searches and for what, which events it
/// has handed out, and the windows it searches in.
pub struct LogSource {
    pub search_url: String,
    pub query: String,
    pub seen_event_ids: StringHashSet,
    pub mode: WindowMode,
}

/// The events of a page: the array at `data`.
pub open spec fn page_events(body: Json) -> Option<Seq<Json>> {
    match body.spec_member("data"@) {
        Some(data) => data.spec_items(),
        None => None,
    }
}

/// The identifier of an event: the string at `id`.
pub open spec fn event_id(event: Json) -> Option<Seq<char>> {
    match event.spec_member("id"@) {
        Some(id) => id.spec_text(),
        None => None,
    }
}

/// Every event has an identifier.
pub open spec fn all_identified(events: Seq<Json>) -> bool {
    forall|i: int| 0 <= i < events.len() ==> event_id(#[trigger] events[i]) is Some
}

/// The identifiers of the events, in order.
pub open spec fn ids_of(events: Seq<Json>) -> Seq<Seq<char>> {
    Seq::new(events.len(), |i: int| event_id(events[i]).unwrap())
}

/// The identifiers seen once those of `ids` have joined `seen`.
pub open spec fn absorb(seen: Set<Seq<char>>, ids: Seq<Seq<char>>) -> Set<Seq<char>>
    decreases ids.len(),
{
    if ids.len() == 0 {
        seen
    } else {
        absorb(seen, ids.drop_last()).insert(ids.last())
    }
}

/// The positions of the events that are kept, in order: those whose
/// identifier is neither in `seen` nor that of an earlier event.
pub open spec fn kept(ids: Seq<Seq<char>>, seen: Set<Seq<char>>) -> Seq<int>
    decreases ids.len(),
{
    if ids.len() == 0 {
        Seq::<int>::empty()
    } else if absorb(seen, ids.drop_last()).contains(ids.last()) {
        kept(ids.drop_last(), seen)
    } else {
        kept(ids.drop_last(), seen).push(ids.len() - 1)
    }
}

/// The next-page address of a response: the string at `links.next`, none where
/// there is no such member, and an error where it is no string.
pub open spec fn spec_next_link(body: Json) -> Result<Option<Seq<char>>, SchemaError> {
    match body.spec_member("links"@) {
        None => Ok(None),
        Some(links) => match links.spec_member("next"@) {
            None => Ok(None),
            Some(next) => match next.spec_text() {
                Some(url) => Ok(Some(url)),
                None => Err(SchemaError::NextNotText),
            },
        },
    }
}

/// The error that `extract_results` answers a page with, if any.
pub open spec fn page_fault(body: Json) -> Option<SchemaError> {
    match body.spec_member("data"@) {
        None => Some(SchemaError::NoResults),
        Some(data) => match data.spec_items() {
            None => Some(SchemaError::ResultsNotList),
            Some(events) => if all_identified(events) {
                None
            } else {
                Some(SchemaError::EventWithoutId)
            },
        },
    }
}

/// `out` holds, in order, the events at the positions `picked`, each with its
/// tags unpacked.
pub open spec fn unpacked_picks(events: Seq<Json>, picked: Seq<int>, out: Seq<Json>) -> bool {
    &&& out.len() == picked.len()
    &&& forall|k: int|
        #![trigger picked[k]]
        #![trigger out[k]]
        0 <= k < out.len() ==> 0 <= picked[k] < events.len() && is_unpacked(
            events[picked[k]],
            out[k],
        )
}

/// What was picked among the first `n` events stays picked among the first
/// `n + 1`, alone or with the event at `n` behind it.
pub proof fn lemma_picks_extend(
    events: Seq<Json>,
    n: int,
    picked: Seq<int>,
    out: Seq<Json>,
    unpacked: Json,
)
    requires
        0 <= n < events.len(),
        unpacked_picks(events.take(n), picked, out),
        is_unpacked(events[n], unpacked),
    ensures
        unpacked_picks(events.take(n + 1), picked, out),
        unpacked_picks(events.take(n + 1), picked.push(n), out.push(unpacked)),
{
    let wider = events.take(n + 1);
    let more = out.push(unpacked);
    let picks = picked.push(n);
    assert forall|k: int|
        #![trigger picked[k]]
        #![trigger out[k]]
        0 <= k < out.len() implies 0 <= picked[k] < wider.len() && is_unpacked(
        wider[picked[k]],
        out[k],
    ) by {
        assert(events.take(n)[picked[k]] == wider[picked[k]]);
    }
    assert forall|k: int|
        #![trigger picks[k]]
        #![trigger more[k]]
        0 <= k < more.len() implies 0 <= picks[k] < wider.len() && is_unpacked(
        wider[picks[k]],
        more[k],
    ) by {
        if k < out.len() {
            assert(more[k] == out[k]);
            assert(picks[k] == picked[k]);
            assert(events.take(n)[picked[k]] == wider[picked[k]]);
        } else {
            assert(more[k] == unpacked);
            assert(picks[k] == n);
            assert(wider[n] == events[n]);
        }
    }
}

/// What `extract_results` does with a page: `before` and `after` are the
/// source, `results` the answer. A page with a fault is refused with that
/// fault and nothing more is seen; of any other the events not seen before
/// are handed out, unpacked, and their identifiers are seen from then on.
pub open spec fn took_page(
    before: LogSource,
    body: Json,
    after: LogSource,
    results: Result<Vec<Json>, SchemaError>,
) -> bool {
    &&& after.same_search(before)
    &&& match page_fault(body) {
        Some(fault) => results == Err::<Vec<Json>, SchemaError>(fault) && after.seen()
            == before.seen(),
        None => {
            let events = page_events(body).unwrap();
            &&& results matches Ok(out) && unpacked_picks(
                events,
                kept(ids_of(events), before.seen()),
                out@,
            )
            &&& after.seen() == absorb(before.seen(), ids_of(events))
        },
    }
}

/// The items of `v`, last first.
pub fn reversed<T>(v: Vec<T>) -> (r: Vec<T>)
    ensures
        r@.len() == v@.len(),
        forall|i: int| 0 <= i < r@.len() ==> r@[i] == v@[v@.len() - 1 - i],
{
    let mut v = v;
    let ghost v0 = v@;
    let mut r: Vec<T> = Vec::new();
    while v.len() > 0
        invariant
            v@.len() + r@.len() == v0.len(),
            v@ == v0.take(v@.len() as int),
            forall|i: int| 0 <= i < r@.len() ==> r@[i] == v0[v0.len() - 1 - i],
        decreases v.len(),
    {
        let item = v.pop().unwrap();
        r.push(item);
        proof {
            assert(v@ =~= v0.take(v@.len() as int));
        }
    }
    r
}

impl LogSource {
    /// The identifiers of the events handed out so far.
    pub open spec fn seen(self) -> Set<Seq<char>> {
        self.seen_event_ids@
    }

    /// Two sources that differ at most in what they have seen.
    pub open spec fn same_search(self, other: LogSource) -> bool {
        &&& self.search_url == other.search_url
        &&& self.query == other.query
        &&& self.mode == other.mode
    }

    /// A source for `query` on the service at `dd_domain`, which has seen
    /// nothing yet.
    pub fn new(dd_domain: String, query: String, mode: WindowMode) -> (source: LogSource)
        ensures
            source.search_url@ == "https://"@ + dd_domain@ + "/api/v2/logs/events/search"@,
            source.query == query,
            source.mode == mode,
            source.seen() == Set::<Seq<char>>::empty(),
    {
        let mut search_url = String::from_str("https://");
        search_url.append(dd_domain.as_str());
        search_url.append("/api/v2/logs/events/search");
        LogSource { search_url, query, seen_event_ids: StringHashSet::new(), mode }
    }

}

impl Source for LogSource {
    open spec fn can_query(&self, now: Timestamp) -> bool {
        self.mode.can_advance(now)
    }

    /// The search is over the next window of the mode, for the query of the
    /// source and a page of `BATCH_SIZE`; there is none once the windows have
    /// run out. Nothing but the mode changes.
    open spec fn queried(&self, now: Timestamp, after: LogSource, request: Option<SearchRequest>) -> bool {
        &&& match self.mode.spec_window(now) {
            Some(window) => request matches Some(r) && r.url@ == self.search_url@ && r.query@
                == self.query@ && r.from == window.0 && r.to == window.1 && r.limit == BATCH_SIZE,
            None => request is None,
        }
        &&& after.mode == self.mode.spec_after(now)
        &&& after.search_url == self.search_url
        &&& after.query == self.query
        &&& after.seen() == self.seen()
    }

    open spec fn extracted(
        &self,
        body: Json,
        after: LogSource,
        results: Result<Vec<Json>, SchemaError>,
    ) -> bool {
        took_page(*self, body, after, results)
    }

    open spec fn spec_batch_size(&self) -> usize {
        BATCH_SIZE
    }

    /// The page size of this source.
    fn get_batch_size(&self) -> (size: usize) {
        BATCH_SIZE
    }

    fn ready(&self, now: Timestamp) -> (ready: bool) {
        self.mode.ready(now)
    }

    /// The search over the next window, asked for at `now`; none once the
    /// windows have run out.
    fn construct_query(&mut self, now: Timestamp) -> (request: Option<SearchRequest>) {
        match self.mode.next_window(now) {
            Some(window) => Some(
                SearchRequest {
                    url: self.search_url.clone(),
                    from: window.0,
                    to: window.1,
                    query: self.query.clone(),
                    limit: self.get_batch_size(),
                },
            ),
            None => None,
        }
    }

    /// The address of the next page of a response.
    fn extract_next(&self, body: &Json) -> (next: Result<Option<String>, SchemaError>) {
        match body.member("links") {
            None => Ok(None),
            Some(links) => match links.member("next") {
                None => Ok(None),
                Some(next) => match next.as_str() {
                    Some(url) => Ok(Some(String::from_str(url))),
                    None => Err(SchemaError::NextNotText),
                },
            },
        }
    }

    /// Takes the events out of a page, each with its tags unpacked, and keeps
    /// those not handed out before, in the order of the page. Their
    /// identifiers join those seen. A page that is refused changes nothing.
    fn extract_results(&mut self, body: Json) -> (results: Result<Vec<Json>, SchemaError>) {
        let events: Vec<Json> = match body {
            Json::Object(mut members) => match find_member(&members, "data") {
                Some(at) => {
                    let entry = members.remove(at);
                    match entry.1 {
                        Json::Array(items) => items,
                        _ => {
                            return Err(SchemaError::ResultsNotList);
                        },
                    }
                },
                None => {
                    return Err(SchemaError::NoResults);
                },
            },
            _ => {
                return Err(SchemaError::NoResults);
            },
        };
        let mut i: usize = 0;
        while i < events.len()
            invariant
                i <= events.len(),
                page_events(body) == Some(events@),
                *self == *old(self),
                forall|j: int| 0 <= j < i ==> event_id(#[trigger] events@[j]) is Some,
            decreases events.len() - i,
        {
            let identified = match events[i].member("id") {
                Some(id) => id.as_str().is_some(),
                None => false,
            };
            if !identified {
                assert(event_id(events@[i as int]) is None);
                return Err(SchemaError::EventWithoutId);
            }
            i = i + 1;
        }
        let ghost ids = ids_of(events@);
        let ghost seen_before = self.seen();
        let total: usize = events.len();
        let mut stack = reversed(events);
        let mut out: Vec<Json> = Vec::new();
        proof {
            assert(ids.take(0) =~= Seq::<Seq<char>>::empty());
        }
        while stack.len() > 0
            invariant
                stack@.len() <= total,
                total == events@.len(),
                page_events(body) == Some(events@),
                seen_before == old(self).seen(),
                ids == ids_of(events@),
                all_identified(events@),
                forall|j: int| 0 <= j < stack@.len() ==> stack@[j] == events@[total - 1 - j],
                self.same_search(*old(self)),
                self.seen() == absorb(seen_before, ids.take(total - stack@.len())),
                unpacked_picks(
                    events@.take(total - stack@.len()),
                    kept(ids.take(total - stack@.len()), seen_before),
                    out@,
                ),
            decreases stack.len(),
        {
            let ghost n = total - stack@.len();
            let ghost picked = kept(ids.take(n), seen_before);
            let ghost out_before = out@;
            let event = stack.pop().unwrap();
            proof {
                assert(event == events@[n]);
                assert(ids.take(n + 1).drop_last() =~= ids.take(n));
                assert(ids.take(n + 1).last() == ids[n]);
                assert(event_id(event) == Some(ids[n]));
            }
            let id: String = match event.member("id") {
                Some(value) => match value.as_str() {
                    Some(text) => String::from_str(text),
                    None => String::new(),
                },
                None => String::new(),
            };
            let unpacked = unpack_tags(event);
            if self.seen_event_ids.insert(id) {
                out.push(unpacked);
            } else {
                proof {
                    assert(self.seen() =~= absorb(seen_before, ids.take(n + 1)));
                }
            }
            proof {
                lemma_picks_extend(events@, n, picked, out_before, unpacked);
            }
        }
        proof {
            assert(ids.take(total as int) =~= ids);
            assert(events@.take(total as int) =~= events@);
        }
        Ok(out)
    }
}

/// A source that is fed the same page twice keeps nothing of it the second
/// time, and has then seen no more than after the first: whatever it had seen
/// before, the two feedings together yield each event of the page once.
pub proof fn lemma_same_page_twice(
    before: LogSource,
    body: Json,
    between: LogSource,
    first: Vec<Json>,
    after: LogSource,
    second: Vec<Json>,
)
    requires
        took_page(before, body, between, Ok::<Vec<Json>, SchemaError>(first)),
        took_page(between, body, after, Ok::<Vec<Json>, SchemaError>(second)),
    ensures
        second@.len() == 0,
        after.seen() == between.seen(),
        after.same_search(before),
{
    let ids = ids_of(page_events(body).unwrap());
    lemma_absorb_holds(before.seen(), ids);
    lemma_known_page(absorb(before.seen(), ids), ids);
}

/// The events that are kept stand in the order of the page: their positions
/// are within the page and rise.
pub proof fn lemma_kept_in_order(ids: Seq<Seq<char>>, seen: Set<Seq<char>>)
    ensures
        kept(ids, seen).len() <= ids.len(),
        forall|k: int|
            0 <= k < kept(ids, seen).len() ==> 0 <= #[trigger] kept(ids, seen)[k] < ids.len(),
        forall|a: int, b: int|
            0 <= a < b < kept(ids, seen).len() ==> #[trigger] kept(ids, seen)[a]
                < #[trigger] kept(ids, seen)[b],
    decreases ids.len(),
{
    if ids.len() > 0 {
        lemma_kept_in_order(ids.drop_last(), seen);
    }
}

/// What has been seen after a page: what had been seen before, and the
/// identifiers of the page.
pub proof fn lemma_absorb_is_union(seen: Set<Seq<char>>, ids: Seq<Seq<char>>, x: Seq<char>)
    ensures
        absorb(seen, ids).contains(x) <==> seen.contains(x) || ids.contains(x),
    decreases ids.len(),
{
    if ids.len() > 0 {
        let front = ids.drop_last();
        lemma_absorb_is_union(seen, front, x);
        if front.contains(x) {
            let j = choose|j: int| 0 <= j < front.len() && front[j] == x;
            assert(ids[j] == x);
        }
        if ids.contains(x) && x != ids.last() {
            let j = choose|j: int| 0 <= j < ids.len() && ids[j] == x;
            assert(front[j] == x);
        }
        assert(ids[ids.len() - 1] == ids.last());
    }
}

/// Which events are kept: the event at `i` is, if and only if its identifier
/// had not been seen and no earlier event of the page has it.
pub proof fn lemma_kept_is_first_unseen(ids: Seq<Seq<char>>, seen: Set<Seq<char>>, i: int)
    requires
        0 <= i < ids.len(),
    ensures
        kept(ids, seen).contains(i) <==> !seen.contains(ids[i]) && forall|j: int|
            0 <= j < i ==> ids[j] != ids[i],
    decreases ids.len(),
{
    let front = ids.drop_last();
    let last = ids.len() - 1;
    lemma_kept_in_order(front, seen);
    if i < last {
        lemma_kept_is_first_unseen(front, seen, i);
        assert(front[i] == ids[i]);
        assert forall|j: int| 0 <= j < i implies front[j] == ids[j] by {}
        let before = kept(front, seen);
        if kept(ids, seen).contains(i) {
            let k = choose|k: int| 0 <= k < kept(ids, seen).len() && kept(ids, seen)[k] == i;
            if k < before.len() {
                assert(before[k] == i);
            }
            assert(before.contains(i));
        }
        if before.contains(i) {
            let k = choose|k: int| 0 <= k < before.len() && before[k] == i;
            assert(kept(ids, seen)[k] == i);
        }
    } else {
        lemma_absorb_is_union(seen, front, ids[i]);
        let before = kept(front, seen);
        if front.contains(ids[i]) {
            let j = choose|j: int| 0 <= j < front.len() && front[j] == ids[i];
            assert(ids[j] == ids[i]);
        }
        if exists|j: int| 0 <= j < i && ids[j] == ids[i] {
            let j = choose|j: int| 0 <= j < i && ids[j] == ids[i];
            assert(front[j] == ids[i]);
        }
        if absorb(seen, front).contains(ids.last()) {
            if before.contains(i) {
                let k = choose|k: int| 0 <= k < before.len() && before[k] == i;
                assert(before[k] < front.len());
            }
        } else {
            assert(kept(ids, seen)[before.len() as int] == i);
        }
    }
}

/// What has joined the seen identifiers is among them, and so is what was.
pub proof fn lemma_absorb_holds(seen: Set<Seq<char>>, ids: Seq<Seq<char>>)
    ensures
        forall|i: int| 0 <= i < ids.len() ==> absorb(seen, ids).contains(#[trigger] ids[i]),
        forall|x: Seq<char>| seen.contains(x) ==> #[trigger] absorb(seen, ids).contains(x),
    decreases ids.len(),
{
    if ids.len() > 0 {
        let front = ids.drop_last();
        lemma_absorb_holds(seen, front);
        assert forall|x: Seq<char>| seen.contains(x) implies #[trigger] absorb(seen, ids).contains(
            x,
        ) by {
            assert(absorb(seen, front).contains(x));
        }
        assert forall|i: int| 0 <= i < ids.len() implies absorb(seen, ids).contains(
            #[trigger] ids[i],
        ) by {
            if i < ids.len() - 1 {
                assert(front[i] == ids[i]);
            }
        }
    }
}

/// A page whose identifiers have all been seen leaves nothing to keep and
/// nothing new to see.
pub proof fn lemma_known_page(seen: Set<Seq<char>>, ids: Seq<Seq<char>>)
    requires
        forall|i: int| 0 <= i < ids.len() ==> seen.contains(#[trigger] ids[i]),
    ensures
        kept(ids, seen).len() == 0,
        absorb(seen, ids) == seen,
    decreases ids.len(),
{
    if ids.len() > 0 {
        let front = ids.drop_last();
        assert forall|i: int| 0 <= i < front.len() implies seen.contains(#[trigger] front[i]) by {
            assert(front[i] == ids[i]);
        }
        lemma_known_page(seen, front);
        assert(seen.contains(ids[ids.len() - 1]));
        assert(absorb(seen, ids) =~= seen);
    }
}

} // verus!
