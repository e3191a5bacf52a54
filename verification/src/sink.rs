//! The fan-out: which output an event goes to, and the registry of the
//! outputs that are open. Whoever drives the pool opens the outputs, hands
//! them the events, and closes them.

use vstd::prelude::*;
use vstd::string::StringExecFns;

use crate::json::{same_text, Json};
use crate::logs::LogFormat;
use crate::text::split_on;
use crate::{resolve, JsonKey};

verus! {

/// Where the events go.
#[derive(Clone, Copy, Debug, PartialEq, Eq, Structural)]
pub enum Mode {
    /// One file for each partition.
    File,
    /// The one standard output.
    Stdout,
}

/// The outputs of a run: how events are partitioned and written.
#[derive(Clone, Debug, PartialEq, Eq)]
pub struct OutputMode {
    pub mode: Mode,
    pub split_key: Option<JsonKey>,
    pub format: LogFormat,
    pub default: String,
}

/// A set of possible outputs: it knows under which key the output of an
/// event is found, so that one output is opened for each key and no more.
pub trait SinkSet {
    /// The key of the output that an event goes to.
    spec fn spec_sink_id(&self, event: Json) -> Seq<char>;

    /// The key of the output that an event goes to. There always is one:
    /// an implementer falls back on a default of its own.
    fn get_sink_id(&self, event: &Json) -> (id: String)
        ensures
            id@ == self.spec_sink_id(*event),
    ;
}

/// What is handed to an output.
#[derive(Debug, PartialEq, Eq)]
pub enum SinkMessage {
    New(Json),
}

/// The key of the one output that there is when all events go to standard
/// output.
pub open spec fn stream_key() -> Seq<char> {
    "stdout"@
}

/// The partition key of an event: the fixed key where all goes to one
/// stream; else the string that the split key leads to in the event, and the
/// default where there is no split key, where it leads nowhere, or to what is
/// no string.
pub open spec fn partition_key(
    mode: Mode,
    split_key: Option<Seq<Seq<char>>>,
    default: Seq<char>,
    event: Json,
) -> Seq<char> {
    match mode {
        Mode::Stdout => stream_key(),
        Mode::File => match split_key {
            None => default,
            Some(path) => match resolve(path, event) {
                Some(Json::Str(s)) => s@,
                _ => default,
            },
        },
    }
}

impl OutputMode {
    /// The path of the split key, where there is one.
    pub open spec fn split_path(self) -> Option<Seq<Seq<char>>> {
        match self.split_key {
            Some(key) => Some(key.segments()),
            None => None,
        }
    }

    /// The outputs for `mode`, partitioned by the dotted path `split_key`.
    pub fn new(mode: Mode, split_key: Option<String>, format: LogFormat, default: String) -> (outputs:
        OutputMode)
        ensures
            outputs.mode == mode,
            outputs.format == format,
            outputs.default == default,
            outputs.split_path() == match split_key {
                Some(s) => Some(split_on(s@, '.')),
                None => None,
            },
    {
        let split_key = match split_key {
            Some(s) => Some(JsonKey::parse(s.as_str())),
            None => None,
        };
        OutputMode { mode, split_key, format, default }
    }

}

impl SinkSet for OutputMode {
    /// The partition key that this output mode gives an event.
    open spec fn spec_sink_id(&self, event: Json) -> Seq<char> {
        partition_key(self.mode, self.split_path(), self.default@, event)
    }

    /// The partition key of an event.
    fn get_sink_id(&self, event: &Json) -> (id: String) {
        match self.mode {
            Mode::Stdout => String::from_str("stdout"),
            Mode::File => {
                let found = match &self.split_key {
                    Some(key) => match key.get(event) {
                        Some(value) => value.as_str(),
                        None => None,
                    },
                    None => None,
                };
                match found {
                    Some(s) => String::from_str(s),
                    None => self.default.clone(),
                }
            },
        }
    }
}

/// The same split key and the same event always give the same partition key;
/// where the split key leads nowhere in the event, that is the default; and
/// where all goes to one stream it is the fixed key, whatever the split key.
pub proof fn lemma_partition_key(
    a: OutputMode,
    b: OutputMode,
    event: Json,
    any_key: Option<Seq<Seq<char>>>,
    path: Seq<Seq<char>>,
    default: Seq<char>,
)
    ensures
        a.mode == b.mode && a.split_path() == b.split_path() && a.default@ == b.default@
            ==> a.spec_sink_id(event) == b.spec_sink_id(event),
        resolve(path, event) is None ==> partition_key(Mode::File, Some(path), default, event)
            == default,
        partition_key(Mode::Stdout, any_key, default, event) == stream_key(),
{
}

/// Whether an output is registered under `id`.
pub open spec fn registered(sinks: Seq<String>, id: Seq<char>) -> bool {
    exists|i: int| 0 <= i < sinks.len() && (#[trigger] sinks[i])@ == id
}

/// No two outputs are registered under one key.
pub open spec fn distinct(sinks: Seq<String>) -> bool {
    forall|i: int, j: int|
        0 <= i < j < sinks.len() ==> (#[trigger] sinks[i])@ != (#[trigger] sinks[j])@
}

/// Whether `id` is among `sinks`.
pub fn is_registered(sinks: &Vec<String>, id: &str) -> (found: bool)
    ensures
        found == registered(sinks@, id@),
{
    let mut i: usize = 0;
    while i < sinks.len()
        invariant
            i <= sinks.len(),
            forall|j: int| 0 <= j < i ==> (#[trigger] sinks@[j])@ != id@,
        decreases sinks.len() - i,
    {
        if same_text(sinks[i].as_str(), id) {
            return true;
        }
        i = i + 1;
    }
    false
}

/// Where an event is to go: the key of the output, whether that output has
/// to be opened first, and what to hand it.
#[derive(Debug, PartialEq, Eq)]
pub struct Delivery {
    pub sink: String,
    pub opened: bool,
    pub message: SinkMessage,
}

/// The end of a pool: the keys of the outputs to close, in the order in which
/// they were opened, and the seconds to wait for each of them at most.
#[derive(Clone, Debug, PartialEq, Eq)]
pub struct Closing {
    pub sinks: Vec<String>,
    pub wait_secs: u64,
}

/// The pool of outputs: the keys under which one is open, in the order in
/// which they were opened, and how events are partitioned.
pub struct ConsumerPool<S: SinkSet> {
    pub sinks: Vec<String>,
    pub sink_set: S,
}

impl<S: SinkSet> ConsumerPool<S> {
    /// A pool in which no output is open.
    pub fn new(sink_set: S) -> (pool: ConsumerPool<S>)
        ensures
            pool.sink_set == sink_set,
            pool.sinks@.len() == 0,
    {
        ConsumerPool { sinks: Vec::new(), sink_set }
    }

    /// Routes an event: it goes to the output of its partition key, which is
    /// opened, and registered, where none is open under that key yet.
    pub fn consume(&mut self, event: Json) -> (delivery: Delivery)
        ensures
            final(self).sink_set == old(self).sink_set,
            delivery.sink@ == old(self).sink_set.spec_sink_id(event),
            delivery.message == SinkMessage::New(event),
            delivery.opened == !registered(old(self).sinks@, delivery.sink@),
            final(self).sinks@ == if delivery.opened {
                old(self).sinks@.push(delivery.sink)
            } else {
                old(self).sinks@
            },
            distinct(old(self).sinks@) ==> distinct(final(self).sinks@),
    {
        let id = self.sink_set.get_sink_id(&event);
        let opened = !is_registered(&self.sinks, id.as_str());
        if opened {
            self.sinks.push(id.clone());
        }
        Delivery { sink: id, opened, message: SinkMessage::New(event) }
    }

    /// Ends the pool: every output that is open is to be closed, and waited
    /// for no longer than `wait` seconds.
    pub fn finish(self, wait: u64) -> (closing: Closing)
        ensures
            closing.sinks == self.sinks,
            closing.wait_secs == wait,
    {
        Closing { sinks: self.sinks, wait_secs: wait }
    }
}

} // verus!
