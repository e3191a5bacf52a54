//! The polling engine as a state machine: it is told what happened and
//! answers with what to do next. Whoever drives it sends the requests, waits,
//! and hands the events on.

use vstd::prelude::*;
use vstd::string::StringExecFns;

use crate::json::Json;
use crate::limits::{header_text, spec_from_headers, RateLimitStatus};
use crate::logs::{spec_next_link, SchemaError, SearchRequest, Timestamp};
use crate::Source;

verus! {

/// A request to the service.
#[derive(Clone, Debug, PartialEq, Eq)]
pub enum Request {
    /// A search, to post.
    Search(SearchRequest),
    /// The next page of the last response, to get at this address.
    Page(String),
}

/// What the tailer is waiting for.
#[derive(Clone, Debug, PartialEq, Eq)]
pub enum Pending {
    /// Nothing: the next search can be made.
    Idle,
    /// The response to this request.
    Awaiting(Request),
    /// Nothing any more: the tailer has stopped.
    Stopped,
}

/// Why the tailer gave up.
#[derive(Clone, Debug, PartialEq, Eq)]
pub enum TailError {
    /// The request could not be sent or its response not be read.
    Transport,
    /// The response did not have the expected shape.
    Schema(SchemaError),
    /// The service answered with a status that is neither success nor
    /// "too many requests".
    AuthOrServer { status: u16, body: String },
}

/// What to do next.
#[derive(Clone, Debug, PartialEq, Eq)]
pub enum Next {
    /// Send this request, once the wait that `after` asks for is over.
    Send { request: Request, after: Option<RateLimitStatus> },
    /// Wake the tailer for the next search.
    Poll,
    /// Close the queue: the source has nothing more.
    Stop,
    /// Close the queue and report the error.
    Fail(TailError),
}

/// The answer of the tailer: events to put on the queue, in order, and what
/// to do after that.
#[derive(Debug, PartialEq, Eq)]
pub struct Step {
    pub events: Vec<Json>,
    pub next: Next,
}

/// A response of the service: its status, its three rate-limit headers, its
/// body as a document where it could be read as one, and as text.
#[derive(Debug, PartialEq, Eq)]
pub struct Response {
    pub status: u16,
    pub period: Option<String>,
    pub remaining: Option<String>,
    pub reset: Option<String>,
    pub body: Option<Json>,
    pub text: String,
}

/// What happened.
#[derive(Debug, PartialEq, Eq)]
pub enum TailEvent {
    /// It is time for the next search.
    Wake,
    /// A response came.
    Response(Response),
    /// The request could not be sent.
    Lost,
}

/// The time on the wall, and the milliseconds of a clock that never goes
/// back.
#[derive(Clone, Copy, Debug, PartialEq, Eq, Structural)]
pub struct Clock {
    pub wall: Timestamp,
    pub ticks_ms: u64,
}

/// The status that asks to try again later.
pub const TOO_MANY_REQUESTS: u16 = 429;

/// Whether a status is a success.
pub open spec fn is_success(status: u16) -> bool {
    200 <= status < 300
}

/// The tailer: its source, the keys it signs requests with, the limits of the
/// last response as far as no request has used them up, what it waits for,
/// and the events handed out since the last search.
pub struct Tailer<S: Source> {
    pub source: S,
    pub api_key: String,
    pub app_key: String,
    pub last_limit_stats: Option<RateLimitStatus>,
    pub pending: Pending,
    pub returned: usize,
}

impl TailError {
    /// The error in words.
    pub fn message(&self) -> (text: String)
        ensures
            text@ == match *self {
                TailError::Transport => "Request failed"@,
                TailError::Schema(fault) => fault.message_text(),
                TailError::AuthOrServer { status, body } => "Error: "@ + body@,
            },
    {
        match self {
            TailError::Transport => String::from_str("Request failed"),
            TailError::Schema(fault) => fault.message(),
            TailError::AuthOrServer { status: _, body } => {
                let mut text = String::from_str("Error: ");
                text.append(body.as_str());
                text
            },
        }
    }
}

impl Request {
    /// A request like this one.
    pub fn copy(&self) -> (request: Request)
        ensures
            request == *self,
    {
        match self {
            Request::Search(s) => Request::Search(
                SearchRequest {
                    url: s.url.clone(),
                    from: s.from,
                    to: s.to,
                    query: s.query.clone(),
                    limit: s.limit,
                },
            ),
            Request::Page(url) => Request::Page(url.clone()),
        }
    }
}

impl<S: Source> Tailer<S> {
    /// The keys are those of `before`.
    pub open spec fn same_keys(self, before: Tailer<S>) -> bool {
        self.api_key == before.api_key && self.app_key == before.app_key
    }

    /// Nothing but the limits and what is waited for differs from `before`.
    pub open spec fn same_work(self, before: Tailer<S>) -> bool {
        self.source == before.source && self.returned == before.returned
    }

    /// The tailer is `before` stopped by `error`, with these limits.
    pub open spec fn gave_up(
        self,
        before: Tailer<S>,
        limits: Option<RateLimitStatus>,
        step: Step,
        error: TailError,
    ) -> bool {
        &&& self.same_work(before)
        &&& self.pending == Pending::Stopped
        &&& self.last_limit_stats == limits
        &&& step.events@.len() == 0
        &&& step.next == Next::Fail(error)
    }

    /// The tailer is `before`, which waited for nothing and so passed over
    /// what happened.
    pub open spec fn passed_over(self, before: Tailer<S>, step: Step) -> bool {
        &&& self.same_work(before)
        &&& self.pending == before.pending
        &&& self.last_limit_stats == before.last_limit_stats
        &&& step.events@.len() == 0
        &&& step.next == if before.pending is Idle {
            Next::Poll
        } else {
            Next::Stop
        }
    }

    /// What `poll` does at `now`: `self` is the tailer after it.
    ///
    /// A stopped tailer stays stopped. One that waits for a response has its
    /// request sent again. An idle one asks its source for the next search:
    /// with none, it stops; else it sends the search and waits for the
    /// response. A request that is sent uses up the limits.
    pub open spec fn polled(self, before: Tailer<S>, now: Timestamp, next: Next) -> bool {
        &&& self.same_keys(before)
        &&& match before.pending {
            Pending::Stopped => self.same_work(before) && self.pending == before.pending
                && self.last_limit_stats == before.last_limit_stats && next == Next::Stop,
            Pending::Awaiting(request) => self.same_work(before) && self.pending == before.pending
                && self.last_limit_stats is None && next == (Next::Send {
                request,
                after: before.last_limit_stats,
            }),
            Pending::Idle => {
                ||| {
                    &&& before.source.queried(now, self.source, None)
                    &&& self.pending == Pending::Stopped
                    &&& self.returned == before.returned
                    &&& self.last_limit_stats == before.last_limit_stats
                    &&& next == Next::Stop
                }
                ||| {
                    &&& self.pending matches Pending::Awaiting(Request::Search(search))
                    &&& before.source.queried(now, self.source, Some(search))
                    &&& self.returned == 0
                    &&& self.last_limit_stats is None
                    &&& next == (Next::Send {
                        request: Request::Search(search),
                        after: before.last_limit_stats,
                    })
                }
            },
        }
    }

    /// What `on_response` does with a page that was read: `self` is the
    /// tailer after it, `limits` what the headers of the response allow.
    ///
    /// The next-page address is looked for first, then the source takes the
    /// page; a fault in either stops the tailer. Else the events that the
    /// source hands out are handed on and counted. With a next page, that page is
    /// asked for, which uses up the limits. With none, the search is over:
    /// the limits are scaled by the events counted since it began, and the
    /// tailer is idle.
    pub open spec fn took(
        self,
        before: Tailer<S>,
        limits: RateLimitStatus,
        body: Json,
        now_ms: u64,
        step: Step,
    ) -> bool {
        match spec_next_link(body) {
            Err(fault) => self.gave_up(before, Some(limits), step, TailError::Schema(fault)),
            Ok(link) => {
                ||| {
                    &&& step.next matches Next::Fail(TailError::Schema(fault))
                    &&& before.source.extracted(
                        body,
                        self.source,
                        Err::<Vec<Json>, SchemaError>(fault),
                    )
                    &&& self.returned == before.returned
                    &&& self.pending == Pending::Stopped
                    &&& self.last_limit_stats == Some(limits)
                    &&& step.events@.len() == 0
                }
                ||| {
                    &&& before.source.extracted(
                        body,
                        self.source,
                        Ok::<Vec<Json>, SchemaError>(step.events),
                    )
                    &&& self.returned == if before.returned + step.events@.len() > usize::MAX {
                        usize::MAX
                    } else {
                        (before.returned + step.events@.len()) as usize
                    }
                    &&& match link {
                        Some(url) => {
                            &&& self.pending matches Pending::Awaiting(Request::Page(address))
                            &&& address@ == url
                            &&& self.last_limit_stats is None
                            &&& step.next == (Next::Send {
                                request: Request::Page(address),
                                after: Some(limits),
                            })
                        },
                        None => {
                            &&& self.pending == Pending::Idle
                            &&& self.last_limit_stats == Some(
                                limits.spec_scaled(
                                    self.returned,
                                    self.source.spec_batch_size(),
                                    now_ms,
                                ),
                            )
                            &&& step.next == Next::Poll
                        },
                    }
                }
            },
        }
    }

    /// What `on_response` does at `now_ms`: `self` is the tailer after it.
    ///
    /// A tailer that waits for nothing passes the response over. Else the
    /// headers must spell limits, or the tailer stops. "Too many requests"
    /// has the same request sent again, with the new limits to wait for. Any
    /// other status that is no success stops the tailer, as does a success
    /// whose body could not be read. A page that was read is taken as `took`
    /// says.
    pub open spec fn answered(self, before: Tailer<S>, response: Response, now_ms: u64, step: Step) -> bool {
        &&& self.same_keys(before)
        &&& match before.pending {
            Pending::Awaiting(request) => match spec_from_headers(
                header_text(response.period),
                header_text(response.remaining),
                header_text(response.reset),
                now_ms,
            ) {
                None => self.gave_up(
                    before,
                    before.last_limit_stats,
                    step,
                    TailError::Schema(SchemaError::LimitsUnreadable),
                ),
                Some(limits) => if response.status == TOO_MANY_REQUESTS {
                    &&& self.same_work(before)
                    &&& self.pending == before.pending
                    &&& self.last_limit_stats is None
                    &&& step.events@.len() == 0
                    &&& step.next == (Next::Send { request, after: Some(limits) })
                } else if !is_success(response.status) {
                    self.gave_up(
                        before,
                        Some(limits),
                        step,
                        TailError::AuthOrServer { status: response.status, body: response.text },
                    )
                } else {
                    match response.body {
                        None => self.gave_up(before, Some(limits), step, TailError::Transport),
                        Some(body) => self.took(before, limits, body, now_ms, step),
                    }
                },
            },
            _ => self.passed_over(before, step),
        }
    }

    /// What `on_lost` does: a tailer that waits for a response stops, any
    /// other passes it over.
    pub open spec fn lost(self, before: Tailer<S>, step: Step) -> bool {
        &&& self.same_keys(before)
        &&& match before.pending {
            Pending::Awaiting(_) => self.gave_up(
                before,
                before.last_limit_stats,
                step,
                TailError::Transport,
            ),
            _ => self.passed_over(before, step),
        }
    }

    /// A tailer on `source` that has done nothing yet.
    pub fn new(api_key: String, app_key: String, source: S) -> (tailer: Tailer<S>)
        ensures
            tailer.source == source,
            tailer.api_key == api_key,
            tailer.app_key == app_key,
            tailer.last_limit_stats is None,
            tailer.pending == Pending::Idle,
            tailer.returned == 0,
    {
        Tailer {
            source,
            api_key,
            app_key,
            last_limit_stats: None,
            pending: Pending::Idle,
            returned: 0,
        }
    }

    /// The headers that every request carries: what is accepted, and the two
    /// keys.
    pub fn headers(&self) -> (headers: Vec<(String, String)>)
        ensures
            headers@.len() == 3,
            headers@[0].0@ == "Accept"@ && headers@[0].1@ == "application/json"@,
            headers@[1].0@ == "DD-API-KEY"@ && headers@[1].1 == self.api_key,
            headers@[2].0@ == "DD-APPLICATION-KEY"@ && headers@[2].1 == self.app_key,
    {
        vec![
            (String::from_str("Accept"), String::from_str("application/json")),
            (String::from_str("DD-API-KEY"), self.api_key.clone()),
            (String::from_str("DD-APPLICATION-KEY"), self.app_key.clone()),
        ]
    }

    /// Stops the tailer with `error`.
    fn give_up(&mut self, error: TailError) -> (step: Step)
        ensures
            final(self).same_keys(*old(self)),
            final(self).gave_up(*old(self), old(self).last_limit_stats, step, error),
    {
        self.pending = Pending::Stopped;
        Step { events: Vec::new(), next: Next::Fail(error) }
    }

    /// Passes over what happened while nothing was waited for.
    fn pass_over(&self) -> (step: Step)
        requires
            !(self.pending is Awaiting),
        ensures
            self.passed_over(*self, step),
    {
        let next = match self.pending {
            Pending::Idle => Next::Poll,
            _ => Next::Stop,
        };
        Step { events: Vec::new(), next }
    }

    /// Makes the next request, or the last one again.
    pub fn poll(&mut self, now: Timestamp) -> (next: Next)
        requires
            old(self).source.can_query(now),
        ensures
            final(self).polled(*old(self), now, next),
    {
        let after = self.last_limit_stats;
        match &self.pending {
            Pending::Stopped => Next::Stop,
            Pending::Awaiting(request) => {
                let again = request.copy();
                self.last_limit_stats = None;
                Next::Send { request: again, after }
            },
            Pending::Idle => match self.source.construct_query(now) {
                None => {
                    self.pending = Pending::Stopped;
                    Next::Stop
                },
                Some(search) => {
                    let request = Request::Search(search);
                    let sent = request.copy();
                    self.pending = Pending::Awaiting(request);
                    self.returned = 0;
                    self.last_limit_stats = None;
                    Next::Send { request: sent, after }
                },
            },
        }
    }

    /// Takes a page that was read.
    fn take_page(&mut self, limits: RateLimitStatus, body: Json, now_ms: u64) -> (step: Step)
        ensures
            final(self).same_keys(*old(self)),
            final(self).took(*old(self), limits, body, now_ms, step),
    {
        self.last_limit_stats = Some(limits);
        let link = match self.source.extract_next(&body) {
            Ok(link) => link,
            Err(fault) => {
                return self.give_up(TailError::Schema(fault));
            },
        };
        let events = match self.source.extract_results(body) {
            Ok(events) => events,
            Err(fault) => {
                self.pending = Pending::Stopped;
                return Step { events: Vec::new(), next: Next::Fail(TailError::Schema(fault)) };
            },
        };
        self.returned = if events.len() > usize::MAX - self.returned {
            usize::MAX
        } else {
            self.returned + events.len()
        };
        match link {
            Some(address) => {
                let request = Request::Page(address);
                let sent = request.copy();
                self.pending = Pending::Awaiting(request);
                self.last_limit_stats = None;
                Step { events, next: Next::Send { request: sent, after: Some(limits) } }
            },
            None => {
                let mut scaled = limits;
                scaled.scale_remaining_by(self.returned, self.source.get_batch_size(), now_ms);
                self.last_limit_stats = Some(scaled);
                self.pending = Pending::Idle;
                Step { events, next: Next::Poll }
            },
        }
    }

    /// Takes a response.
    pub fn on_response(&mut self, response: Response, now_ms: u64) -> (step: Step)
        ensures
            final(self).answered(*old(self), response, now_ms, step),
    {
        let again = match &self.pending {
            Pending::Awaiting(request) => request.copy(),
            _ => {
                return self.pass_over();
            },
        };
        let limits = match RateLimitStatus::from_headers(
            &response.period,
            &response.remaining,
            &response.reset,
            now_ms,
        ) {
            Some(limits) => limits,
            None => {
                return self.give_up(TailError::Schema(SchemaError::LimitsUnreadable));
            },
        };
        if response.status == TOO_MANY_REQUESTS {
            self.last_limit_stats = None;
            return Step {
                events: Vec::new(),
                next: Next::Send { request: again, after: Some(limits) },
            };
        }
        self.last_limit_stats = Some(limits);
        if response.status < 200 || response.status >= 300 {
            return self.give_up(
                TailError::AuthOrServer { status: response.status, body: response.text },
            );
        }
        match response.body {
            None => self.give_up(TailError::Transport),
            Some(body) => self.take_page(limits, body, now_ms),
        }
    }

    /// Takes the news that the request could not be sent.
    pub fn on_lost(&mut self) -> (step: Step)
        ensures
            final(self).lost(*old(self), step),
    {
        match self.pending {
            Pending::Awaiting(_) => self.give_up(TailError::Transport),
            _ => self.pass_over(),
        }
    }

    /// What `step` does with what happened: `self` is the tailer after it.
    pub open spec fn stepped(self, before: Tailer<S>, event: TailEvent, clock: Clock, step: Step) -> bool {
        match event {
            TailEvent::Wake => step.events@.len() == 0 && self.polled(
                before,
                clock.wall,
                step.next,
            ),
            TailEvent::Response(response) => self.answered(before, response, clock.ticks_ms, step),
            TailEvent::Lost => self.lost(before, step),
        }
    }

    /// Takes what happened and says what to do next, where the source can be
    /// asked at this time; else nothing is done.
    pub fn try_step(&mut self, event: TailEvent, clock: Clock) -> (step: Option<Step>)
        ensures
            match step {
                Some(step) => old(self).source.can_query(clock.wall) && final(self).stepped(
                    *old(self),
                    event,
                    clock,
                    step,
                ),
                None => !old(self).source.can_query(clock.wall) && *final(self) == *old(self),
            },
    {
        if self.source.ready(clock.wall) {
            Some(self.step(event, clock))
        } else {
            None
        }
    }

    /// Takes what happened and says what to do next.
    pub fn step(&mut self, event: TailEvent, clock: Clock) -> (step: Step)
        requires
            old(self).source.can_query(clock.wall),
        ensures
            final(self).stepped(*old(self), event, clock, step),
    {
        match event {
            TailEvent::Wake => {
                let next = self.poll(clock.wall);
                Step { events: Vec::new(), next }
            },
            TailEvent::Response(response) => self.on_response(response, clock.ticks_ms),
            TailEvent::Lost => self.on_lost(),
        }
    }
}

} // verus!
