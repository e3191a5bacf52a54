use dogtail::json::Json;
use dogtail::limits::{read_header, RateLimitStatus};
use dogtail::logs::{Follow, LogFormat, LogSource, SchemaError, Snapshot, Timestamp, WindowMode};
use dogtail::sink::{
    is_registered, Closing, ConsumerPool, Mode, OutputMode, SinkMessage, SinkSet,
};
use dogtail::tailer::{
    Clock, Next, Pending, Request, Response, Step, TailError, TailEvent, Tailer,
};

fn s(text: &str) -> Json {
    Json::Str(text.to_string())
}

fn obj(members: Vec<(&str, Json)>) -> Json {
    Json::Object(members.into_iter().map(|(k, v)| (k.to_string(), v)).collect())
}

fn at(secs: i64) -> Timestamp {
    Timestamp { secs, nanos: 0 }
}

fn clock(secs: i64, ticks_ms: u64) -> Clock {
    Clock { wall: at(secs), ticks_ms }
}

fn event(id: &str) -> Json {
    obj(vec![("id", s(id))])
}

fn page(ids: &[&str], next: Option<&str>) -> Json {
    let mut members = vec![("data", Json::Array(ids.iter().map(|id| event(id)).collect()))];
    if let Some(url) = next {
        members.push(("links", obj(vec![("next", s(url))])));
    }
    obj(members)
}

fn ok(body: Json) -> TailEvent {
    respond(200, Some(body), "")
}

fn respond(status: u16, body: Option<Json>, text: &str) -> TailEvent {
    TailEvent::Response(Response {
        status,
        period: Some("60".to_string()),
        remaining: Some("5".to_string()),
        reset: Some("30".to_string()),
        body,
        text: text.to_string(),
    })
}

fn limits(next_request_allowed: u64) -> RateLimitStatus {
    RateLimitStatus { period_ms: 60_000, remaining_budget: 5, next_request_allowed }
}

fn snapshot_tailer() -> Tailer<LogSource> {
    let source = LogSource::new(
        "d".to_string(),
        "q".to_string(),
        WindowMode::Snapshot(Snapshot::new(at(100), 60)),
    );
    Tailer::new("api".to_string(), "app".to_string(), source)
}

fn follow_tailer() -> Tailer<LogSource> {
    let source = LogSource::new(
        "d".to_string(),
        "q".to_string(),
        WindowMode::Follow(Follow::new(at(100), 60)),
    );
    Tailer::new("api".to_string(), "app".to_string(), source)
}

fn ids(events: &[Json]) -> Vec<String> {
    events.iter().map(|e| e.member("id").unwrap().as_str().unwrap().to_string()).collect()
}

#[test]
fn limits_come_from_header_numbers() {
    assert_eq!(
        RateLimitStatus::armed(Some(60), Some(7), Some(30), 1_000),
        Some(RateLimitStatus { period_ms: 60_000, remaining_budget: 7, next_request_allowed: 31_000 })
    );
    assert_eq!(RateLimitStatus::armed(None, Some(7), Some(30), 0), None);
    assert_eq!(RateLimitStatus::armed(Some(60), None, Some(30), 0), None);
    assert_eq!(RateLimitStatus::armed(Some(60), Some(7), None, 0), None);
}

#[test]
fn limits_beyond_the_machine_are_none() {
    assert_eq!(RateLimitStatus::armed(Some(60), Some(u32::MAX as u64 + 1), Some(30), 0), None);
    assert_eq!(
        RateLimitStatus::armed(Some(60), Some(u32::MAX as u64), Some(30), 0),
        Some(RateLimitStatus {
            period_ms: 60_000,
            remaining_budget: u32::MAX,
            next_request_allowed: 30_000
        })
    );
    assert_eq!(RateLimitStatus::armed(Some(u64::MAX / 1000 + 1), Some(1), Some(30), 0), None);
    assert_eq!(RateLimitStatus::armed(Some(60), Some(1), Some(u64::MAX / 1000 + 1), 0), None);
    assert_eq!(RateLimitStatus::armed(Some(60), Some(1), Some(1), u64::MAX - 999), None);
    assert!(RateLimitStatus::armed(Some(60), Some(1), Some(1), u64::MAX - 1000).is_some());
}

#[test]
fn headers_are_read_as_numbers() {
    assert_eq!(read_header(&Some("60".to_string())), Some(60));
    assert_eq!(read_header(&Some("0".to_string())), Some(0));
    assert_eq!(read_header(&Some("sixty".to_string())), None);
    assert_eq!(read_header(&Some("-1".to_string())), None);
    assert_eq!(read_header(&Some("".to_string())), None);
    assert_eq!(read_header(&None), None);
    assert_eq!(
        RateLimitStatus::from_headers(
            &Some("60".to_string()),
            &Some("7".to_string()),
            &Some("30".to_string()),
            1_000
        ),
        Some(RateLimitStatus { period_ms: 60_000, remaining_budget: 7, next_request_allowed: 31_000 })
    );
    assert_eq!(
        RateLimitStatus::from_headers(&Some("60".to_string()), &Some("x".to_string()), &None, 0),
        None
    );
}

#[test]
fn pause_adds_jitter_to_time_left() {
    assert_eq!(limits(31_000).pause(1_000, 2_500), 32_500);
    assert_eq!(limits(31_000).pause(40_000, 2_500), 2_500);
    assert_eq!(limits(31_000).pause(31_000, 0), 0);
    assert_eq!(limits(u64::MAX).pause(0, 4_999), u64::MAX);
}

#[test]
fn scaling_waits_in_proportion_to_empty_part_of_page() {
    let mut status = limits(100_000);
    status.scale_remaining_by(250, 1000, 10_000);
    assert_eq!(status.next_request_allowed, 55_000);
    let mut status = limits(100_000);
    status.scale_remaining_by(1, 3, 10_000);
    assert_eq!(status.next_request_allowed, 50_000);
}

#[test]
fn scaling_never_waits_past_reset() {
    let mut status = limits(30_000);
    status.scale_remaining_by(0, 1000, 10_000);
    assert_eq!(status.next_request_allowed, 30_000);
    let mut status = limits(5_000);
    status.scale_remaining_by(0, 1000, 10_000);
    assert_eq!(status.next_request_allowed, 10_000);
}

#[test]
fn full_page_asks_again_at_once() {
    let mut status = limits(100_000);
    status.scale_remaining_by(1000, 1000, 10_000);
    assert_eq!(status.next_request_allowed, 10_000);
    let mut status = limits(100_000);
    status.scale_remaining_by(1500, 1000, 10_000);
    assert_eq!(status.next_request_allowed, 10_000);
}

#[test]
fn exhausted_budget_keeps_reset_time() {
    let mut status =
        RateLimitStatus { period_ms: 60_000, remaining_budget: 0, next_request_allowed: 100_000 };
    status.scale_remaining_by(1000, 1000, 10_000);
    assert_eq!(
        status,
        RateLimitStatus { period_ms: 60_000, remaining_budget: 0, next_request_allowed: 100_000 }
    );
    status.scale_remaining_by(0, 1000, 200_000);
    assert_eq!(status.next_request_allowed, 100_000);
}

#[test]
fn requests_carry_three_headers() {
    let tailer = snapshot_tailer();
    assert_eq!(
        tailer.headers(),
        vec![
            ("Accept".to_string(), "application/json".to_string()),
            ("DD-API-KEY".to_string(), "api".to_string()),
            ("DD-APPLICATION-KEY".to_string(), "app".to_string()),
        ]
    );
}

#[test]
fn three_pages_yield_each_event_once_in_order() {
    let mut tailer = follow_tailer();
    let mut seen: Vec<String> = Vec::new();
    let step = tailer.step(TailEvent::Wake, clock(100, 0));
    assert!(matches!(step.next, Next::Send { request: Request::Search(_), after: None }));
    let step = tailer.step(ok(page(&["1", "2"], Some("https://next/2"))), clock(101, 1_000));
    seen.extend(ids(&step.events));
    assert_eq!(
        step.next,
        Next::Send { request: Request::Page("https://next/2".to_string()), after: Some(limits(31_000)) }
    );
    let step = tailer.step(ok(page(&["2", "3"], Some("https://next/3"))), clock(102, 2_000));
    seen.extend(ids(&step.events));
    assert_eq!(
        step.next,
        Next::Send { request: Request::Page("https://next/3".to_string()), after: Some(limits(32_000)) }
    );
    let step = tailer.step(ok(page(&["4"], None)), clock(103, 3_000));
    seen.extend(ids(&step.events));
    assert_eq!(step.next, Next::Poll);
    assert_eq!(seen, vec!["1", "2", "3", "4"]);
    assert_eq!(tailer.returned, 4);
    assert_eq!(tailer.pending, Pending::Idle);
    assert_eq!(tailer.last_limit_stats, Some(limits(33_000)));
}

#[test]
fn snapshot_stops_after_its_window() {
    let mut tailer = snapshot_tailer();
    let step = tailer.step(TailEvent::Wake, clock(500, 0));
    match step.next {
        Next::Send { request: Request::Search(search), after } => {
            assert_eq!((search.from, search.to), (at(100), at(160)));
            assert_eq!(after, None);
        }
        other => panic!("expected a search, got {:?}", other),
    }
    let step = tailer.step(ok(page(&["a"], None)), clock(501, 1_000));
    assert_eq!(step.events, vec![event("a")]);
    assert_eq!(step.next, Next::Poll);
    let step = tailer.step(TailEvent::Wake, clock(502, 2_000));
    assert_eq!(step, Step { events: vec![], next: Next::Stop });
    assert_eq!(tailer.pending, Pending::Stopped);
    let step = tailer.step(TailEvent::Wake, clock(503, 3_000));
    assert_eq!(step.next, Next::Stop);
}

#[test]
fn end_of_search_scales_limits_by_events_counted() {
    let mut tailer = follow_tailer();
    tailer.step(TailEvent::Wake, clock(100, 0));
    let many: Vec<String> = (0..250).map(|i| i.to_string()).collect();
    let refs: Vec<&str> = many.iter().map(|id| id.as_str()).collect();
    let step = tailer.step(ok(page(&refs, None)), clock(101, 1_000));
    assert_eq!(step.events.len(), 250);
    assert_eq!(tailer.last_limit_stats, Some(limits(31_000)));
    let mut tailer = follow_tailer();
    tailer.step(TailEvent::Wake, clock(100, 0));
    tailer.step(
        TailEvent::Response(Response {
            status: 200,
            period: Some("20".to_string()),
            remaining: Some("5".to_string()),
            reset: Some("30".to_string()),
            body: Some(page(&refs, None)),
            text: String::new(),
        }),
        clock(101, 1_000),
    );
    assert_eq!(
        tailer.last_limit_stats,
        Some(RateLimitStatus { period_ms: 20_000, remaining_budget: 5, next_request_allowed: 16_000 })
    );
}

#[test]
fn too_many_requests_sends_same_request_again() {
    let mut tailer = snapshot_tailer();
    let first = tailer.step(TailEvent::Wake, clock(500, 0));
    let request = match first.next {
        Next::Send { request, .. } => request,
        other => panic!("expected a request, got {:?}", other),
    };
    let step = tailer.step(respond(429, None, "slow down"), clock(501, 1_000));
    assert_eq!(
        step,
        Step { events: vec![], next: Next::Send { request: request.clone(), after: Some(limits(31_000)) } }
    );
    assert_eq!(tailer.pending, Pending::Awaiting(request));
    let step = tailer.step(ok(page(&["a"], None)), clock(502, 2_000));
    assert_eq!(step.events, vec![event("a")]);
}

#[test]
fn too_many_requests_on_next_page_keeps_cursor() {
    let mut tailer = follow_tailer();
    tailer.step(TailEvent::Wake, clock(100, 0));
    tailer.step(ok(page(&["1"], Some("https://next/2"))), clock(101, 1_000));
    let step = tailer.step(respond(429, None, ""), clock(102, 2_000));
    assert_eq!(
        step.next,
        Next::Send { request: Request::Page("https://next/2".to_string()), after: Some(limits(32_000)) }
    );
    assert_eq!(tailer.returned, 1);
}

#[test]
fn other_status_is_fatal_with_body_text() {
    let mut tailer = snapshot_tailer();
    tailer.step(TailEvent::Wake, clock(500, 0));
    let step = tailer.step(respond(403, None, "Forbidden"), clock(501, 1_000));
    assert_eq!(
        step,
        Step {
            events: vec![],
            next: Next::Fail(TailError::AuthOrServer { status: 403, body: "Forbidden".to_string() })
        }
    );
    assert_eq!(tailer.pending, Pending::Stopped);
    assert_eq!(tailer.last_limit_stats, Some(limits(31_000)));
    assert_eq!(tailer.step(TailEvent::Wake, clock(502, 2_000)).next, Next::Stop);
}

#[test]
fn status_just_outside_success_is_fatal() {
    for status in [199u16, 300, 500] {
        let mut tailer = snapshot_tailer();
        tailer.step(TailEvent::Wake, clock(500, 0));
        let step = tailer.step(respond(status, Some(page(&["a"], None)), "x"), clock(501, 0));
        assert_eq!(
            step.next,
            Next::Fail(TailError::AuthOrServer { status, body: "x".to_string() })
        );
    }
    let mut tailer = snapshot_tailer();
    tailer.step(TailEvent::Wake, clock(500, 0));
    let step = tailer.step(respond(299, Some(page(&["a"], None)), "x"), clock(501, 0));
    assert_eq!(step.next, Next::Poll);
}

#[test]
fn schema_faults_are_fatal() {
    let mut tailer = snapshot_tailer();
    tailer.step(TailEvent::Wake, clock(500, 0));
    let step = tailer.step(ok(obj(vec![("data", s("nope"))])), clock(501, 0));
    assert_eq!(step.next, Next::Fail(TailError::Schema(SchemaError::ResultsNotList)));
    assert_eq!(tailer.pending, Pending::Stopped);

    let mut tailer = snapshot_tailer();
    tailer.step(TailEvent::Wake, clock(500, 0));
    let body = obj(vec![
        ("data", Json::Array(vec![event("a")])),
        ("links", obj(vec![("next", Json::Bool(true))])),
    ]);
    let step = tailer.step(ok(body), clock(501, 0));
    assert_eq!(step, Step { events: vec![], next: Next::Fail(TailError::Schema(SchemaError::NextNotText)) });
    assert!(tailer.source.seen_event_ids.is_empty());
}

#[test]
fn unreadable_limits_are_fatal() {
    let mut tailer = snapshot_tailer();
    tailer.step(TailEvent::Wake, clock(500, 0));
    let step = tailer.step(
        TailEvent::Response(Response {
            status: 200,
            period: Some("60".to_string()),
            remaining: None,
            reset: Some("30".to_string()),
            body: Some(page(&["a"], None)),
            text: String::new(),
        }),
        clock(501, 0),
    );
    assert_eq!(step.next, Next::Fail(TailError::Schema(SchemaError::LimitsUnreadable)));
}

#[test]
fn unread_body_and_lost_request_are_transport_errors() {
    let mut tailer = snapshot_tailer();
    tailer.step(TailEvent::Wake, clock(500, 0));
    let step = tailer.step(respond(200, None, "<html>"), clock(501, 0));
    assert_eq!(step.next, Next::Fail(TailError::Transport));

    let mut tailer = snapshot_tailer();
    tailer.step(TailEvent::Wake, clock(500, 0));
    let step = tailer.step(TailEvent::Lost, clock(501, 0));
    assert_eq!(step.next, Next::Fail(TailError::Transport));
    assert_eq!(tailer.pending, Pending::Stopped);
}

#[test]
fn what_nobody_waits_for_is_passed_over() {
    let mut tailer = snapshot_tailer();
    let step = tailer.step(ok(page(&["a"], None)), clock(500, 0));
    assert_eq!(step, Step { events: vec![], next: Next::Poll });
    assert!(tailer.source.seen_event_ids.is_empty());
    assert_eq!(tailer.step(TailEvent::Lost, clock(500, 0)).next, Next::Poll);
}

#[test]
fn waking_while_waiting_sends_request_again() {
    let mut tailer = snapshot_tailer();
    let first = tailer.step(TailEvent::Wake, clock(500, 0));
    let again = tailer.step(TailEvent::Wake, clock(900, 0));
    assert_eq!(first, again);
}

#[test]
fn request_copy_is_equal() {
    let request = Request::Page("https://next".to_string());
    assert_eq!(request.copy(), request);
}

fn file_outputs(split_key: Option<&str>) -> OutputMode {
    OutputMode::new(
        Mode::File,
        split_key.map(|k| k.to_string()),
        LogFormat::Structured,
        "output.log".to_string(),
    )
}

fn tagged(pod: &str) -> Json {
    obj(vec![("attributes", obj(vec![("tags", obj(vec![("pod_name", s(pod))]))]))])
}

#[test]
fn partition_key_is_value_at_split_key() {
    let outputs = file_outputs(Some("attributes.tags.pod_name"));
    assert_eq!(outputs.get_sink_id(&tagged("web-1")), "web-1");
    assert_eq!(outputs.get_sink_id(&tagged("web-1")), "web-1");
    assert_eq!(outputs.get_sink_id(&tagged("web-2")), "web-2");
}

#[test]
fn partition_key_falls_back_to_default() {
    let outputs = file_outputs(Some("attributes.tags.pod_name"));
    assert_eq!(outputs.get_sink_id(&obj(vec![])), "output.log");
    let odd = obj(vec![("attributes", obj(vec![("tags", obj(vec![("pod_name", Json::Int(3))]))]))]);
    assert_eq!(outputs.get_sink_id(&odd), "output.log");
    assert_eq!(file_outputs(None).get_sink_id(&tagged("web-1")), "output.log");
}

#[test]
fn single_stream_has_one_fixed_key() {
    let outputs = OutputMode::new(
        Mode::Stdout,
        Some("attributes.tags.pod_name".to_string()),
        LogFormat::default(),
        "output.log".to_string(),
    );
    assert_eq!(outputs.get_sink_id(&tagged("web-1")), "stdout");
    assert_eq!(outputs.get_sink_id(&obj(vec![])), "stdout");
}

#[test]
fn output_mode_keeps_its_parts() {
    let outputs = file_outputs(Some("a.b"));
    assert_eq!(outputs.mode, Mode::File);
    assert_eq!(outputs.split_key.map(|k| k.0), Some(vec!["a".to_string(), "b".to_string()]));
    assert_eq!(outputs.format, LogFormat::Structured);
    assert_eq!(outputs.default, "output.log");
}

#[test]
fn pool_opens_one_output_for_each_key() {
    let mut pool = ConsumerPool::new(file_outputs(Some("attributes.tags.pod_name")));
    let first = pool.consume(tagged("web-1"));
    assert_eq!(first.sink, "web-1");
    assert!(first.opened);
    assert_eq!(first.message, SinkMessage::New(tagged("web-1")));
    let second = pool.consume(tagged("web-2"));
    assert!(second.opened);
    let third = pool.consume(tagged("web-1"));
    assert_eq!(third.sink, "web-1");
    assert!(!third.opened);
    let fourth = pool.consume(obj(vec![]));
    assert_eq!(fourth.sink, "output.log");
    assert!(fourth.opened);
    assert_eq!(
        pool.finish(5),
        Closing {
            sinks: vec!["web-1".to_string(), "web-2".to_string(), "output.log".to_string()],
            wait_secs: 5
        }
    );
}

#[test]
fn empty_pool_has_nothing_to_close() {
    let pool = ConsumerPool::new(file_outputs(None));
    assert_eq!(pool.finish(7), Closing { sinks: vec![], wait_secs: 7 });
}

#[test]
fn registered_looks_at_every_key() {
    let sinks = vec!["a".to_string(), "b".to_string()];
    assert!(is_registered(&sinks, "a"));
    assert!(is_registered(&sinks, "b"));
    assert!(!is_registered(&sinks, "c"));
    assert!(!is_registered(&Vec::new(), "a"));
}

#[test]
fn errors_have_words() {
    assert_eq!(TailError::Transport.message(), "Request failed");
    assert_eq!(
        TailError::Schema(SchemaError::ResultsNotList).message(),
        "Log query data not a list"
    );
    assert_eq!(
        TailError::AuthOrServer { status: 403, body: "Forbidden".to_string() }.message(),
        "Error: Forbidden"
    );
    assert_eq!(SchemaError::NextNotText.message(), "Next url not a string");
    assert_eq!(SchemaError::NoResults.message(), "Log query has no data");
    assert_eq!(SchemaError::EventWithoutId.message(), "Log event without an id");
    assert_eq!(SchemaError::LimitsUnreadable.message(), "Rate limit headers not readable");
}

#[test]
fn step_is_refused_while_source_is_not_ready() {
    let source = LogSource::new(
        "d".to_string(),
        "q".to_string(),
        WindowMode::Follow(Follow { next_window_start: at(0), next_window_end: None }),
    );
    let mut tailer = Tailer::new("api".to_string(), "app".to_string(), source);
    assert_eq!(tailer.try_step(TailEvent::Wake, clock(i64::MIN + 9, 0)), None);
    assert_eq!(tailer.pending, Pending::Idle);
    let step = tailer.try_step(TailEvent::Wake, clock(100, 0)).unwrap();
    assert!(matches!(step.next, Next::Send { .. }));
}
