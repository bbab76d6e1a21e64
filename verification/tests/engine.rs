use tracing_gcp::compose;
use tracing_gcp::parse_u16;
use tracing_gcp::remove_quotes;
use tracing_gcp::severity_of;
use tracing_gcp::str_eq;
use tracing_gcp::to_json_line;
use tracing_gcp::EventLevel;
use tracing_gcp::GcpLayer;
use tracing_gcp::Severity;
use tracing_gcp::SourceLocation;
use tracing_gcp::SpanStore;

fn fields(pairs: &[(&str, &str)]) -> Vec<(String, String)> {
    pairs.iter().map(|(k, v)| (k.to_string(), v.to_string())).collect()
}

fn line_of(
    level: EventLevel,
    time: Option<&str>,
    event_fields: &[(&str, &str)],
    store: &SpanStore,
    scope: &[u64],
) -> String {
    let rec = compose(
        level,
        time.map(|t| t.to_string()),
        None,
        &fields(event_fields),
        store,
        &scope.to_vec(),
    );
    to_json_line(&rec)
}

#[test]
fn event_outside_spans_uses_only_its_own_fields() {
    let mut store = SpanStore::new();
    store.create(9, &fields(&[("env", "prod"), ("http.url", "\"/spanurl\"")]));
    // The span exists but the event's scope is empty: nothing of it shows.
    let line = line_of(
        EventLevel::Info,
        None,
        &[("message", "hello"), ("user", "parth")],
        &store,
        &[],
    );
    assert_eq!(line, "{\"severity\":\"INFO\",\"message\":\"hello\",\"user\":\"parth\"}");
}

#[test]
fn nested_spans_nearest_scope_wins() {
    let mut store = SpanStore::new();
    // Outer span a, inner span b.
    store.create(
        1,
        &fields(&[("env", "prod"), ("http.url", "\"/a\""), ("shared", "from_a")]),
    );
    store.create(2, &fields(&[("http.url", "\"/b\""), ("shared", "from_b"), ("only_b", "1")]));
    let line = line_of(EventLevel::Info, None, &[], &store, &[2, 1]);
    assert_eq!(
        line,
        "{\"severity\":\"INFO\",\"httpRequest\":{\"requestUrl\":\"/b\"},\"env\":\"prod\",\"shared\":\"from_b\",\"only_b\":\"1\"}"
    );
}

#[test]
fn composing_twice_yields_identical_lines() {
    let mut store = SpanStore::new();
    store.create(3, &fields(&[("http.method", "\"post\""), ("k", "v")]));
    let first = line_of(
        EventLevel::Warn,
        Some("2021-06-01T00:00:00+00:00"),
        &[("message", "again")],
        &store,
        &[3],
    );
    let second = line_of(
        EventLevel::Warn,
        Some("2021-06-01T00:00:00+00:00"),
        &[("message", "again")],
        &store,
        &[3],
    );
    assert_eq!(first, second);
}

#[test]
fn closed_span_leaves_no_trace() {
    let mut store = SpanStore::new();
    store.create(7, &fields(&[("http.url", "\"/gone\""), ("tag", "x")]));
    let before = line_of(EventLevel::Info, None, &[], &store, &[7]);
    assert!(before.contains("/gone"));
    store.remove(7);
    // The event still references the closed id; it must see nothing of it.
    let after = line_of(EventLevel::Info, None, &[], &store, &[7]);
    assert_eq!(after, "{\"severity\":\"INFO\"}");
    let no_scope = line_of(EventLevel::Info, None, &[], &store, &[]);
    assert_eq!(after, no_scope);
}

#[test]
fn non_numeric_status_is_dropped_not_stored() {
    let line = line_of(
        EventLevel::Info,
        None,
        &[("http.status", "abc"), ("message", "ok"), ("http.url", "\"/u\"")],
        &SpanStore::new(),
        &[],
    );
    assert!(!line.contains("status"));
    assert!(!line.contains("abc"));
    assert_eq!(line, "{\"severity\":\"INFO\",\"message\":\"ok\",\"httpRequest\":{\"requestUrl\":\"/u\"}}");
}

#[test]
fn quoted_status_rendering_is_dropped_too() {
    let line = line_of(
        EventLevel::Info,
        None,
        &[("http.status", "\"200\"")],
        &SpanStore::new(),
        &[],
    );
    assert_eq!(line, "{\"severity\":\"INFO\"}");
}

#[test]
fn severity_mapping_per_level() {
    let store = SpanStore::new();
    assert_eq!(line_of(EventLevel::Trace, None, &[], &store, &[]), "{}");
    assert_eq!(line_of(EventLevel::Debug, None, &[], &store, &[]), "{\"severity\":\"DEBUG\"}");
    assert_eq!(line_of(EventLevel::Info, None, &[], &store, &[]), "{\"severity\":\"INFO\"}");
    assert_eq!(line_of(EventLevel::Warn, None, &[], &store, &[]), "{\"severity\":\"WARNING\"}");
    assert_eq!(line_of(EventLevel::Error, None, &[], &store, &[]), "{\"severity\":\"ERROR\"}");
    assert_eq!(severity_of(EventLevel::Trace), None);
    assert_eq!(severity_of(EventLevel::Warn), Some(Severity::Warning));
}

#[test]
fn span_method_and_url_with_inner_status_and_message() {
    let mut store = SpanStore::new();
    store.create(5, &fields(&[("http.method", "\"post\""), ("http.url", "\"/x\"")]));
    let line = line_of(
        EventLevel::Info,
        None,
        &[("http.status", "200"), ("message", "done")],
        &store,
        &[5],
    );
    assert_eq!(
        line,
        "{\"severity\":\"INFO\",\"message\":\"done\",\"httpRequest\":{\"requestMethod\":\"POST\",\"requestUrl\":\"/x\",\"status\":200}}"
    );
}

#[test]
fn output_is_valid_json_for_a_parser() {
    let mut store = SpanStore::new();
    store.create(
        11,
        &fields(&[
            ("http.method", "\"get\""),
            ("http.url", "\"/test_url\""),
            ("http.ua", "\"MOZILLA\""),
            ("http.remote_ip", "\"192.158.3.3\""),
            ("http.server_ip", "\"200.1.1.1\""),
            ("http.latency", "\"5s\""),
            ("user", "\"parth\""),
        ]),
    );
    let line = line_of(
        EventLevel::Info,
        Some("2021-06-01T00:00:00+00:00"),
        &[("http.status", "200"), ("message", "req processed")],
        &store,
        &[11],
    );
    let v: serde_json::Value = serde_json::from_str(&line).unwrap();
    assert_eq!(v["severity"].as_str().unwrap(), "INFO");
    assert_eq!(v["message"].as_str().unwrap(), "req processed");
    assert_eq!(v["time"].as_str().unwrap(), "2021-06-01T00:00:00+00:00");
    assert_eq!(v["httpRequest"]["requestMethod"].as_str().unwrap(), "GET");
    assert_eq!(v["httpRequest"]["requestUrl"].as_str().unwrap(), "/test_url");
    assert_eq!(v["httpRequest"]["status"].as_u64().unwrap(), 200);
    assert_eq!(v["httpRequest"]["userAgent"].as_str().unwrap(), "MOZILLA");
    assert_eq!(v["httpRequest"]["remoteIp"].as_str().unwrap(), "192.158.3.3");
    assert_eq!(v["httpRequest"]["serverIp"].as_str().unwrap(), "200.1.1.1");
    assert_eq!(v["httpRequest"]["latency"].as_str().unwrap(), "5s");
    assert_eq!(v["user"].as_str().unwrap(), "\"parth\"");
}

#[test]
fn label_values_are_json_escaped() {
    let line = line_of(
        EventLevel::Debug,
        None,
        &[("note", "a\"b\\c\nd\te")],
        &SpanStore::new(),
        &[],
    );
    assert_eq!(line, "{\"severity\":\"DEBUG\",\"note\":\"a\\\"b\\\\c\\nd\\te\"}");
    let v: serde_json::Value = serde_json::from_str(&line).unwrap();
    assert_eq!(v["note"].as_str().unwrap(), "a\"b\\c\nd\te");
}

#[test]
fn control_characters_get_unicode_escapes() {
    let line = line_of(
        EventLevel::Debug,
        None,
        &[("ctl", "\u{1}\u{1f}")],
        &SpanStore::new(),
        &[],
    );
    assert_eq!(line, "{\"severity\":\"DEBUG\",\"ctl\":\"\\u0001\\u001f\"}");
}

#[test]
fn source_location_is_rendered_when_given() {
    let rec = compose(
        EventLevel::Error,
        None,
        Some(SourceLocation {
            file: Some("src/main.rs".to_string()),
            line: Some(42),
            function: Some("app::run".to_string()),
        }),
        &fields(&[]),
        &SpanStore::new(),
        &Vec::new(),
    );
    let line = to_json_line(&rec);
    assert_eq!(
        line,
        "{\"severity\":\"ERROR\",\"logging.googleapis.com/sourceLocation\":{\"file\":\"src/main.rs\",\"line\":\"42\",\"function\":\"app::run\"}}"
    );
}

#[test]
fn update_and_duplicate_labels_last_write_wins() {
    let mut store = SpanStore::new();
    store.create(4, &fields(&[("k", "one")]));
    store.update(4, &fields(&[("k", "two"), ("http.url", "\"/later\"")]));
    // Updating an unknown id is a silent no-op.
    store.update(99, &fields(&[("x", "y")]));
    let line = line_of(EventLevel::Info, None, &[], &store, &[4]);
    assert_eq!(
        line,
        "{\"severity\":\"INFO\",\"httpRequest\":{\"requestUrl\":\"/later\"},\"k\":\"two\"}"
    );
}

#[test]
fn creating_an_existing_span_id_is_a_no_op() {
    let mut store = SpanStore::new();
    store.create(6, &fields(&[("k", "first")]));
    store.create(6, &fields(&[("k", "second")]));
    let line = line_of(EventLevel::Info, None, &[], &store, &[6]);
    assert_eq!(line, "{\"severity\":\"INFO\",\"k\":\"first\"}");
}

#[test]
fn unrecognized_method_value_keeps_the_earlier_one() {
    let mut store = SpanStore::new();
    store.create(8, &fields(&[("http.method", "\"put\""), ("http.method", "\"bogus\"")]));
    let line = line_of(EventLevel::Info, None, &[], &store, &[8]);
    assert_eq!(line, "{\"severity\":\"INFO\",\"httpRequest\":{\"requestMethod\":\"PUT\"}}");
}

#[test]
fn method_matching_ignores_ascii_case() {
    let line = line_of(
        EventLevel::Info,
        None,
        &[("http.method", "\"POST\"")],
        &SpanStore::new(),
        &[],
    );
    assert_eq!(line, "{\"severity\":\"INFO\",\"httpRequest\":{\"requestMethod\":\"POST\"}}");
}

#[test]
fn remove_quotes_behaviour() {
    assert_eq!(remove_quotes("\"abc\"".to_string()), "abc");
    assert_eq!(remove_quotes("abc".to_string()), "abc");
    assert_eq!(remove_quotes("\"abc".to_string()), "\"abc");
    assert_eq!(remove_quotes("\"\"".to_string()), "");
    assert_eq!(remove_quotes("\"".to_string()), "\"");
    assert_eq!(remove_quotes("".to_string()), "");
}

#[test]
fn parse_u16_behaviour() {
    assert_eq!(parse_u16("200"), Some(200));
    assert_eq!(parse_u16("+200"), Some(200));
    assert_eq!(parse_u16("65535"), Some(65535));
    assert_eq!(parse_u16("65536"), None);
    assert_eq!(parse_u16("999999999999999999"), None);
    assert_eq!(parse_u16(""), None);
    assert_eq!(parse_u16("+"), None);
    assert_eq!(parse_u16("-1"), None);
    assert_eq!(parse_u16("1a"), None);
    assert_eq!(parse_u16(" 1"), None);
    assert_eq!(parse_u16("\"200\""), None);
}

#[test]
fn str_eq_behaviour() {
    assert!(str_eq("", ""));
    assert!(str_eq("abc", "abc"));
    assert!(!str_eq("abc", "abd"));
    assert!(!str_eq("abc", "ab"));
}

#[test]
fn layer_lifecycle_writes_one_line_per_event() {
    let mut layer = GcpLayer::init_with_writer(Vec::<u8>::new());
    layer.on_new_span(
        1,
        &fields(&[("http.url", "\"/test_url\""), ("http.method", "\"post\""), ("user", "\"parth\"")]),
    );
    layer.on_record(1, &fields(&[("http.ua", "\"MOZILLA\"")]));
    let ok = layer.on_event(
        EventLevel::Info,
        None,
        &fields(&[("http.status", "200"), ("message", "req processed")]),
        &vec![1],
    );
    assert!(ok);
    layer.on_close(1);
    let ok2 = layer.on_event(EventLevel::Info, None, &fields(&[("message", "test")]), &vec![1]);
    assert!(ok2);
    let written = String::from_utf8(layer.writer.clone()).unwrap();
    let lines: Vec<&str> = written.lines().collect();
    assert_eq!(lines.len(), 2);
    assert!(lines[0].contains("\"requestUrl\":\"/test_url\""));
    assert!(lines[0].contains("\"requestMethod\":\"POST\""));
    assert!(lines[0].contains("\"status\":200"));
    assert!(lines[0].contains("\"userAgent\":\"MOZILLA\""));
    assert!(lines[0].contains("\"message\":\"req processed\""));
    assert!(lines[0].contains("\"time\":\""));
    // The span was closed: the second event sees nothing of it.
    assert!(!lines[1].contains("test_url"));
    assert!(lines[1].contains("\"message\":\"test\""));
}

#[test]
fn compose_event_line_matches_to_json_line() {
    let mut layer = GcpLayer::init_with_writer(Vec::<u8>::new());
    layer.on_new_span(2, &fields(&[("http.url", "\"/x\"")]));
    let line = layer.compose_event_line(
        EventLevel::Warn,
        Some("2022-02-02T02:02:02+00:00".to_string()),
        None,
        &fields(&[("message", "w")]),
        &vec![2],
    );
    assert_eq!(
        line,
        "{\"severity\":\"WARNING\",\"message\":\"w\",\"time\":\"2022-02-02T02:02:02+00:00\",\"httpRequest\":{\"requestUrl\":\"/x\"}}"
    );
}
