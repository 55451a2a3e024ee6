use opentelemetry_application_insights::model::{Attr, AttrValue, Event, Resource, Span, SpanKind, SpanStatus};
use opentelemetry_application_insights::models::{Data, SeverityLevel};
use opentelemetry_application_insights::mapping::{map_event, map_span};
use opentelemetry_application_insights::text::{truncate_str, u64_to_hex_pad, u64_to_string, i64_to_string};
use opentelemetry_application_insights::time::{duration_to_string, time_to_string};
use opentelemetry_application_insights::model::value_to_string;

fn attr(key: &str, value: &str) -> Attr {
    Attr { key: key.to_string(), value: AttrValue::Str(value.to_string()) }
}

fn span_with(kind: SpanKind, status: SpanStatus, attrs: Vec<Attr>) -> Span {
    Span {
        kind,
        name: "spanname".to_string(),
        span_id: 0x0123_4567_89ab_cdef,
        start_time_nanos: 1_609_459_200_000_000_000,
        end_time_nanos: 1_609_459_201_500_000_000,
        status,
        attributes: attrs,
        resource: Resource { attrs: Vec::new() },
        events: Vec::new(),
    }
}

#[test]
fn server_span_with_method_and_route_maps_to_request() {
    let span = span_with(
        SpanKind::Server,
        SpanStatus::Okay,
        vec![attr("http.method", "GET"), attr("http.route", "/items/{id}")],
    );
    match map_span(&span) {
        Data::Request(r) => {
            assert_eq!(r.name.as_deref(), Some("GET /items/{id}"));
            assert!(r.success);
        }
        _ => panic!("expected a Request record"),
    }
}

#[test]
fn client_span_with_peer_and_db_system_maps_to_dependency() {
    let span = span_with(
        SpanKind::Client,
        SpanStatus::Unset,
        vec![
            attr("net.peer.name", "db.internal"),
            attr("net.peer.port", "5432"),
            attr("db.system", "postgresql"),
        ],
    );
    match map_span(&span) {
        Data::RemoteDependency(d) => {
            assert_eq!(d.target.as_deref(), Some("db.internal:5432"));
            assert_eq!(d.type_.as_deref(), Some("postgresql"));
            assert_eq!(d.success, None);
        }
        _ => panic!("expected a RemoteDependency record"),
    }
}

#[test]
fn span_kind_routing_is_total() {
    for (kind, expect_request) in [
        (SpanKind::Server, true),
        (SpanKind::Consumer, true),
        (SpanKind::Client, false),
        (SpanKind::Producer, false),
        (SpanKind::Internal, false),
    ] {
        let span = span_with(kind, SpanStatus::Okay, Vec::new());
        match (map_span(&span), expect_request) {
            (Data::Request(_), true) => {}
            (Data::RemoteDependency(_), false) => {}
            _ => panic!("record kind does not match span kind"),
        }
    }
}

#[test]
fn exception_event_maps_to_exception_record() {
    let event = Event {
        name: "exception".to_string(),
        timestamp_nanos: 1_609_459_200_000_000_000,
        attributes: vec![
            attr("exception.type", "IOError"),
            attr("exception.message", "disk full"),
        ],
    };
    match map_event(&event) {
        Data::Exception(e) => {
            assert_eq!(e.exceptions.len(), 1);
            assert_eq!(e.exceptions[0].type_, "IOError");
            assert_eq!(e.exceptions[0].message, "disk full");
            assert!(e.exceptions[0].stack.is_none());
            assert!(e.properties.is_none());
        }
        _ => panic!("expected an Exception record"),
    }
}

#[test]
fn empty_event_maps_to_message_with_placeholder() {
    let event = Event {
        name: String::new(),
        timestamp_nanos: 0,
        attributes: Vec::new(),
    };
    match map_event(&event) {
        Data::Message(m) => {
            assert_eq!(m.message, "<no message>");
            assert!(m.properties.is_none());
        }
        _ => panic!("expected a Message record"),
    }
}

#[test]
fn dependency_data_prefers_url_over_statement() {
    let span = span_with(
        SpanKind::Client,
        SpanStatus::Okay,
        vec![
            attr("http.url", "https://example.test/q"),
            attr("db.statement", "SELECT 1"),
        ],
    );
    match map_span(&span) {
        Data::RemoteDependency(d) => {
            assert_eq!(d.data.as_deref(), Some("https://example.test/q"));
        }
        _ => panic!("expected a RemoteDependency record"),
    }
}

#[test]
fn internal_span_type_is_always_inproc() {
    let span = span_with(
        SpanKind::Internal,
        SpanStatus::Okay,
        vec![attr("db.system", "postgresql")],
    );
    match map_span(&span) {
        Data::RemoteDependency(d) => {
            assert_eq!(d.type_.as_deref(), Some("InProc"));
        }
        _ => panic!("expected a RemoteDependency record"),
    }
}

#[test]
fn dependency_type_inferred_from_http_property_keys() {
    let span = span_with(
        SpanKind::Client,
        SpanStatus::Okay,
        vec![attr("http.flavor", "1.1")],
    );
    match map_span(&span) {
        Data::RemoteDependency(d) => {
            assert_eq!(d.type_.as_deref(), Some("HTTP"));
        }
        _ => panic!("expected a RemoteDependency record"),
    }
}

#[test]
fn property_value_over_cap_is_cut_to_exactly_the_cap() {
    let long = "x".repeat(1500);
    let span = span_with(
        SpanKind::Server,
        SpanStatus::Okay,
        vec![attr("custom.key", &long)],
    );
    match map_span(&span) {
        Data::Request(r) => {
            let props = r.properties.expect("one property expected");
            assert_eq!(props.len(), 1);
            assert_eq!(props[0].key, "custom.key");
            assert_eq!(props[0].value.chars().count(), 1024);
            assert_eq!(props[0].value, "x".repeat(1024));
        }
        _ => panic!("expected a Request record"),
    }
}

#[test]
fn consumed_attribute_keys_stay_visible_as_properties() {
    let span = span_with(
        SpanKind::Server,
        SpanStatus::Okay,
        vec![attr("http.method", "GET"), attr("http.route", "/x")],
    );
    match map_span(&span) {
        Data::Request(r) => {
            let props = r.properties.expect("properties expected");
            assert!(props.iter().any(|p| p.key == "http.method" && p.value == "GET"));
            assert!(props.iter().any(|p| p.key == "http.route" && p.value == "/x"));
        }
        _ => panic!("expected a Request record"),
    }
}

#[test]
fn exception_keys_are_extracted_from_the_property_bag() {
    let event = Event {
        name: "exception".to_string(),
        timestamp_nanos: 0,
        attributes: vec![
            attr("exception.type", "IOError"),
            attr("exception.message", "disk full"),
            attr("context", "write"),
        ],
    };
    match map_event(&event) {
        Data::Exception(e) => {
            let props = e.properties.expect("one property expected");
            assert_eq!(props.len(), 1);
            assert_eq!(props[0].key, "context");
            assert_eq!(props[0].value, "write");
        }
        _ => panic!("expected an Exception record"),
    }
}

#[test]
fn truncate_keeps_short_strings_whole() {
    assert_eq!(truncate_str("hello"), "hello");
    let exactly = "y".repeat(1024);
    assert_eq!(truncate_str(&exactly), exactly);
}

#[test]
fn mapping_same_span_twice_is_byte_identical() {
    let make = || {
        span_with(
            SpanKind::Server,
            SpanStatus::Error,
            vec![attr("http.method", "POST"), attr("k", "v")],
        )
    };
    let a = map_span(&make());
    let b = map_span(&make());
    match (a, b) {
        (Data::Request(x), Data::Request(y)) => {
            assert_eq!(x.name, y.name);
            assert_eq!(x.id, y.id);
            assert_eq!(x.duration, y.duration);
            assert_eq!(x.response_code, y.response_code);
            assert_eq!(x.success, y.success);
        }
        _ => panic!("expected Request records"),
    }
}

#[test]
fn request_url_synthesized_from_scheme_host_target() {
    let span = span_with(
        SpanKind::Server,
        SpanStatus::Okay,
        vec![
            attr("http.scheme", "https"),
            attr("http.host", "example.test"),
            attr("http.target", "path?q=1"),
        ],
    );
    match map_span(&span) {
        Data::Request(r) => {
            assert_eq!(r.url.as_deref(), Some("https://example.test/path?q=1"));
        }
        _ => panic!("expected a Request record"),
    }
}

#[test]
fn request_response_code_overridden_by_status_attribute() {
    let span = span_with(
        SpanKind::Server,
        SpanStatus::Error,
        vec![attr("http.status_code", "503"), attr("http.client_ip", "10.0.0.9")],
    );
    match map_span(&span) {
        Data::Request(r) => {
            assert_eq!(r.response_code, "503");
            assert!(!r.success);
            assert_eq!(r.source.as_deref(), Some("10.0.0.9"));
        }
        _ => panic!("expected a Request record"),
    }
}

#[test]
fn request_defaults_without_attributes() {
    let span = span_with(SpanKind::Consumer, SpanStatus::Unset, Vec::new());
    match map_span(&span) {
        Data::Request(r) => {
            assert_eq!(r.name.as_deref(), Some("spanname"));
            assert_eq!(r.response_code, "0");
            assert!(r.success);
            assert!(r.url.is_none());
            assert!(r.source.is_none());
            assert!(r.properties.is_none());
            assert_eq!(r.id, "0123456789abcdef");
            assert_eq!(r.duration, "0.00:00:01.500000");
        }
        _ => panic!("expected a Request record"),
    }
}

#[test]
fn attribute_values_stringified() {
    assert_eq!(value_to_string(&AttrValue::Bool(true)), "true");
    assert_eq!(value_to_string(&AttrValue::Int(-42)), "-42");
    assert_eq!(
        value_to_string(&AttrValue::IntArray(vec![1, 2, 3])),
        "1,2,3"
    );
    assert_eq!(
        value_to_string(&AttrValue::StrArray(vec!["a".to_string(), "b".to_string()])),
        "a,b"
    );
    assert_eq!(
        value_to_string(&AttrValue::BoolArray(vec![true, false])),
        "true,false"
    );
}

#[test]
fn number_formatting() {
    assert_eq!(u64_to_string(0), "0");
    assert_eq!(u64_to_string(987654), "987654");
    assert_eq!(i64_to_string(i64::MIN), "-9223372036854775808");
    assert_eq!(u64_to_hex_pad(0xdead, 16), "000000000000dead");
}

#[test]
fn time_formatting_is_iso8601_utc() {
    assert_eq!(
        time_to_string(1_609_459_200_000_000_000),
        "2021-01-01T00:00:00.000000Z"
    );
    assert_eq!(
        time_to_string(1_609_459_200_123_456_789),
        "2021-01-01T00:00:00.123456Z"
    );
    // a leap day
    assert_eq!(
        time_to_string(1_582_934_400_000_000_000),
        "2020-02-29T00:00:00.000000Z"
    );
    assert_eq!(time_to_string(0), "1970-01-01T00:00:00.000000Z");
}

#[test]
fn duration_formatting() {
    assert_eq!(duration_to_string(0), "0.00:00:00.000000");
    // one day, one hour, one minute, one second, a quarter second
    assert_eq!(duration_to_string(90_061_250_000), "1.01:01:01.250000");
}

#[test]
fn severity_level_wire_names() {
    assert_eq!(SeverityLevel::Verbose.wire_name(), "Verbose");
    assert_eq!(SeverityLevel::Information.wire_name(), "Information");
    assert_eq!(SeverityLevel::Warning.wire_name(), "Warning");
    assert_eq!(SeverityLevel::Error.wire_name(), "Error");
    assert_eq!(SeverityLevel::Critical.wire_name(), "Critical");
}
