use opentelemetry_application_insights::model::{Attr, AttrValue, Event, Resource, Span, SpanKind, SpanStatus};
use opentelemetry_application_insights::tags::{get_tags_for_event, get_tags_for_span};
use opentelemetry_application_insights::wire::serialize_envelopes;
use opentelemetry_application_insights::models::Data;
use opentelemetry_application_insights::Exporter;

fn attr(key: &str, value: &str) -> Attr {
    Attr { key: key.to_string(), value: AttrValue::Str(value.to_string()) }
}

fn sample_span() -> Span {
    Span {
        kind: SpanKind::Server,
        name: "list items".to_string(),
        span_id: 0x0123_4567_89ab_cdef,
        start_time_nanos: 1_609_459_200_000_000_000,
        end_time_nanos: 1_609_459_201_500_000_000,
        status: SpanStatus::Okay,
        attributes: vec![
            attr("http.method", "GET"),
            attr("http.route", "/items/{id}"),
            attr("enduser.id", "u-7"),
        ],
        resource: Resource {
            attrs: vec![
                attr("service.name", "shop"),
                attr("service.namespace", "retail"),
                attr("service.version", "1.2.3"),
            ],
        },
        events: vec![Event {
            name: "exception".to_string(),
            timestamp_nanos: 1_609_459_200_700_000_000,
            attributes: vec![
                attr("exception.type", "IOError"),
                attr("exception.message", "disk \"full\""),
            ],
        }],
    }
}

fn tag_value(tags: &[opentelemetry_application_insights::convert::Property], key: &str) -> Option<String> {
    tags.iter().find(|p| p.key == key).map(|p| p.value.clone())
}

#[test]
fn span_tags_resolve_the_catalogue() {
    let span = sample_span();
    let tags = get_tags_for_span(&span);
    assert_eq!(tag_value(&tags, "ai.application.ver").as_deref(), Some("1.2.3"));
    assert_eq!(tag_value(&tags, "ai.user.authUserId").as_deref(), Some("u-7"));
    assert_eq!(tag_value(&tags, "ai.cloud.role").as_deref(), Some("retail.shop"));
    assert_eq!(
        tag_value(&tags, "ai.operation.name").as_deref(),
        Some("GET /items/{id}")
    );
    assert!(tag_value(&tags, "ai.cloud.roleInstance").is_none());
}

#[test]
fn event_tags_equal_span_tags() {
    let span = sample_span();
    let span_tags = get_tags_for_span(&span);
    let event_tags = get_tags_for_event(&span);
    assert_eq!(span_tags.len(), event_tags.len());
    for (a, b) in span_tags.iter().zip(event_tags.iter()) {
        assert_eq!(a.key, b.key);
        assert_eq!(a.value, b.value);
    }
}

#[test]
fn reserved_prefix_attributes_pass_through() {
    let mut span = sample_span();
    span.attributes.push(attr("ai.session.id", "s-1"));
    let tags = get_tags_for_span(&span);
    assert_eq!(tag_value(&tags, "ai.session.id").as_deref(), Some("s-1"));
}

#[test]
fn one_envelope_per_span_plus_one_per_event() {
    let exporter = Exporter::new("ikey-123".to_string(), ());
    let span = sample_span();
    let envelopes = exporter.create_envelopes(&span);
    assert_eq!(envelopes.len(), 2);
    assert_eq!(envelopes[0].name, "Microsoft.ApplicationInsights.Request");
    assert_eq!(envelopes[1].name, "Microsoft.ApplicationInsights.Exception");
    assert_eq!(envelopes[0].time, "2021-01-01T00:00:00.000000Z");
    assert_eq!(envelopes[1].time, "2021-01-01T00:00:00.700000Z");
    for e in &envelopes {
        assert_eq!(e.i_key, "ikey-123");
        assert_eq!(e.sample_rate, 100);
    }
}

#[test]
fn envelope_kind_name_always_matches_record_kind() {
    let exporter = Exporter::new("k".to_string(), ());
    let mut span = sample_span();
    span.events.push(Event {
        name: "note".to_string(),
        timestamp_nanos: 5,
        attributes: Vec::new(),
    });
    for e in exporter.create_envelopes(&span) {
        let expected = match e.data {
            Data::Request(_) => "Microsoft.ApplicationInsights.Request",
            Data::RemoteDependency(_) => "Microsoft.ApplicationInsights.RemoteDependency",
            Data::Exception(_) => "Microsoft.ApplicationInsights.Exception",
            Data::Message(_) => "Microsoft.ApplicationInsights.Message",
        };
        assert_eq!(e.name, expected);
    }
}

#[test]
fn serialized_batch_round_trips_through_an_independent_decoder() {
    let exporter = Exporter::new("ikey-123".to_string(), ())
        .with_sample_rate(50);
    let span = sample_span();
    let envelopes = exporter.create_envelopes(&span);
    let text: String = serialize_envelopes(&envelopes).into_iter().collect();
    let decoded: serde_json::Value = serde_json::from_str(&text).expect("wire text must be JSON");
    let arr = decoded.as_array().expect("an array of envelopes");
    assert_eq!(arr.len(), envelopes.len());
    for (json, env) in arr.iter().zip(envelopes.iter()) {
        assert_eq!(json["name"].as_str().unwrap(), env.name);
        assert_eq!(json["time"].as_str().unwrap(), env.time);
        assert_eq!(json["sampleRate"].as_u64().unwrap(), u64::from(env.sample_rate));
        assert_eq!(json["iKey"].as_str().unwrap(), env.i_key);
        let tags = json["tags"].as_object().unwrap();
        assert_eq!(tags.len(), env.tags.len());
        for p in &env.tags {
            assert_eq!(tags[&p.key].as_str().unwrap(), p.value);
        }
    }
    // the primary record's fields survive the round trip
    let base = &arr[0]["data"];
    assert_eq!(base["baseType"].as_str().unwrap(), "RequestData");
    assert_eq!(base["baseData"]["name"].as_str().unwrap(), "GET /items/{id}");
    assert_eq!(base["baseData"]["id"].as_str().unwrap(), "0123456789abcdef");
    assert_eq!(base["baseData"]["success"].as_bool().unwrap(), true);
    assert_eq!(base["baseData"]["ver"].as_u64().unwrap(), 2);
    // the event record, including the escaped quote in its message
    let exc = &arr[1]["data"];
    assert_eq!(exc["baseType"].as_str().unwrap(), "ExceptionData");
    assert_eq!(
        exc["baseData"]["exceptions"][0]["typeName"].as_str().unwrap(),
        "IOError"
    );
    assert_eq!(
        exc["baseData"]["exceptions"][0]["message"].as_str().unwrap(),
        "disk \"full\""
    );
}

#[test]
fn optional_fields_are_omitted_not_null() {
    let exporter = Exporter::new("k".to_string(), ());
    let span = Span {
        kind: SpanKind::Client,
        name: "dep".to_string(),
        span_id: 1,
        start_time_nanos: 0,
        end_time_nanos: 0,
        status: SpanStatus::Unset,
        attributes: Vec::new(),
        resource: Resource { attrs: Vec::new() },
        events: Vec::new(),
    };
    let envelopes = exporter.create_envelopes(&span);
    let text: String = serialize_envelopes(&envelopes).into_iter().collect();
    let decoded: serde_json::Value = serde_json::from_str(&text).unwrap();
    let base = &decoded[0]["data"]["baseData"];
    assert!(base.get("success").is_none());
    assert!(base.get("data").is_none());
    assert!(base.get("target").is_none());
    assert!(base.get("type").is_none());
    assert!(base.get("properties").is_none());
}

#[test]
fn serializing_the_same_span_twice_is_byte_identical() {
    let exporter = Exporter::new("k".to_string(), ());
    let a: String = serialize_envelopes(&exporter.create_envelopes(&sample_span()))
        .into_iter()
        .collect();
    let b: String = serialize_envelopes(&exporter.create_envelopes(&sample_span()))
        .into_iter()
        .collect();
    assert_eq!(a, b);
}

#[test]
fn exporter_endpoint_configuration() {
    let exporter = Exporter::new("k".to_string(), ());
    assert_eq!(exporter.endpoint, "https://dc.services.visualstudio.com/v2/track");
    let exporter = exporter.with_endpoint("https://westus2.example.test");
    assert_eq!(exporter.endpoint, "https://westus2.example.test/v2/track");
}
