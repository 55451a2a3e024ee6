use opentelemetry_application_insights::model::{Resource, Span, SpanKind, SpanStatus};
use opentelemetry_application_insights::uploader::{
    deliver, interpret_response, parse_response, Error, HttpClient,
};
use opentelemetry_application_insights::Exporter;

fn chars(s: &str) -> Vec<char> {
    s.chars().collect()
}

struct FixedTransport {
    reply: Result<String, String>,
    seen_bodies: Vec<String>,
    seen_endpoints: Vec<String>,
}

impl HttpClient for FixedTransport {
    fn send(&mut self, endpoint: &str, body: String) -> Result<String, String> {
        self.seen_endpoints.push(endpoint.to_string());
        self.seen_bodies.push(body);
        self.reply.clone()
    }
}

fn simple_span() -> Span {
    Span {
        kind: SpanKind::Server,
        name: "op".to_string(),
        span_id: 7,
        start_time_nanos: 0,
        end_time_nanos: 1_000_000,
        status: SpanStatus::Okay,
        attributes: Vec::new(),
        resource: Resource { attrs: Vec::new() },
        events: Vec::new(),
    }
}

#[test]
fn partial_acceptance_is_a_rejection_not_silent_success() {
    let body = "{\"itemsReceived\":3,\"itemsAccepted\":2,\"errors\":[{\"index\":2,\"statusCode\":400,\"message\":\"bad item\"}]}";
    let resp = parse_response(&chars(body)).expect("response parses");
    assert_eq!(resp.items_received, 3);
    assert_eq!(resp.items_accepted, 2);
    assert_eq!(resp.errors.len(), 1);
    assert_eq!(resp.errors[0].index, 2);
    assert_eq!(resp.errors[0].status_code, 400);
    assert_eq!(resp.errors[0].message, "bad item");
    match interpret_response(&resp) {
        Err(Error::Upload(summary)) => {
            assert_eq!(summary, "index 2 status 400: bad item");
        }
        other => panic!("expected an aggregate rejection, got {:?}", other),
    }
}

#[test]
fn several_errors_are_all_summarized() {
    let body = "{\"itemsReceived\":2,\"itemsAccepted\":0,\"errors\":[\
        {\"index\":0,\"statusCode\":400,\"message\":\"a\"},\
        {\"index\":1,\"statusCode\":500,\"message\":\"b\"}]}";
    let resp = parse_response(&chars(body)).expect("response parses");
    match interpret_response(&resp) {
        Err(Error::Upload(summary)) => {
            assert_eq!(summary, "index 0 status 400: a; index 1 status 500: b");
        }
        other => panic!("expected an aggregate rejection, got {:?}", other),
    }
}

#[test]
fn zero_reported_failures_is_success() {
    let resp = parse_response(&chars("{\"itemsReceived\":1,\"itemsAccepted\":1,\"errors\":[]}"))
        .expect("response parses");
    assert!(interpret_response(&resp).is_ok());
    // the errors array may also be absent entirely
    let resp = parse_response(&chars(" {\"itemsAccepted\":1, \"itemsReceived\":1} "))
        .expect("response parses");
    assert!(interpret_response(&resp).is_ok());
}

#[test]
fn response_fields_parse_in_any_order_with_escapes() {
    let body = "{\"errors\":[{\"message\":\"x\\\"y\\n\",\"statusCode\":429,\"index\":0}],\
        \"itemsAccepted\":0,\"itemsReceived\":1}";
    let resp = parse_response(&chars(body)).expect("response parses");
    assert_eq!(resp.errors[0].message, "x\"y\n");
    assert_eq!(resp.errors[0].status_code, 429);
}

#[test]
fn unreadable_responses_are_refused() {
    assert!(parse_response(&chars("not json")).is_none());
    assert!(parse_response(&chars("{\"itemsReceived\":1}")).is_none());
    assert!(parse_response(&chars("")).is_none());
    // a lone surrogate escape is not a decodable string
    assert!(parse_response(&chars(
        "{\"itemsReceived\":1,\"itemsAccepted\":0,\"errors\":[{\"index\":0,\"statusCode\":400,\"message\":\"\\ud83d\"}]}"
    )).is_none());
}

#[test]
fn unknown_members_are_skipped() {
    let body = "{\"itemsReceived\":2,\"itemsAccepted\":2,\"appId\":\"abc\",\
        \"extra\":{\"a\":[1,-2.5e3,true,null,\"s\"],\"b\":{}},\"errors\":[]}";
    let resp = parse_response(&chars(body)).expect("unknown members are read past");
    assert_eq!(resp.items_received, 2);
    assert!(interpret_response(&resp).is_ok());
}

#[test]
fn unicode_escapes_decode() {
    let body = "{\"itemsReceived\":1,\"itemsAccepted\":0,\"errors\":[\
        {\"index\":0,\"statusCode\":400,\"message\":\"\\u0041 \\ud83d\\ude00\"}]}";
    let resp = parse_response(&chars(body)).expect("unicode escapes decode");
    assert_eq!(resp.errors[0].message, "A \u{1F600}");
}

#[test]
fn delivery_success() {
    let mut t = FixedTransport {
        reply: Ok("{\"itemsReceived\":1,\"itemsAccepted\":1,\"errors\":[]}".to_string()),
        seen_bodies: Vec::new(),
        seen_endpoints: Vec::new(),
    };
    let envelopes = Exporter::new("k".to_string(), ()).create_envelopes(&simple_span());
    let r = deliver(&mut t, "https://endpoint.test/v2/track", &envelopes);
    assert!(r.is_ok());
    assert_eq!(t.seen_endpoints, vec!["https://endpoint.test/v2/track".to_string()]);
    assert!(t.seen_bodies[0].starts_with("[{\"name\":\"Microsoft.ApplicationInsights.Request\""));
}

#[test]
fn delivery_connection_failure_is_retryable_error() {
    let mut t = FixedTransport {
        reply: Err("connection refused".to_string()),
        seen_bodies: Vec::new(),
        seen_endpoints: Vec::new(),
    };
    let r = deliver(&mut t, "e", &Vec::new());
    match r {
        Err(Error::UploadConnection(msg)) => assert_eq!(msg, "connection refused"),
        other => panic!("expected a connection error, got {:?}", other),
    }
}

#[test]
fn delivery_with_undecodable_response_is_unknown_outcome() {
    let mut t = FixedTransport {
        reply: Ok("<html>gateway error</html>".to_string()),
        seen_bodies: Vec::new(),
        seen_endpoints: Vec::new(),
    };
    let r = deliver(&mut t, "e", &Vec::new());
    match r {
        Err(Error::UploadDeserializeResponse(_)) => {}
        other => panic!("expected an unknown-outcome error, got {:?}", other),
    }
}

#[test]
fn delivery_partial_rejection_through_exporter_export() {
    let t = FixedTransport {
        reply: Ok("{\"itemsReceived\":3,\"itemsAccepted\":2,\"errors\":[{\"index\":1,\"statusCode\":400,\"message\":\"oops\"}]}".to_string()),
        seen_bodies: Vec::new(),
        seen_endpoints: Vec::new(),
    };
    let mut exporter = Exporter::new("k".to_string(), t);
    let r = exporter.export(vec![simple_span()]);
    match r {
        Err(Error::Upload(summary)) => assert_eq!(summary, "index 1 status 400: oops"),
        other => panic!("expected an aggregate rejection, got {:?}", other),
    }
    assert_eq!(
        exporter.client.seen_endpoints,
        vec!["https://dc.services.visualstudio.com/v2/track".to_string()]
    );
}
