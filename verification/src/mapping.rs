//! The field-mapping engine: pure, total translation of a completed span
//! into a Request or RemoteDependency record, and of an event into an
//! Exception or Message record.
//!
//! Attributes consumed into structured fields (method, route, status
//! code, URL parts, IPs) are not deleted from the custom-properties bag:
//! precedence decides each structured field, and the bag keeps every
//! attribute. The one exception is the exception-event mapping, whose
//! three dedicated keys are extracted out of the bag.

use vstd::prelude::*;
use crate::model::{
    Attr, AttrV, EventV, Span, SpanKind, SpanStatus, SpanV, Event, attrs_view, lookup,
    str_of_value, find_attr, value_to_string,
};
use crate::models::{
    Data, DataV, ExceptionData, ExceptionDataV, ExceptionDetails, ExceptionDetailsV, MessageData,
    MessageDataV, RequestData, RequestDataV, RemoteDependencyData, RemoteDependencyDataV,
};
use crate::convert::{
    Property, PropV, attrs_to_properties, spec_to_properties, props_of_attrs, props_view,
    prop_of_attr, to_property,
};
use crate::text::{truncated, truncate_str, hex_pad, u64_to_hex_pad};
use crate::time::{duration_chars, duration_to_string};

verus! {

/// The string an attribute contributes to a structured field: its value's
/// text, truncated to the schema cap.
pub open spec fn spec_attr_str(attrs: Seq<AttrV>, key: Seq<char>) -> Option<Seq<char>> {
    match lookup(attrs, key) {
        Some(v) => Some(truncated(str_of_value(v))),
        None => None,
    }
}

/// The untruncated text of an attribute value, for fields composed from
/// several attributes before the cap applies.
pub open spec fn spec_attr_raw(attrs: Seq<AttrV>, key: Seq<char>) -> Option<Seq<char>> {
    match lookup(attrs, key) {
        Some(v) => Some(str_of_value(v)),
        None => None,
    }
}

/// Exec counterpart of [`spec_attr_str`].
pub fn attr_str(attrs: &Vec<Attr>, key: &String) -> (r: Option<String>)
    ensures
        match r {
            Some(s) => spec_attr_str(attrs_view(attrs@), key@) == Some(s@),
            None => spec_attr_str(attrs_view(attrs@), key@) is None,
        },
{
    match find_attr(attrs, key) {
        Some(v) => Some(truncate_str(value_to_string(v).as_str())),
        None => None,
    }
}

/// Exec counterpart of [`spec_attr_raw`].
pub fn attr_raw(attrs: &Vec<Attr>, key: &String) -> (r: Option<String>)
    ensures
        match r {
            Some(s) => spec_attr_raw(attrs_view(attrs@), key@) == Some(s@),
            None => spec_attr_raw(attrs_view(attrs@), key@) is None,
        },
{
    match find_attr(attrs, key) {
        Some(v) => Some(value_to_string(v)),
        None => None,
    }
}

/// The span's elapsed time in whole microseconds, zero when the end
/// precedes the start.
pub open spec fn spec_duration_micros(s: SpanV) -> nat {
    if s.end_time_nanos >= s.start_time_nanos {
        ((s.end_time_nanos - s.start_time_nanos) as nat) / 1000
    } else {
        0
    }
}

/// The numeric text of a span status: its code in the status enumeration.
pub open spec fn spec_status_code(status: SpanStatus) -> Seq<char> {
    match status {
        SpanStatus::Unset => "0"@,
        SpanStatus::Okay => "1"@,
        SpanStatus::Error => "2"@,
    }
}

/// The response or result code of a span: an HTTP-status-code attribute
/// when present, else the numeric span status.
pub open spec fn spec_response_code(s: SpanV) -> Seq<char> {
    match spec_attr_str(s.attributes, "http.status_code"@) {
        Some(c) => c,
        None => spec_status_code(s.status),
    }
}

/// A Request's name: the HTTP method (with the route appended when both
/// are present) wins; else the span name when non-empty; else absent.
pub open spec fn spec_request_name(s: SpanV) -> Option<Seq<char>> {
    match spec_attr_raw(s.attributes, "http.method"@) {
        Some(m) => match spec_attr_raw(s.attributes, "http.route"@) {
            Some(rt) => Some(truncated(m + " "@ + rt)),
            None => Some(truncated(m)),
        },
        None => if s.name.len() > 0 {
            Some(truncated(s.name))
        } else {
            None
        },
    }
}

/// An HTTP target normalized to start with `'/'`.
pub open spec fn spec_normalized_target(t: Seq<char>) -> Seq<char> {
    if t.len() > 0 && t[0] == '/' {
        t
    } else {
        "/"@ + t
    }
}

/// A Request's URL: an explicit URL attribute; else scheme+host+target
/// when scheme and host are both present; else the target alone; else
/// absent.
pub open spec fn spec_request_url(s: SpanV) -> Option<Seq<char>> {
    match spec_attr_raw(s.attributes, "http.url"@) {
        Some(u) => Some(truncated(u)),
        None => match spec_attr_raw(s.attributes, "http.target"@) {
            Some(t) => {
                let tn = spec_normalized_target(t);
                match (
                    spec_attr_raw(s.attributes, "http.scheme"@),
                    spec_attr_raw(s.attributes, "http.host"@),
                ) {
                    (Some(scheme), Some(host)) => Some(truncated(scheme + "://"@ + host + tn)),
                    _ => Some(truncated(tn)),
                }
            },
            None => None,
        },
    }
}

/// A Request's source: the client IP, else the peer IP, else absent.
pub open spec fn spec_request_source(s: SpanV) -> Option<Seq<char>> {
    match spec_attr_str(s.attributes, "http.client_ip"@) {
        Some(ip) => Some(ip),
        None => spec_attr_str(s.attributes, "net.peer.ip"@),
    }
}

/// The Request record a Server- or Consumer-kind span maps to.
pub open spec fn spec_request_data(s: SpanV) -> RequestDataV {
    RequestDataV {
        ver: 2,
        id: hex_pad(s.span_id as nat, 16),
        name: spec_request_name(s),
        duration: duration_chars(spec_duration_micros(s)),
        response_code: spec_response_code(s),
        success: s.status != SpanStatus::Error,
        source: spec_request_source(s),
        url: spec_request_url(s),
        properties: spec_to_properties(s.attributes, s.resource),
    }
}

/// A RemoteDependency's data: the HTTP URL, else the DB statement, else
/// absent.
pub open spec fn spec_dependency_data(s: SpanV) -> Option<Seq<char>> {
    match spec_attr_str(s.attributes, "http.url"@) {
        Some(u) => Some(u),
        None => spec_attr_str(s.attributes, "db.statement"@),
    }
}

/// A RemoteDependency's target: the HTTP host; else peer name (with
/// `:port` when present); else peer IP (with `:port`); else the DB name;
/// else absent.
pub open spec fn spec_dependency_target(s: SpanV) -> Option<Seq<char>> {
    match spec_attr_str(s.attributes, "http.host"@) {
        Some(h) => Some(h),
        None => match spec_attr_raw(s.attributes, "net.peer.name"@) {
            Some(pn) => match spec_attr_raw(s.attributes, "net.peer.port"@) {
                Some(pp) => Some(truncated(pn + ":"@ + pp)),
                None => Some(truncated(pn)),
            },
            None => match spec_attr_raw(s.attributes, "net.peer.ip"@) {
                Some(ip) => match spec_attr_raw(s.attributes, "net.peer.port"@) {
                    Some(pp) => Some(truncated(ip + ":"@ + pp)),
                    None => Some(truncated(ip)),
                },
                None => spec_attr_str(s.attributes, "db.name"@),
            },
        },
    }
}

/// Whether `prefix` starts `s`.
pub open spec fn is_prefix_of(prefix: Seq<char>, s: Seq<char>) -> bool {
    s.len() >= prefix.len() && s.subrange(0, prefix.len() as int) == prefix
}

/// Whether any property key starts with `prefix`.
pub open spec fn any_key_prefix(ps: Seq<PropV>, prefix: Seq<char>) -> bool {
    exists|k: int| 0 <= k < ps.len() && is_prefix_of(prefix, ps[k].key)
}

/// A RemoteDependency's type: `InProc` for Internal spans above all; else
/// the DB, messaging or RPC system; else `HTTP` or `DB` inferred from the
/// property keys, in that order; else absent.
pub open spec fn spec_dependency_type(s: SpanV) -> Option<Seq<char>> {
    if s.kind == SpanKind::Internal {
        Some("InProc"@)
    } else {
        match spec_attr_str(s.attributes, "db.system"@) {
            Some(d) => Some(d),
            None => match spec_attr_str(s.attributes, "messaging.system"@) {
                Some(m) => Some(m),
                None => match spec_attr_str(s.attributes, "rpc.system"@) {
                    Some(r) => Some(r),
                    None => match spec_to_properties(s.attributes, s.resource) {
                        Some(ps) => if any_key_prefix(ps, "http."@) {
                            Some("HTTP"@)
                        } else if any_key_prefix(ps, "db."@) {
                            Some("DB"@)
                        } else {
                            None
                        },
                        None => None,
                    },
                },
            },
        }
    }
}

/// The success of a dependency: absent for Unset, the status otherwise.
pub open spec fn spec_dependency_success(status: SpanStatus) -> Option<bool> {
    match status {
        SpanStatus::Unset => None,
        SpanStatus::Okay => Some(true),
        SpanStatus::Error => Some(false),
    }
}

/// The RemoteDependency record a Client-, Producer- or Internal-kind span
/// maps to.
pub open spec fn spec_remote_dependency_data(s: SpanV) -> RemoteDependencyDataV {
    RemoteDependencyDataV {
        ver: 2,
        id: Some(hex_pad(s.span_id as nat, 16)),
        name: truncated(s.name),
        duration: duration_chars(spec_duration_micros(s)),
        result_code: Some(spec_response_code(s)),
        success: spec_dependency_success(s.status),
        data: spec_dependency_data(s),
        target: spec_dependency_target(s),
        type_: spec_dependency_type(s),
        properties: spec_to_properties(s.attributes, s.resource),
    }
}

/// The event attributes left over once the exception keys are extracted.
pub open spec fn spec_exception_rest(attrs: Seq<AttrV>, i: nat) -> Seq<AttrV>
    decreases i,
{
    if i == 0 {
        Seq::empty()
    } else {
        let prev = spec_exception_rest(attrs, (i - 1) as nat);
        let a = attrs[i - 1];
        if a.key == "exception.type"@ || a.key == "exception.message"@ || a.key
            == "exception.stacktrace"@ {
            prev
        } else {
            prev.push(a)
        }
    }
}

/// The leftover attributes as a property bag, absent when empty.
pub open spec fn spec_exception_properties(attrs: Seq<AttrV>) -> Option<Seq<PropV>> {
    let ps = props_of_attrs(spec_exception_rest(attrs, attrs.len()));
    if ps.len() == 0 {
        None
    } else {
        Some(ps)
    }
}

/// The Exception record an event named `exception` maps to.
pub open spec fn spec_exception_data(e: EventV) -> ExceptionDataV {
    ExceptionDataV {
        ver: 2,
        exceptions: seq![
            ExceptionDetailsV {
                type_: match spec_attr_str(e.attributes, "exception.type"@) {
                    Some(t) => t,
                    None => "<no type>"@,
                },
                message: match spec_attr_str(e.attributes, "exception.message"@) {
                    Some(m) => m,
                    None => "<no message>"@,
                },
                stack: spec_attr_str(e.attributes, "exception.stacktrace"@),
            },
        ],
        properties: spec_exception_properties(e.attributes),
    }
}

/// The event attributes as a property bag, absent when empty.
pub open spec fn spec_event_properties(attrs: Seq<AttrV>) -> Option<Seq<PropV>> {
    let ps = props_of_attrs(attrs);
    if ps.len() == 0 {
        None
    } else {
        Some(ps)
    }
}

/// The Message record every other event maps to.
pub open spec fn spec_message_data(e: EventV) -> MessageDataV {
    MessageDataV {
        ver: 2,
        message: if e.name.len() == 0 {
            "<no message>"@
        } else {
            truncated(e.name)
        },
        properties: spec_event_properties(e.attributes),
    }
}

/// The record a span maps to: Request for Server and Consumer kinds,
/// RemoteDependency for Client, Producer and Internal kinds.
pub open spec fn spec_map_span(s: SpanV) -> DataV {
    match s.kind {
        SpanKind::Server | SpanKind::Consumer => DataV::Request(spec_request_data(s)),
        SpanKind::Client | SpanKind::Producer | SpanKind::Internal => DataV::RemoteDependency(
            spec_remote_dependency_data(s),
        ),
    }
}

/// The record an event maps to: Exception when its name is exactly
/// `exception`, Message otherwise.
pub open spec fn spec_map_event(e: EventV) -> DataV {
    if e.name == "exception"@ {
        DataV::Exception(spec_exception_data(e))
    } else {
        DataV::Message(spec_message_data(e))
    }
}

/// Precedence of dependency data: when an HTTP-URL attribute is present,
/// the `data` field is the URL — never the DB statement, whether or not
/// one is present.
pub proof fn lemma_dependency_data_prefers_url(s: SpanV, u: crate::model::ValueV)
    requires
        lookup(s.attributes, "http.url"@) == Some(u),
    ensures
        spec_dependency_data(s) == Some(truncated(str_of_value(u))),
{
}

/// Precedence of dependency type: an Internal-kind span's `type` is the
/// literal `InProc`, whatever other signals (such as a DB-system
/// attribute) are present.
pub proof fn lemma_internal_type_is_inproc(s: SpanV)
    requires
        s.kind == SpanKind::Internal,
    ensures
        spec_dependency_type(s) == Some("InProc"@),
{
}

/// Exec counterpart of [`spec_request_name`].
fn request_name(span: &Span) -> (r: Option<String>)
    ensures
        crate::models::opt_view(r) == spec_request_name(span@),
{
    match attr_raw(&span.attributes, &crate::keys::http_method()) {
        Some(m) => match attr_raw(&span.attributes, &crate::keys::http_route()) {
            Some(rt) => Some(truncate_str(m.concat(" ").concat(rt.as_str()).as_str())),
            None => Some(truncate_str(m.as_str())),
        },
        None => {
            if span.name.as_str().unicode_len() > 0 {
                Some(truncate_str(span.name.as_str()))
            } else {
                None
            }
        },
    }
}

/// Exec counterpart of [`spec_request_url`].
fn request_url(span: &Span) -> (r: Option<String>)
    ensures
        crate::models::opt_view(r) == spec_request_url(span@),
{
    match attr_raw(&span.attributes, &crate::keys::http_url()) {
        Some(u) => Some(truncate_str(u.as_str())),
        None => match attr_raw(&span.attributes, &crate::keys::http_target()) {
            Some(t) => {
                let tn: String = if t.as_str().unicode_len() > 0 && t.as_str().get_char(0) == '/' {
                    t
                } else {
                    String::from_str("/").concat(t.as_str())
                };
                match (
                    attr_raw(&span.attributes, &crate::keys::http_scheme()),
                    attr_raw(&span.attributes, &crate::keys::http_host()),
                ) {
                    (Some(scheme), Some(host)) => Some(
                        truncate_str(
                            scheme.concat("://").concat(host.as_str()).concat(
                                tn.as_str(),
                            ).as_str(),
                        ),
                    ),
                    _ => Some(truncate_str(tn.as_str())),
                }
            },
            None => None,
        },
    }
}

/// Exec counterpart of [`spec_response_code`].
fn response_code(span: &Span) -> (r: String)
    ensures
        r@ == spec_response_code(span@),
{
    match attr_str(&span.attributes, &crate::keys::http_status_code()) {
        Some(c) => c,
        None => match span.status {
            SpanStatus::Unset => String::from_str("0"),
            SpanStatus::Okay => String::from_str("1"),
            SpanStatus::Error => String::from_str("2"),
        },
    }
}

/// The span's elapsed time in whole microseconds; see
/// [`spec_duration_micros`].
pub fn span_duration_micros(span: &Span) -> (r: u64)
    ensures
        r as nat == spec_duration_micros(span@),
{
    if span.end_time_nanos >= span.start_time_nanos {
        (span.end_time_nanos - span.start_time_nanos) / 1000
    } else {
        0
    }
}

/// Maps a Server- or Consumer-kind span to its Request record.
pub fn request_data_from_span(span: &Span) -> (r: RequestData)
    ensures
        r@ == spec_request_data(span@),
{
    RequestData {
        ver: 2,
        id: u64_to_hex_pad(span.span_id, 16),
        name: request_name(span),
        duration: duration_to_string(span_duration_micros(span)),
        response_code: response_code(span),
        success: !matches!(span.status, SpanStatus::Error),
        source: match attr_str(&span.attributes, &crate::keys::http_client_ip()) {
            Some(ip) => Some(ip),
            None => attr_str(&span.attributes, &crate::keys::net_peer_ip()),
        },
        url: request_url(span),
        properties: attrs_to_properties(&span.attributes, &span.resource.attrs),
    }
}

/// Exec counterpart of [`spec_dependency_target`].
fn dependency_target(span: &Span) -> (r: Option<String>)
    ensures
        crate::models::opt_view(r) == spec_dependency_target(span@),
{
    match attr_str(&span.attributes, &crate::keys::http_host()) {
        Some(h) => Some(h),
        None => match attr_raw(&span.attributes, &crate::keys::net_peer_name()) {
            Some(pn) => match attr_raw(&span.attributes, &crate::keys::net_peer_port()) {
                Some(pp) => Some(truncate_str(pn.concat(":").concat(pp.as_str()).as_str())),
                None => Some(truncate_str(pn.as_str())),
            },
            None => match attr_raw(&span.attributes, &crate::keys::net_peer_ip()) {
                Some(ip) => match attr_raw(&span.attributes, &crate::keys::net_peer_port()) {
                    Some(pp) => Some(truncate_str(ip.concat(":").concat(pp.as_str()).as_str())),
                    None => Some(truncate_str(ip.as_str())),
                },
                None => attr_str(&span.attributes, &crate::keys::db_name()),
            },
        },
    }
}

/// Whether `s` starts with `prefix`; exec counterpart of
/// [`is_prefix_of`].
pub fn str_has_prefix(s: &String, prefix: &str) -> (r: bool)
    ensures
        r == is_prefix_of(prefix@, s@),
{
    let n = prefix.unicode_len();
    if s.as_str().unicode_len() < n {
        proof {
            assert(!is_prefix_of(prefix@, s@));
        }
        return false;
    }
    let mut j: usize = 0;
    while j < n
        invariant
            j <= n,
            n == prefix@.len(),
            s@.len() >= n,
            forall|k: int| 0 <= k < j ==> s@[k] == prefix@[k],
        decreases n - j,
    {
        if s.as_str().get_char(j) != prefix.get_char(j) {
            proof {
                assert(s@.subrange(0, n as int)[j as int] == s@[j as int]);
                assert(s@.subrange(0, n as int) != prefix@);
            }
            return false;
        }
        j += 1;
    }
    proof {
        assert(s@.subrange(0, n as int) =~= prefix@);
    }
    true
}

/// Whether any property key in `ps` starts with `prefix`; exec
/// counterpart of [`any_key_prefix`].
fn props_have_prefix(ps: &Vec<Property>, prefix: &str) -> (r: bool)
    ensures
        r == any_key_prefix(props_view(ps@), prefix@),
{
    let mut i: usize = 0;
    while i < ps.len()
        invariant
            i <= ps.len(),
            forall|k: int| 0 <= k < i ==> !is_prefix_of(prefix@, props_view(ps@)[k].key),
        decreases ps.len() - i,
    {
        proof {
            assert(props_view(ps@)[i as int] == ps@[i as int]@);
        }
        if str_has_prefix(&ps[i].key, prefix) {
            return true;
        }
        i += 1;
    }
    false
}

/// Exec counterpart of [`spec_dependency_type`].
fn dependency_type(span: &Span, properties: &Option<Vec<Property>>) -> (r: Option<String>)
    requires
        crate::models::opt_props_view(*properties) == spec_to_properties(
            attrs_view(span.attributes@),
            attrs_view(span.resource.attrs@),
        ),
    ensures
        crate::models::opt_view(r) == spec_dependency_type(span@),
{
    if matches!(span.kind, SpanKind::Internal) {
        Some(String::from_str("InProc"))
    } else {
        match attr_str(&span.attributes, &crate::keys::db_system()) {
            Some(d) => Some(d),
            None => match attr_str(&span.attributes, &crate::keys::messaging_system()) {
                Some(m) => Some(m),
                None => match attr_str(&span.attributes, &crate::keys::rpc_system()) {
                    Some(r) => Some(r),
                    None => match properties {
                        Some(ps) => {
                            if props_have_prefix(ps, "http.") {
                                Some(String::from_str("HTTP"))
                            } else if props_have_prefix(ps, "db.") {
                                Some(String::from_str("DB"))
                            } else {
                                None
                            }
                        },
                        None => None,
                    },
                },
            },
        }
    }
}

/// Maps a Client-, Producer- or Internal-kind span to its
/// RemoteDependency record.
pub fn remote_dependency_data_from_span(span: &Span) -> (r: RemoteDependencyData)
    ensures
        r@ == spec_remote_dependency_data(span@),
{
    let properties = attrs_to_properties(&span.attributes, &span.resource.attrs);
    let type_ = dependency_type(span, &properties);
    RemoteDependencyData {
        ver: 2,
        id: Some(u64_to_hex_pad(span.span_id, 16)),
        name: truncate_str(span.name.as_str()),
        duration: duration_to_string(span_duration_micros(span)),
        result_code: Some(response_code(span)),
        success: match span.status {
            SpanStatus::Unset => None,
            SpanStatus::Okay => Some(true),
            SpanStatus::Error => Some(false),
        },
        data: match attr_str(&span.attributes, &crate::keys::http_url()) {
            Some(u) => Some(u),
            None => attr_str(&span.attributes, &crate::keys::db_statement()),
        },
        target: dependency_target(span),
        type_,
        properties,
    }
}

/// Maps an event named `exception` to its Exception record.
pub fn exception_data_from_event(event: &Event) -> (r: ExceptionData)
    ensures
        r@ == spec_exception_data(event@),
{
    let ghost av = attrs_view(event.attributes@);
    let type_ = match attr_str(&event.attributes, &crate::keys::exception_type()) {
        Some(t) => t,
        None => String::from_str("<no type>"),
    };
    let message = match attr_str(&event.attributes, &crate::keys::exception_message()) {
        Some(m) => m,
        None => String::from_str("<no message>"),
    };
    let stack = attr_str(&event.attributes, &crate::keys::exception_stacktrace());
    let key_type = crate::keys::exception_type();
    let key_message = crate::keys::exception_message();
    let key_stack = crate::keys::exception_stacktrace();
    let mut rest: Vec<Property> = Vec::new();
    let mut i: usize = 0;
    while i < event.attributes.len()
        invariant
            i <= event.attributes.len(),
            av == attrs_view(event.attributes@),
            av.len() == event.attributes.len(),
            key_type@ == "exception.type"@,
            key_message@ == "exception.message"@,
            key_stack@ == "exception.stacktrace"@,
            props_view(rest@) =~= props_of_attrs(spec_exception_rest(av, i as nat)),
        decreases event.attributes.len() - i,
    {
        let ghost prev = spec_exception_rest(av, i as nat);
        let ghost rest_before = rest@;
        proof {
            assert(av[i as int] == event.attributes@[i as int]@);
        }
        let a = &event.attributes[i];
        let skip = a.key == key_type || a.key == key_message || a.key == key_stack;
        if !skip {
            let p = to_property(a);
            rest.push(p);
            proof {
                let pushed = prev.push(av[i as int]);
                assert(rest@ == rest_before.push(p));
                assert(props_view(rest_before).len() == rest_before.len());
                assert(props_of_attrs(prev).len() == prev.len());
                assert(props_view(rest@).len() == rest@.len());
                assert(props_of_attrs(pushed).len() == pushed.len());
                assert forall|k: int| 0 <= k < rest@.len() implies props_view(rest@)[k]
                    == props_of_attrs(pushed)[k] by {
                    assert(props_view(rest@)[k] == rest@[k]@);
                    assert(props_of_attrs(pushed)[k] == prop_of_attr(pushed[k]));
                    if k < rest@.len() - 1 {
                        assert(rest@[k] == rest_before[k]);
                        assert(props_view(rest_before)[k] == rest_before[k]@);
                        assert(props_of_attrs(prev)[k] == prop_of_attr(prev[k]));
                    }
                }
            }
        }
        proof {
            assert(props_view(rest@) =~= props_of_attrs(spec_exception_rest(av, (i + 1) as nat)));
        }
        i += 1;
    }
    proof {
        let restv = spec_exception_rest(av, av.len());
        assert(props_view(rest@).len() == rest@.len());
        assert(props_of_attrs(restv).len() == restv.len());
    }
    let properties = if rest.len() == 0 {
        None
    } else {
        Some(rest)
    };
    let mut exceptions: Vec<ExceptionDetails> = Vec::new();
    exceptions.push(ExceptionDetails { type_, message, stack });
    let r = ExceptionData { ver: 2, exceptions, properties };
    proof {
        assert(r@.exceptions =~= spec_exception_data(event@).exceptions);
    }
    r
}

/// Maps any other event to its Message record.
pub fn message_data_from_event(event: &Event) -> (r: MessageData)
    ensures
        r@ == spec_message_data(event@),
{
    let ghost av = attrs_view(event.attributes@);
    let message = if event.name.as_str().unicode_len() == 0 {
        String::from_str("<no message>")
    } else {
        truncate_str(event.name.as_str())
    };
    let mut props: Vec<Property> = Vec::new();
    let mut i: usize = 0;
    while i < event.attributes.len()
        invariant
            i <= event.attributes.len(),
            av == attrs_view(event.attributes@),
            av.len() == event.attributes.len(),
            props_view(props@) =~= props_of_attrs(av.take(i as int)),
        decreases event.attributes.len() - i,
    {
        let ghost prev = av.take(i as int);
        let ghost props_before = props@;
        proof {
            assert(av[i as int] == event.attributes@[i as int]@);
        }
        let p = to_property(&event.attributes[i]);
        props.push(p);
        proof {
            let pushed = prev.push(av[i as int]);
            assert(pushed =~= av.take(i as int + 1));
            assert(props@ == props_before.push(p));
            assert(props_view(props_before).len() == props_before.len());
            assert(props_of_attrs(prev).len() == prev.len());
            assert(props_view(props@).len() == props@.len());
            assert(props_of_attrs(pushed).len() == pushed.len());
            assert forall|k: int| 0 <= k < props@.len() implies props_view(props@)[k]
                == props_of_attrs(pushed)[k] by {
                assert(props_view(props@)[k] == props@[k]@);
                assert(props_of_attrs(pushed)[k] == prop_of_attr(pushed[k]));
                if k < props@.len() - 1 {
                    assert(props@[k] == props_before[k]);
                    assert(props_view(props_before)[k] == props_before[k]@);
                    assert(props_of_attrs(prev)[k] == prop_of_attr(prev[k]));
                }
            }
        }
        i += 1;
    }
    proof {
        assert(av.take(event.attributes@.len() as int) =~= av);
        assert(props_view(props@).len() == props@.len());
        assert(props_of_attrs(av).len() == av.len());
    }
    let properties = if props.len() == 0 {
        None
    } else {
        Some(props)
    };
    MessageData { ver: 2, message, properties }
}

/// Maps a completed span to its telemetry record: Request for Server and
/// Consumer kinds, RemoteDependency for Client, Producer and Internal
/// kinds, exactly as [`spec_map_span`] states.
pub fn map_span(span: &Span) -> (r: Data)
    ensures
        r@ == spec_map_span(span@),
        matches!(span.kind, SpanKind::Server | SpanKind::Consumer) <==> r is Request,
        matches!(span.kind, SpanKind::Client | SpanKind::Producer | SpanKind::Internal) <==> (
        r is RemoteDependency),
{
    match span.kind {
        SpanKind::Server | SpanKind::Consumer => Data::Request(request_data_from_span(span)),
        SpanKind::Client | SpanKind::Producer | SpanKind::Internal => Data::RemoteDependency(
            remote_dependency_data_from_span(span),
        ),
    }
}

/// Maps an event to its telemetry record: Exception when its name is
/// exactly `exception`, Message otherwise, exactly as [`spec_map_event`]
/// states.
pub fn map_event(event: &Event) -> (r: Data)
    ensures
        r@ == spec_map_event(event@),
        event.name@ == "exception"@ <==> r is Exception,
        event.name@ != "exception"@ <==> r is Message,
{
    let exception_name = String::from_str("exception");
    if event.name == exception_name {
        Data::Exception(exception_data_from_event(event))
    } else {
        Data::Message(message_data_from_event(event))
    }
}

} // verus!
