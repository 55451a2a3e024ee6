//! The tag resolver: context tags for a span's envelope, drawn from a
//! fixed catalogue of keys over the span's attributes and resource, plus
//! a pass-through of attributes already namespaced under the reserved
//! `ai.` prefix. An event's envelope reuses its parent span's resolution.

use vstd::prelude::*;
use crate::model::{
    Attr, AttrV, Span, SpanKind, SpanV, attrs_view, has_key, lookup, lookup_merged, str_of_value,
};
use crate::convert::{Property, PropV, prop_of_attr, props_view, to_property};
use crate::mapping::{is_prefix_of, spec_attr_raw, str_has_prefix};
use crate::models::opt_view;
use crate::text::{truncated, truncate_str};

verus! {

/// The merged span-over-resource value of `key`, as capped text.
pub open spec fn spec_merged_str(s: SpanV, key: Seq<char>) -> Option<Seq<char>> {
    match lookup_merged(s, key) {
        Some(v) => Some(truncated(str_of_value(v))),
        None => None,
    }
}

/// The merged span-over-resource value of `key`, as uncapped text.
pub open spec fn spec_merged_raw(s: SpanV, key: Seq<char>) -> Option<Seq<char>> {
    match lookup_merged(s, key) {
        Some(v) => Some(str_of_value(v)),
        None => None,
    }
}

/// Zero or one tag entries: one exactly when the value is present.
pub open spec fn tag_entry(key: Seq<char>, v: Option<Seq<char>>) -> Seq<PropV> {
    match v {
        Some(value) => seq![PropV { key, value }],
        None => Seq::empty(),
    }
}

/// The cloud role: the service name, qualified by the service namespace
/// when one is present; absent without a service name.
pub open spec fn spec_cloud_role(s: SpanV) -> Option<Seq<char>> {
    match spec_merged_raw(s, "service.name"@) {
        Some(n) => match spec_merged_raw(s, "service.namespace"@) {
            Some(ns) => Some(truncated(ns + "."@ + n)),
            None => Some(truncated(n)),
        },
        None => None,
    }
}

/// The internal SDK version: telemetry SDK name and version joined with
/// `':'`; absent unless both are present.
pub open spec fn spec_sdk_version(s: SpanV) -> Option<Seq<char>> {
    match spec_merged_raw(s, "telemetry.sdk.name"@) {
        Some(n) => match spec_merged_raw(s, "telemetry.sdk.version"@) {
            Some(v) => Some(truncated(n + ":"@ + v)),
            None => None,
        },
        None => None,
    }
}

/// The operation name: HTTP method and route joined with a space, for
/// Server-kind spans that carry both; absent otherwise.
pub open spec fn spec_operation_name(s: SpanV) -> Option<Seq<char>> {
    if s.kind == SpanKind::Server {
        match spec_attr_raw(s.attributes, "http.method"@) {
            Some(m) => match spec_attr_raw(s.attributes, "http.route"@) {
                Some(rt) => Some(truncated(m + " "@ + rt)),
                None => None,
            },
            None => None,
        }
    } else {
        None
    }
}

/// The fixed catalogue of context tags, in output order.
pub open spec fn spec_catalogue_tags(s: SpanV) -> Seq<PropV> {
    tag_entry("ai.application.ver"@, spec_merged_str(s, "service.version"@)) + tag_entry(
        "ai.user.authUserId"@,
        spec_merged_str(s, "enduser.id"@),
    ) + tag_entry("ai.cloud.role"@, spec_cloud_role(s)) + tag_entry(
        "ai.cloud.roleInstance"@,
        spec_merged_str(s, "service.instance.id"@),
    ) + tag_entry("ai.internal.sdkVersion"@, spec_sdk_version(s)) + tag_entry(
        "ai.operation.name"@,
        spec_operation_name(s),
    )
}

/// Whether the tag list already holds `key`.
pub open spec fn has_tag_key(ts: Seq<PropV>, key: Seq<char>) -> bool {
    exists|k: int| 0 <= k < ts.len() && ts[k].key == key
}

/// Pass-through of reserved-prefix resource entries not overridden by an
/// attribute: the first `i` of them, appended to `ts` unless their key is
/// already taken.
pub open spec fn spec_pass_resource(
    ts: Seq<PropV>,
    attrs: Seq<AttrV>,
    resource: Seq<AttrV>,
    i: nat,
) -> Seq<PropV>
    decreases i,
{
    if i == 0 {
        ts
    } else {
        let prev = spec_pass_resource(ts, attrs, resource, (i - 1) as nat);
        let a = resource[i - 1];
        if !has_key(attrs, a.key) && is_prefix_of("ai."@, a.key) && !has_tag_key(
            prev,
            truncated(a.key),
        ) {
            prev.push(prop_of_attr(a))
        } else {
            prev
        }
    }
}

/// Pass-through of reserved-prefix span attributes: the first `i` of
/// them, appended to `ts` unless their key is already taken.
pub open spec fn spec_pass_attrs(ts: Seq<PropV>, attrs: Seq<AttrV>, i: nat) -> Seq<PropV>
    decreases i,
{
    if i == 0 {
        ts
    } else {
        let prev = spec_pass_attrs(ts, attrs, (i - 1) as nat);
        let a = attrs[i - 1];
        if is_prefix_of("ai."@, a.key) && !has_tag_key(prev, truncated(a.key)) {
            prev.push(prop_of_attr(a))
        } else {
            prev
        }
    }
}

/// The context tags of a span's envelope: the catalogue, then the
/// reserved-prefix pass-through in merged order.
pub open spec fn spec_tags_for_span(s: SpanV) -> Seq<PropV> {
    spec_pass_attrs(
        spec_pass_resource(spec_catalogue_tags(s), s.attributes, s.resource, s.resource.len()),
        s.attributes,
        s.attributes.len(),
    )
}

/// The context tags of an event's envelope: its parent span's tags;
/// events never carry independent context tags.
pub open spec fn spec_tags_for_event(s: SpanV) -> Seq<PropV> {
    spec_tags_for_span(s)
}

/// Every event envelope carries exactly the tag set of its parent span's
/// envelope.
pub proof fn lemma_event_tags_match_span(s: SpanV)
    ensures
        spec_tags_for_event(s) == spec_tags_for_span(s),
{
}

/// Exec counterpart of [`spec_merged_str`].
fn merged_str(span: &Span, key: &String) -> (r: Option<String>)
    ensures
        opt_view(r) == spec_merged_str(span@, key@),
{
    match crate::mapping::attr_str(&span.attributes, key) {
        Some(v) => Some(v),
        None => crate::mapping::attr_str(&span.resource.attrs, key),
    }
}

/// Exec counterpart of [`spec_merged_raw`].
fn merged_raw(span: &Span, key: &String) -> (r: Option<String>)
    ensures
        opt_view(r) == spec_merged_raw(span@, key@),
{
    match crate::mapping::attr_raw(&span.attributes, key) {
        Some(v) => Some(v),
        None => crate::mapping::attr_raw(&span.resource.attrs, key),
    }
}

/// Appends one catalogue tag when its value is present.
fn with_tag(tags: Vec<Property>, key: String, v: Option<String>) -> (r: Vec<Property>)
    ensures
        props_view(r@) =~= props_view(tags@) + tag_entry(key@, opt_view(v)),
{
    match v {
        Some(value) => {
            let ghost before = tags@;
            let ghost pv = PropV { key: key@, value: value@ };
            let mut t = tags;
            t.push(Property { key, value });
            proof {
                let rhs = props_view(before) + tag_entry(pv.key, Some(pv.value));
                assert(props_view(before).len() == before.len());
                assert(props_view(t@).len() == t@.len());
                assert(t@.len() == before.len() + 1);
                assert forall|k: int| 0 <= k < t@.len() implies props_view(t@)[k] == rhs[k] by {
                    assert(props_view(t@)[k] == t@[k]@);
                    if k < before.len() {
                        assert(t@[k] == before[k]);
                        assert(props_view(before)[k] == before[k]@);
                        assert(rhs[k] == props_view(before)[k]);
                    } else {
                        assert(rhs[k] == pv);
                    }
                }
                assert(props_view(t@) =~= rhs);
            }
            t
        },
        None => {
            proof {
                assert(props_view(tags@) =~= props_view(tags@) + tag_entry(key@, None));
            }
            tags
        },
    }
}

/// Whether the tag list already holds `key`; exec counterpart of
/// [`has_tag_key`].
fn tags_have_key(ts: &Vec<Property>, key: &String) -> (r: bool)
    ensures
        r == has_tag_key(props_view(ts@), key@),
{
    let mut i: usize = 0;
    while i < ts.len()
        invariant
            i <= ts.len(),
            forall|k: int| 0 <= k < i ==> props_view(ts@)[k].key != key@,
        decreases ts.len() - i,
    {
        proof {
            assert(props_view(ts@)[i as int] == ts@[i as int]@);
        }
        if ts[i].key == *key {
            return true;
        }
        i += 1;
    }
    false
}

/// Exec counterpart of [`spec_cloud_role`].
fn cloud_role(span: &Span) -> (r: Option<String>)
    ensures
        opt_view(r) == spec_cloud_role(span@),
{
    match merged_raw(span, &crate::keys::service_name()) {
        Some(n) => match merged_raw(span, &crate::keys::service_namespace()) {
            Some(ns) => Some(truncate_str(ns.concat(".").concat(n.as_str()).as_str())),
            None => Some(truncate_str(n.as_str())),
        },
        None => None,
    }
}

/// Exec counterpart of [`spec_sdk_version`].
fn sdk_version(span: &Span) -> (r: Option<String>)
    ensures
        opt_view(r) == spec_sdk_version(span@),
{
    match merged_raw(span, &crate::keys::telemetry_sdk_name()) {
        Some(n) => match merged_raw(span, &crate::keys::telemetry_sdk_version()) {
            Some(v) => Some(truncate_str(n.concat(":").concat(v.as_str()).as_str())),
            None => None,
        },
        None => None,
    }
}

/// Exec counterpart of [`spec_operation_name`].
fn operation_name(span: &Span) -> (r: Option<String>)
    ensures
        opt_view(r) == spec_operation_name(span@),
{
    if matches!(span.kind, SpanKind::Server) {
        match crate::mapping::attr_raw(&span.attributes, &crate::keys::http_method()) {
            Some(m) => match crate::mapping::attr_raw(&span.attributes, &crate::keys::http_route())
                {
                Some(rt) => Some(truncate_str(m.concat(" ").concat(rt.as_str()).as_str())),
                None => None,
            },
            None => None,
        }
    } else {
        None
    }
}

/// Resolves the context tags of a span's envelope, exactly as
/// [`spec_tags_for_span`] states.
pub fn get_tags_for_span(span: &Span) -> (r: Vec<Property>)
    ensures
        props_view(r@) == spec_tags_for_span(span@),
{
    let ghost av = attrs_view(span.attributes@);
    let ghost rv = attrs_view(span.resource.attrs@);
    let mut tags: Vec<Property> = Vec::new();
    tags = with_tag(tags, crate::keys::tag_application_ver(), merged_str(
        span,
        &crate::keys::service_version(),
    ));
    tags = with_tag(tags, crate::keys::tag_user_auth_user_id(), merged_str(
        span,
        &crate::keys::enduser_id(),
    ));
    tags = with_tag(tags, crate::keys::tag_cloud_role(), cloud_role(span));
    tags = with_tag(tags, crate::keys::tag_cloud_role_instance(), merged_str(
        span,
        &crate::keys::service_instance_id(),
    ));
    tags = with_tag(tags, crate::keys::tag_internal_sdk_version(), sdk_version(span));
    tags = with_tag(tags, crate::keys::tag_operation_name(), operation_name(span));
    proof {
        assert(props_view(tags@) =~= spec_catalogue_tags(span@));
    }
    let ghost cat = spec_catalogue_tags(span@);
    let mut i: usize = 0;
    while i < span.resource.attrs.len()
        invariant
            i <= span.resource.attrs.len(),
            av == attrs_view(span.attributes@),
            rv == attrs_view(span.resource.attrs@),
            rv.len() == span.resource.attrs.len(),
            cat == spec_catalogue_tags(span@),
            props_view(tags@) =~= spec_pass_resource(cat, av, rv, i as nat),
        decreases span.resource.attrs.len() - i,
    {
        let ghost prev = spec_pass_resource(cat, av, rv, i as nat);
        let ghost before = tags@;
        proof {
            assert(rv[i as int] == span.resource.attrs@[i as int]@);
        }
        let a = &span.resource.attrs[i];
        let overridden = crate::convert::has_attr(&span.attributes, &a.key);
        if !overridden && str_has_prefix(&a.key, "ai.") {
            let capped_key = truncate_str(a.key.as_str());
            if !tags_have_key(&tags, &capped_key) {
                let p = to_property(a);
                tags.push(p);
                proof {
                    let pushed = prev.push(prop_of_attr(rv[i as int]));
                    assert(tags@ == before.push(p));
                    assert(props_view(before).len() == before.len());
                    assert(props_view(tags@).len() == tags@.len());
                    assert forall|k: int| 0 <= k < tags@.len() implies props_view(tags@)[k]
                        == pushed[k] by {
                        assert(props_view(tags@)[k] == tags@[k]@);
                        if k < tags@.len() - 1 {
                            assert(tags@[k] == before[k]);
                            assert(props_view(before)[k] == before[k]@);
                        }
                    }
                    assert(props_view(tags@) =~= pushed);
                }
            }
        }
        proof {
            assert(props_view(tags@) =~= spec_pass_resource(cat, av, rv, (i + 1) as nat));
        }
        i += 1;
    }
    let ghost base = spec_pass_resource(cat, av, rv, rv.len());
    let mut j: usize = 0;
    while j < span.attributes.len()
        invariant
            j <= span.attributes.len(),
            av == attrs_view(span.attributes@),
            av.len() == span.attributes.len(),
            base == spec_pass_resource(
                spec_catalogue_tags(span@),
                av,
                attrs_view(span.resource.attrs@),
                attrs_view(span.resource.attrs@).len(),
            ),
            props_view(tags@) =~= spec_pass_attrs(base, av, j as nat),
        decreases span.attributes.len() - j,
    {
        let ghost prev = spec_pass_attrs(base, av, j as nat);
        let ghost before = tags@;
        proof {
            assert(av[j as int] == span.attributes@[j as int]@);
        }
        let a = &span.attributes[j];
        if str_has_prefix(&a.key, "ai.") {
            let capped_key = truncate_str(a.key.as_str());
            if !tags_have_key(&tags, &capped_key) {
                let p = to_property(a);
                tags.push(p);
                proof {
                    let pushed = prev.push(prop_of_attr(av[j as int]));
                    assert(tags@ == before.push(p));
                    assert(props_view(before).len() == before.len());
                    assert(props_view(tags@).len() == tags@.len());
                    assert forall|k: int| 0 <= k < tags@.len() implies props_view(tags@)[k]
                        == pushed[k] by {
                        assert(props_view(tags@)[k] == tags@[k]@);
                        if k < tags@.len() - 1 {
                            assert(tags@[k] == before[k]);
                            assert(props_view(before)[k] == before[k]@);
                        }
                    }
                    assert(props_view(tags@) =~= pushed);
                }
            }
        }
        proof {
            assert(props_view(tags@) =~= spec_pass_attrs(base, av, (j + 1) as nat));
        }
        j += 1;
    }
    tags
}

/// Resolves the context tags for an event's envelope: the parent span's
/// own resolution, exactly as [`spec_tags_for_event`] states.
pub fn get_tags_for_event(span: &Span) -> (r: Vec<Property>)
    ensures
        props_view(r@) == spec_tags_for_event(span@),
{
    get_tags_for_span(span)
}

} // verus!
