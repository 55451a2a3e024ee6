//! Translation and delivery engine for exporting distributed-tracing spans
//! to an Application Insights ingestion endpoint.
//!
//! Completed spans and their events are mapped onto telemetry records
//! (Request, RemoteDependency, Exception, Message), wrapped in envelopes,
//! serialized to the JSON wire format and handed to a pluggable transport.

pub mod convert;
pub mod json;
pub mod keys;
pub mod mapping;
pub mod model;
pub mod models;
pub mod tags;
pub mod text;
pub mod time;
pub mod uploader;
pub mod wire;

use vstd::prelude::*;
use crate::model::{Span, SpanV};
use crate::models::{Data, Envelope, EnvelopeV, spec_kind_name};
use crate::mapping::{map_span, map_event, spec_map_span, spec_map_event};
use crate::tags::{get_tags_for_span, get_tags_for_event, spec_tags_for_span, spec_tags_for_event};
use crate::time::{time_chars, time_to_string};

verus! {

/// The model of an envelope list.
pub open spec fn envs_view(envs: Seq<Envelope>) -> Seq<EnvelopeV> {
    Seq::new(envs.len(), |i: int| envs[i]@)
}

/// The primary envelope of a span: its record, its start instant, the
/// exporter's sampling rate and routing key, and the span's context tags.
pub open spec fn spec_primary_envelope(s: SpanV, i_key: Seq<char>, sample_rate: u32) -> EnvelopeV {
    EnvelopeV {
        name: spec_kind_name(spec_map_span(s)),
        time: time_chars(s.start_time_nanos as nat),
        sample_rate,
        i_key,
        tags: spec_tags_for_span(s),
        data: spec_map_span(s),
    }
}

/// The secondary envelope of one event: its record, its own instant, the
/// exporter's sampling rate and routing key, and the parent span's tags.
pub open spec fn spec_event_envelope(
    s: SpanV,
    e: crate::model::EventV,
    i_key: Seq<char>,
    sample_rate: u32,
) -> EnvelopeV {
    EnvelopeV {
        name: spec_kind_name(spec_map_event(e)),
        time: time_chars(e.timestamp_nanos as nat),
        sample_rate,
        i_key,
        tags: spec_tags_for_event(s),
        data: spec_map_event(e),
    }
}

/// Every envelope a span yields: exactly one primary envelope, then one
/// per event, in event order.
pub open spec fn spec_envelopes_for_span(s: SpanV, i_key: Seq<char>, sample_rate: u32) -> Seq<
    EnvelopeV,
> {
    seq![spec_primary_envelope(s, i_key, sample_rate)] + Seq::new(
        s.events.len(),
        |i: int| spec_event_envelope(s, s.events[i], i_key, sample_rate),
    )
}

/// The model of a span list.
pub open spec fn spans_view(spans: Seq<Span>) -> Seq<SpanV> {
    Seq::new(spans.len(), |i: int| spans[i]@)
}

/// Every envelope a whole batch yields: each span's envelopes, in batch
/// order.
pub open spec fn spec_batch_envelopes(spans: Seq<SpanV>, i_key: Seq<char>, sample_rate: u32) -> Seq<
    EnvelopeV,
>
    decreases spans.len(),
{
    if spans.len() == 0 {
        Seq::empty()
    } else {
        spec_batch_envelopes(spans.drop_last(), i_key, sample_rate) + spec_envelopes_for_span(
            spans.last(),
            i_key,
            sample_rate,
        )
    }
}

/// In every envelope a span yields, the telemetry-kind name agrees with
/// the wrapped record's variant: the two are never inconsistent.
pub proof fn lemma_envelope_kind_consistent(s: SpanV, i_key: Seq<char>, sample_rate: u32)
    ensures
        forall|i: int|
            0 <= i < spec_envelopes_for_span(s, i_key, sample_rate).len()
                ==> #[trigger] spec_envelopes_for_span(s, i_key, sample_rate)[i].name
                == spec_kind_name(spec_envelopes_for_span(s, i_key, sample_rate)[i].data),
{
}

/// Mapping is deterministic: the record, tags and envelopes a span or
/// event yields depend on its value alone, so mapping the same input
/// twice yields identical output.
pub proof fn lemma_mapping_idempotent(s1: SpanV, s2: SpanV, e1: crate::model::EventV, e2: crate::model::EventV)
    requires
        s1 == s2,
        e1 == e2,
    ensures
        spec_map_span(s1) == spec_map_span(s2),
        spec_map_event(e1) == spec_map_event(e2),
        spec_tags_for_span(s1) == spec_tags_for_span(s2),
{
}

/// The telemetry-kind name of a record; exec counterpart of
/// [`spec_kind_name`].
pub fn kind_name(d: &Data) -> (r: String)
    ensures
        r@ == spec_kind_name(d@),
{
    match d {
        Data::Request(_) => String::from_str("Microsoft.ApplicationInsights.Request"),
        Data::RemoteDependency(_) => String::from_str(
            "Microsoft.ApplicationInsights.RemoteDependency",
        ),
        Data::Exception(_) => String::from_str("Microsoft.ApplicationInsights.Exception"),
        Data::Message(_) => String::from_str("Microsoft.ApplicationInsights.Message"),
    }
}

/// An exporter: the read-only delivery configuration captured at
/// construction, and the transport it hands serialized batches to.
#[derive(Debug)]
pub struct Exporter<C> {
    /// The transport used to send telemetry.
    pub client: C,
    /// The ingestion endpoint, with the fixed track path appended.
    pub endpoint: String,
    /// The routing (instrumentation) key stamped on every envelope.
    pub instrumentation_key: String,
    /// The sampling percentage stamped on every envelope, 0 to 100.
    pub sample_rate: u32,
}

impl<C> Exporter<C> {
    /// Creates an exporter with the default ingestion endpoint and a
    /// sampling rate of 100 percent.
    pub fn new(instrumentation_key: String, client: C) -> (r: Exporter<C>)
        ensures
            r.client == client,
            r.endpoint@ == "https://dc.services.visualstudio.com/v2/track"@,
            r.instrumentation_key@ == instrumentation_key@,
            r.sample_rate == 100u32,
    {
        Exporter {
            client,
            endpoint: String::from_str("https://dc.services.visualstudio.com/v2/track"),
            instrumentation_key,
            sample_rate: 100,
        }
    }

    /// Replaces the ingestion endpoint; the exporter calls the fixed
    /// track path on it.
    pub fn with_endpoint(self, endpoint: &str) -> (r: Exporter<C>)
        ensures
            r.client == self.client,
            r.endpoint@ == endpoint@ + "/v2/track"@,
            r.instrumentation_key == self.instrumentation_key,
            r.sample_rate == self.sample_rate,
    {
        Exporter {
            endpoint: endpoint.to_owned().concat("/v2/track"),
            ..self
        }
    }

    /// Replaces the sampling percentage stamped on every envelope.
    pub fn with_sample_rate(self, sample_rate: u32) -> (r: Exporter<C>)
        requires
            sample_rate <= 100,
        ensures
            r.client == self.client,
            r.sample_rate == sample_rate,
            r.endpoint == self.endpoint,
            r.instrumentation_key == self.instrumentation_key,
    {
        Exporter { sample_rate, ..self }
    }

    /// Assembles every envelope `span` yields: one primary plus one per
    /// event, exactly as [`spec_envelopes_for_span`] states.
    pub fn create_envelopes(&self, span: &Span) -> (r: Vec<Envelope>)
        ensures
            envs_view(r@) == spec_envelopes_for_span(
                span@,
                self.instrumentation_key@,
                self.sample_rate,
            ),
            r@.len() == 1 + span.events@.len(),
    {
        let ghost sv = span@;
        let ghost ik = self.instrumentation_key@;
        let ghost sr = self.sample_rate;
        let mut result: Vec<Envelope> = Vec::new();
        let data = map_span(span);
        let name = kind_name(&data);
        let tags = get_tags_for_span(span);
        result.push(
            Envelope {
                name,
                time: time_to_string(span.start_time_nanos),
                sample_rate: self.sample_rate,
                i_key: self.instrumentation_key.clone(),
                tags,
                data,
            },
        );
        proof {
            assert(envs_view(result@) =~= seq![spec_primary_envelope(sv, ik, sr)]);
        }
        let mut i: usize = 0;
        while i < span.events.len()
            invariant
                i <= span.events.len(),
                sv == span@,
                ik == self.instrumentation_key@,
                sr == self.sample_rate,
                sv.events.len() == span.events.len(),
                envs_view(result@) =~= seq![spec_primary_envelope(sv, ik, sr)] + Seq::new(
                    i as nat,
                    |k: int| spec_event_envelope(sv, sv.events[k], ik, sr),
                ),
            decreases span.events.len() - i,
        {
            let ghost before = result@;
            proof {
                assert(sv.events[i as int] == span.events@[i as int]@);
            }
            let event = &span.events[i];
            let data = map_event(event);
            let name = kind_name(&data);
            let tags = get_tags_for_event(span);
            let env = Envelope {
                name,
                time: time_to_string(event.timestamp_nanos),
                sample_rate: self.sample_rate,
                i_key: self.instrumentation_key.clone(),
                tags,
                data,
            };
            result.push(env);
            proof {
                let rhs = seq![spec_primary_envelope(sv, ik, sr)] + Seq::new(
                    (i + 1) as nat,
                    |k: int| spec_event_envelope(sv, sv.events[k], ik, sr),
                );
                assert(envs_view(result@).len() == result@.len());
                assert(envs_view(before).len() == before.len());
                assert forall|k: int| 0 <= k < result@.len() implies envs_view(result@)[k]
                    == rhs[k] by {
                    assert(envs_view(result@)[k] == result@[k]@);
                    if k < result@.len() - 1 {
                        assert(result@[k] == before[k]);
                        assert(envs_view(before)[k] == before[k]@);
                    }
                }
                assert(envs_view(result@) =~= rhs);
            }
            i += 1;
        }
        proof {
            assert(envs_view(result@) =~= spec_envelopes_for_span(sv, ik, sr));
        }
        result
    }
}

impl<C> Exporter<C> {
    /// Assembles every envelope a whole batch yields, in batch order,
    /// exactly as [`spec_batch_envelopes`] states.
    pub fn assemble_batch(&self, batch: &Vec<Span>) -> (r: Vec<Envelope>)
        ensures
            envs_view(r@) == spec_batch_envelopes(
                spans_view(batch@),
                self.instrumentation_key@,
                self.sample_rate,
            ),
    {
        let ghost bv = spans_view(batch@);
        let ghost ik = self.instrumentation_key@;
        let ghost sr = self.sample_rate;
        let mut envelopes: Vec<Envelope> = Vec::new();
        let mut i: usize = 0;
        while i < batch.len()
            invariant
                i <= batch.len(),
                bv == spans_view(batch@),
                bv.len() == batch.len(),
                ik == self.instrumentation_key@,
                sr == self.sample_rate,
                envs_view(envelopes@) =~= spec_batch_envelopes(bv.take(i as int), ik, sr),
            decreases batch.len() - i,
        {
            let ghost sofar = envelopes@;
            proof {
                assert(bv[i as int] == batch@[i as int]@);
            }
            let mut envs = self.create_envelopes(&batch[i]);
            let ghost added = envs@;
            envelopes.append(&mut envs);
            proof {
                assert(envelopes@ == sofar + added);
                assert(envs_view(envelopes@).len() == envelopes@.len());
                assert(envs_view(sofar).len() == sofar.len());
                assert(envs_view(added).len() == added.len());
                assert forall|k: int| 0 <= k < envelopes@.len() implies envs_view(envelopes@)[k]
                    == (envs_view(sofar) + envs_view(added))[k] by {
                    assert(envs_view(envelopes@)[k] == envelopes@[k]@);
                    if k < sofar.len() {
                        assert(envelopes@[k] == sofar[k]);
                        assert(envs_view(sofar)[k] == sofar[k]@);
                    } else {
                        assert(envelopes@[k] == added[k - sofar.len()]);
                        assert(envs_view(added)[k - sofar.len()] == added[k - sofar.len()]@);
                    }
                }
                assert(envs_view(envelopes@) =~= envs_view(sofar) + envs_view(added));
                assert(bv.take(i as int + 1).drop_last() =~= bv.take(i as int));
                assert(bv.take(i as int + 1).last() == bv[i as int]);
                assert(envs_view(envelopes@) =~= spec_batch_envelopes(bv.take(i as int + 1), ik, sr));
            }
            i += 1;
        }
        proof {
            assert(bv.take(batch.len() as int) =~= bv);
        }
        envelopes
    }
}

impl<C: crate::uploader::HttpClient> Exporter<C> {
    /// Exports one batch: hands the transport exactly the envelopes
    /// [`spec_batch_envelopes`] assigns to the batch — every span's
    /// envelopes, in batch order, serialized as
    /// [`crate::wire::wire_chars`] states — in a single delivery
    /// attempt. Serialization never fails; the outcome is classified as
    /// [`crate::uploader::deliver`] states.
    pub fn export(&mut self, batch: Vec<Span>) -> (r: Result<(), crate::uploader::Error>)
        ensures
            match r {
                Ok(()) => true,
                Err(e) => !(e is UploadSerializeRequest),
            },
    {
        let envelopes = self.assemble_batch(&batch);
        proof {
            assert(envs_view(envelopes@) == spec_batch_envelopes(
                spans_view(batch@),
                self.instrumentation_key@,
                self.sample_rate,
            ));
        }
        crate::uploader::deliver(&mut self.client, self.endpoint.as_str(), &envelopes)
    }
}

/// Routing of spans onto record kinds: Server- and Consumer-kind spans
/// always map to a Request record, Client-, Producer- and Internal-kind
/// spans always to a RemoteDependency record.
pub proof fn lemma_span_kind_routing(s: SpanV)
    ensures
        (s.kind == crate::model::SpanKind::Server || s.kind == crate::model::SpanKind::Consumer)
            <==> spec_map_span(s) is Request,
        (s.kind == crate::model::SpanKind::Client || s.kind == crate::model::SpanKind::Producer
            || s.kind == crate::model::SpanKind::Internal) <==> spec_map_span(s)
            is RemoteDependency,
{
}

} // verus!
