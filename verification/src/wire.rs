//! The exact JSON shape of an envelope batch on the wire: fixed field
//! names, `baseType`/`baseData` discriminating the four record kinds,
//! optional fields omitted rather than null.

use vstd::prelude::*;
use crate::convert::{Property, PropV, props_view};
use crate::json::{
    JsonMember, JsonValue, JsonV, json_view, json_views, json_member_views, json_chars,
    json_to_chars,
};
use crate::models::{
    Data, DataV, Envelope, EnvelopeV, ExceptionDetails, ExceptionDetailsV, RequestDataV,
    RemoteDependencyDataV, ExceptionDataV, MessageDataV, opt_view,
};
use crate::envs_view;

verus! {

/// Zero or one string members: one exactly when the value is present.
pub open spec fn opt_str_member(key: Seq<char>, v: Option<Seq<char>>) -> Seq<(Seq<char>, JsonV)> {
    match v {
        Some(s) => seq![(key, JsonV::Str(s))],
        None => Seq::empty(),
    }
}

/// Zero or one boolean members: one exactly when the value is present.
pub open spec fn opt_bool_member(key: Seq<char>, v: Option<bool>) -> Seq<(Seq<char>, JsonV)> {
    match v {
        Some(b) => seq![(key, JsonV::Bool(b))],
        None => Seq::empty(),
    }
}

/// A property bag as a JSON object.
pub open spec fn props_json(ps: Seq<PropV>) -> JsonV {
    JsonV::Obj(Seq::new(ps.len(), |i: int| (ps[i].key, JsonV::Str(ps[i].value))))
}

/// Zero or one `properties` members: one exactly when the bag is present.
pub open spec fn opt_props_member(ps: Option<Seq<PropV>>) -> Seq<(Seq<char>, JsonV)> {
    match ps {
        Some(ps) => seq![("properties"@, props_json(ps))],
        None => Seq::empty(),
    }
}

/// The JSON shape of a Request record.
pub open spec fn request_json(d: RequestDataV) -> JsonV {
    JsonV::Obj(
        seq![("ver"@, JsonV::Int(d.ver as i64)), ("id"@, JsonV::Str(d.id))] + opt_str_member(
            "name"@,
            d.name,
        ) + seq![
            ("duration"@, JsonV::Str(d.duration)),
            ("responseCode"@, JsonV::Str(d.response_code)),
            ("success"@, JsonV::Bool(d.success)),
        ] + opt_str_member("source"@, d.source) + opt_str_member("url"@, d.url)
            + opt_props_member(d.properties),
    )
}

/// The JSON shape of a RemoteDependency record.
pub open spec fn dependency_json(d: RemoteDependencyDataV) -> JsonV {
    JsonV::Obj(
        seq![("ver"@, JsonV::Int(d.ver as i64))] + opt_str_member("id"@, d.id) + seq![
            ("name"@, JsonV::Str(d.name)),
            ("duration"@, JsonV::Str(d.duration)),
        ] + opt_str_member("resultCode"@, d.result_code) + opt_bool_member("success"@, d.success)
            + opt_str_member("data"@, d.data) + opt_str_member("target"@, d.target)
            + opt_str_member("type"@, d.type_) + opt_props_member(d.properties),
    )
}

/// The JSON shape of one exception inside an Exception record.
pub open spec fn exception_details_json(x: ExceptionDetailsV) -> JsonV {
    JsonV::Obj(
        seq![("typeName"@, JsonV::Str(x.type_)), ("message"@, JsonV::Str(x.message))]
            + opt_str_member("stack"@, x.stack),
    )
}

/// The JSON shape of an Exception record.
pub open spec fn exception_json(d: ExceptionDataV) -> JsonV {
    JsonV::Obj(
        seq![
            ("ver"@, JsonV::Int(d.ver as i64)),
            (
                "exceptions"@,
                JsonV::Arr(Seq::new(d.exceptions.len(), |i: int| exception_details_json(d.exceptions[i]))),
            ),
        ] + opt_props_member(d.properties),
    )
}

/// The JSON shape of a Message record.
pub open spec fn message_json(d: MessageDataV) -> JsonV {
    JsonV::Obj(
        seq![("ver"@, JsonV::Int(d.ver as i64)), ("message"@, JsonV::Str(d.message))]
            + opt_props_member(d.properties),
    )
}

/// The `baseType` discriminator of a record.
pub open spec fn base_type_name(d: DataV) -> Seq<char> {
    match d {
        DataV::Request(_) => "RequestData"@,
        DataV::RemoteDependency(_) => "RemoteDependencyData"@,
        DataV::Exception(_) => "ExceptionData"@,
        DataV::Message(_) => "MessageData"@,
    }
}

/// The `baseData` payload of a record.
pub open spec fn base_data_json(d: DataV) -> JsonV {
    match d {
        DataV::Request(r) => request_json(r),
        DataV::RemoteDependency(r) => dependency_json(r),
        DataV::Exception(r) => exception_json(r),
        DataV::Message(r) => message_json(r),
    }
}

/// The JSON shape of one envelope.
pub open spec fn envelope_json(e: EnvelopeV) -> JsonV {
    JsonV::Obj(
        seq![
            ("name"@, JsonV::Str(e.name)),
            ("time"@, JsonV::Str(e.time)),
            ("sampleRate"@, JsonV::Int(e.sample_rate as i64)),
            ("iKey"@, JsonV::Str(e.i_key)),
            ("tags"@, props_json(e.tags)),
            (
                "data"@,
                JsonV::Obj(
                    seq![
                        ("baseType"@, JsonV::Str(base_type_name(e.data))),
                        ("baseData"@, base_data_json(e.data)),
                    ],
                ),
            ),
        ],
    )
}

/// The JSON shape of a whole batch: an array of envelopes in order.
pub open spec fn envelopes_json(es: Seq<EnvelopeV>) -> JsonV {
    JsonV::Arr(Seq::new(es.len(), |i: int| envelope_json(es[i])))
}

/// The wire text of a whole batch.
pub open spec fn wire_chars(es: Seq<EnvelopeV>) -> Seq<char> {
    json_chars(envelopes_json(es))
}

/// The value of the first member of `ms` whose key is `key`, if any:
/// how a decoder reads an object back.
pub open spec fn obj_get(ms: Seq<(Seq<char>, JsonV)>, key: Seq<char>) -> Option<JsonV>
    decreases ms.len(),
{
    if ms.len() == 0 {
        None
    } else if ms[0].0 == key {
        Some(ms[0].1)
    } else {
        obj_get(ms.skip(1), key)
    }
}

/// Decoding an envelope's wire object by key reproduces every field of
/// the envelope: the telemetry-kind name, timestamp, sampling rate,
/// routing key and tags come back exactly, and the nested data object
/// yields the record's discriminator and payload.
pub proof fn lemma_envelope_wire_round_trip(e: EnvelopeV)
    ensures
        envelope_json(e) matches JsonV::Obj(ms) && {
            &&& obj_get(ms, "name"@) == Some(JsonV::Str(e.name))
            &&& obj_get(ms, "time"@) == Some(JsonV::Str(e.time))
            &&& obj_get(ms, "sampleRate"@) == Some(JsonV::Int(e.sample_rate as i64))
            &&& obj_get(ms, "iKey"@) == Some(JsonV::Str(e.i_key))
            &&& obj_get(ms, "tags"@) == Some(props_json(e.tags))
            &&& (obj_get(ms, "data"@) matches Some(d) && d matches JsonV::Obj(dm) && obj_get(
                dm,
                "baseType"@,
            ) == Some(JsonV::Str(base_type_name(e.data))) && obj_get(dm, "baseData"@) == Some(
                base_data_json(e.data),
            ))
        },
{
    reveal_with_fuel(obj_get, 8);
    reveal_strlit("name");
    reveal_strlit("time");
    reveal_strlit("sampleRate");
    reveal_strlit("iKey");
    reveal_strlit("tags");
    reveal_strlit("data");
    reveal_strlit("baseType");
    reveal_strlit("baseData");
    assert("name"@ != "time"@) by {
        assert("name"@[0] != "time"@[0]);
    }
    assert("name"@ != "sampleRate"@) by {
        assert("name"@.len() != "sampleRate"@.len());
    }
    assert("name"@ != "iKey"@) by {
        assert("name"@[0] != "iKey"@[0]);
    }
    assert("name"@ != "tags"@) by {
        assert("name"@[0] != "tags"@[0]);
    }
    assert("name"@ != "data"@) by {
        assert("name"@[0] != "data"@[0]);
    }
    assert("time"@ != "sampleRate"@) by {
        assert("time"@.len() != "sampleRate"@.len());
    }
    assert("time"@ != "iKey"@) by {
        assert("time"@[0] != "iKey"@[0]);
    }
    assert("time"@ != "tags"@) by {
        assert("time"@[1] != "tags"@[1]);
    }
    assert("time"@ != "data"@) by {
        assert("time"@[0] != "data"@[0]);
    }
    assert("sampleRate"@ != "iKey"@) by {
        assert("sampleRate"@.len() != "iKey"@.len());
    }
    assert("sampleRate"@ != "tags"@) by {
        assert("sampleRate"@.len() != "tags"@.len());
    }
    assert("sampleRate"@ != "data"@) by {
        assert("sampleRate"@.len() != "data"@.len());
    }
    assert("iKey"@ != "tags"@) by {
        assert("iKey"@[0] != "tags"@[0]);
    }
    assert("iKey"@ != "data"@) by {
        assert("iKey"@[0] != "data"@[0]);
    }
    assert("tags"@ != "data"@) by {
        assert("tags"@[0] != "data"@[0]);
    }
    assert("baseType"@ != "baseData"@) by {
        assert("baseType"@[4] != "baseData"@[4]);
    }
    let data_obj = JsonV::Obj(
        seq![
            ("baseType"@, JsonV::Str(base_type_name(e.data))),
            ("baseData"@, base_data_json(e.data)),
        ],
    );
    let ms = seq![
        ("name"@, JsonV::Str(e.name)),
        ("time"@, JsonV::Str(e.time)),
        ("sampleRate"@, JsonV::Int(e.sample_rate as i64)),
        ("iKey"@, JsonV::Str(e.i_key)),
        ("tags"@, props_json(e.tags)),
        ("data"@, data_obj),
    ];
    assert(envelope_json(e) == JsonV::Obj(ms));
    assert(ms.skip(1) =~= ms.subrange(1, 6));
    assert(ms.subrange(1, 6).skip(1) =~= ms.subrange(2, 6));
    assert(ms.subrange(2, 6).skip(1) =~= ms.subrange(3, 6));
    assert(ms.subrange(3, 6).skip(1) =~= ms.subrange(4, 6));
    assert(ms.subrange(4, 6).skip(1) =~= ms.subrange(5, 6));
    assert(obj_get(ms, "time"@) == Some(JsonV::Str(e.time)));
    assert(obj_get(ms, "sampleRate"@) == Some(JsonV::Int(e.sample_rate as i64)));
    assert(obj_get(ms, "iKey"@) == Some(JsonV::Str(e.i_key)));
    assert(obj_get(ms, "tags"@) == Some(props_json(e.tags)));
    assert(obj_get(ms, "data"@) == Some(data_obj));
    let dm = seq![
        ("baseType"@, JsonV::Str(base_type_name(e.data))),
        ("baseData"@, base_data_json(e.data)),
    ];
    assert(dm.skip(1) =~= dm.subrange(1, 2));
    assert(obj_get(dm, "baseData"@) == Some(base_data_json(e.data)));
}

/// Appends one member.
fn add_member(ms: Vec<JsonMember>, key: String, value: JsonValue) -> (r: Vec<JsonMember>)
    ensures
        json_member_views(r@) =~= json_member_views(ms@).push((key@, json_view(value))),
{
    let ghost before = ms@;
    let ghost target = (key@, json_view(value));
    let mut t = ms;
    t.push(JsonMember { key, value });
    proof {
        assert(t@.drop_last() =~= before);
        assert(t@.last().key@ == target.0);
        assert(json_view(t@.last().value) == target.1);
        assert(json_member_views(t@) =~= json_member_views(before).push(target));
    }
    t
}

/// Appends zero or one string members, as [`opt_str_member`] says.
fn add_opt_str_member(ms: Vec<JsonMember>, key: String, v: Option<String>) -> (r: Vec<JsonMember>)
    ensures
        json_member_views(r@) =~= json_member_views(ms@) + opt_str_member(key@, opt_view(v)),
{
    match v {
        Some(s) => {
            let ghost before = ms@;
            let r = add_member(ms, key, JsonValue::Str(s));
            proof {
                assert(json_member_views(r@) =~= json_member_views(before) + opt_str_member(
                    key@,
                    opt_view(v),
                ));
            }
            r
        },
        None => {
            proof {
                assert(json_member_views(ms@) =~= json_member_views(ms@) + opt_str_member(
                    key@,
                    None,
                ));
            }
            ms
        },
    }
}

/// A property bag as a JSON object, as [`props_json`] says.
fn props_to_json(ps: &Vec<Property>) -> (r: JsonValue)
    ensures
        json_view(r) == props_json(props_view(ps@)),
{
    let ghost target = Seq::new(props_view(ps@).len(), |i: int| (ps@[i].key@, JsonV::Str(ps@[i].value@)));
    let mut ms: Vec<JsonMember> = Vec::new();
    proof {
        assert(json_member_views(ms@) =~= target.take(0));
    }
    let mut i: usize = 0;
    while i < ps.len()
        invariant
            i <= ps.len(),
            target == Seq::new(
                props_view(ps@).len(),
                |k: int| (ps@[k].key@, JsonV::Str(ps@[k].value@)),
            ),
            target.len() == ps@.len(),
            json_member_views(ms@) =~= target.take(i as int),
        decreases ps.len() - i,
    {
        let ghost before = ms@;
        ms = add_member(ms, ps[i].key.clone(), JsonValue::Str(ps[i].value.clone()));
        proof {
            assert(json_member_views(ms@) =~= json_member_views(before).push((
                ps@[i as int].key@,
                JsonV::Str(ps@[i as int].value@),
            )));
            assert(target.take(i as int + 1).drop_last() =~= target.take(i as int));
            assert(json_member_views(ms@) =~= target.take(i as int + 1));
        }
        i += 1;
    }
    proof {
        assert(target.take(ps@.len() as int) =~= target);
    }
    let r = JsonValue::Obj(ms);
    proof {
        assert(props_json(props_view(ps@)) == JsonV::Obj(
            Seq::new(props_view(ps@).len(), |i: int| (props_view(ps@)[i].key, JsonV::Str(
                props_view(ps@)[i].value,
            ))),
        ));
        assert(Seq::new(props_view(ps@).len(), |i: int| (props_view(ps@)[i].key, JsonV::Str(
            props_view(ps@)[i].value,
        ))) =~= target);
    }
    r
}

/// Appends zero or one `properties` members, as [`opt_props_member`]
/// says.
fn add_opt_props_member(ms: Vec<JsonMember>, ps: &Option<Vec<Property>>) -> (r: Vec<JsonMember>)
    ensures
        json_member_views(r@) =~= json_member_views(ms@) + opt_props_member(
            crate::models::opt_props_view(*ps),
        ),
{
    match ps {
        Some(ps_vec) => {
            let ghost before = ms@;
            let value = props_to_json(ps_vec);
            let r = add_member(ms, String::from_str("properties"), value);
            proof {
                assert(json_member_views(r@) =~= json_member_views(before) + opt_props_member(
                    Some(props_view(ps_vec@)),
                ));
            }
            r
        },
        None => {
            proof {
                assert(json_member_views(ms@) =~= json_member_views(ms@) + opt_props_member(None));
            }
            ms
        },
    }
}

/// The JSON tree of a Request record, as [`request_json`] says.
fn request_to_json(rd: &crate::models::RequestData) -> (r: JsonValue)
    ensures
        json_view(r) == request_json(rd@),
{
    let mut ms: Vec<JsonMember> = Vec::new();
    ms = add_member(ms, String::from_str("ver"), JsonValue::Int(rd.ver as i64));
    ms = add_member(ms, String::from_str("id"), JsonValue::Str(rd.id.clone()));
    ms = add_opt_str_member(ms, String::from_str("name"), clone_opt(&rd.name));
    ms = add_member(ms, String::from_str("duration"), JsonValue::Str(rd.duration.clone()));
    ms = add_member(ms, String::from_str("responseCode"), JsonValue::Str(rd.response_code.clone()));
    ms = add_member(ms, String::from_str("success"), JsonValue::Bool(rd.success));
    ms = add_opt_str_member(ms, String::from_str("source"), clone_opt(&rd.source));
    ms = add_opt_str_member(ms, String::from_str("url"), clone_opt(&rd.url));
    ms = add_opt_props_member(ms, &rd.properties);
    let r = JsonValue::Obj(ms);
    proof {
        assert(request_json(rd@) matches JsonV::Obj(target) && json_member_views(ms@) =~= target);
    }
    r
}

/// The JSON tree of a RemoteDependency record, as [`dependency_json`]
/// says.
#[verifier::rlimit(80)]
fn dependency_to_json(rd: &crate::models::RemoteDependencyData) -> (r: JsonValue)
    ensures
        json_view(r) == dependency_json(rd@),
{
    let mut ms: Vec<JsonMember> = Vec::new();
    ms = add_member(ms, String::from_str("ver"), JsonValue::Int(rd.ver as i64));
    ms = add_opt_str_member(ms, String::from_str("id"), clone_opt(&rd.id));
    ms = add_member(ms, String::from_str("name"), JsonValue::Str(rd.name.clone()));
    ms = add_member(ms, String::from_str("duration"), JsonValue::Str(rd.duration.clone()));
    ms = add_opt_str_member(ms, String::from_str("resultCode"), clone_opt(&rd.result_code));
    ms = match rd.success {
        Some(b) => add_member(ms, String::from_str("success"), JsonValue::Bool(b)),
        None => ms,
    };
    ms = add_opt_str_member(ms, String::from_str("data"), clone_opt(&rd.data));
    ms = add_opt_str_member(ms, String::from_str("target"), clone_opt(&rd.target));
    ms = add_opt_str_member(ms, String::from_str("type"), clone_opt(&rd.type_));
    ms = add_opt_props_member(ms, &rd.properties);
    let r = JsonValue::Obj(ms);
    proof {
        assert(dependency_json(rd@) matches JsonV::Obj(target) && json_member_views(ms@)
            =~= target);
    }
    r
}

/// The JSON tree of one exception's details, as
/// [`exception_details_json`] says.
fn exception_details_to_json(x: &ExceptionDetails) -> (r: JsonValue)
    ensures
        json_view(r) == exception_details_json(x@),
{
    let mut xm: Vec<JsonMember> = Vec::new();
    xm = add_member(xm, String::from_str("typeName"), JsonValue::Str(x.type_.clone()));
    xm = add_member(xm, String::from_str("message"), JsonValue::Str(x.message.clone()));
    xm = add_opt_str_member(xm, String::from_str("stack"), clone_opt(&x.stack));
    let r = JsonValue::Obj(xm);
    proof {
        assert(exception_details_json(x@) matches JsonV::Obj(target) && json_member_views(xm@)
            =~= target);
    }
    r
}

/// The JSON tree of an Exception record, as [`exception_json`] says.
fn exception_to_json(ed: &crate::models::ExceptionData) -> (r: JsonValue)
    ensures
        json_view(r) == exception_json(ed@),
{
    let ghost dv = ed@.exceptions;
    let mut details: Vec<JsonValue> = Vec::new();
    let mut i: usize = 0;
    while i < ed.exceptions.len()
        invariant
            i <= ed.exceptions.len(),
            dv == ed@.exceptions,
            dv.len() == ed.exceptions@.len(),
            forall|k: int| 0 <= k < dv.len() ==> dv[k] == ed.exceptions@[k]@,
            json_views(details@) =~= Seq::new(i as nat, |k: int| exception_details_json(dv[k])),
        decreases ed.exceptions.len() - i,
    {
        let ghost before = details@;
        let xj = exception_details_to_json(&ed.exceptions[i]);
        details.push(xj);
        proof {
            assert(details@.drop_last() =~= before);
            assert(json_views(details@) =~= json_views(before).push(exception_details_json(
                dv[i as int],
            )));
            assert(json_views(details@) =~= Seq::new(
                (i + 1) as nat,
                |k: int| exception_details_json(dv[k]),
            ));
        }
        i += 1;
    }
    let mut ms: Vec<JsonMember> = Vec::new();
    ms = add_member(ms, String::from_str("ver"), JsonValue::Int(ed.ver as i64));
    ms = add_member(ms, String::from_str("exceptions"), JsonValue::Arr(details));
    ms = add_opt_props_member(ms, &ed.properties);
    let r = JsonValue::Obj(ms);
    proof {
        assert(Seq::new(dv.len(), |k: int| exception_details_json(dv[k])) =~= Seq::new(
            ed.exceptions@.len() as nat,
            |k: int| exception_details_json(dv[k]),
        ));
        assert(exception_json(ed@) matches JsonV::Obj(target) && json_member_views(ms@)
            =~= target);
    }
    r
}

/// The JSON tree of a Message record, as [`message_json`] says.
fn message_to_json(md: &crate::models::MessageData) -> (r: JsonValue)
    ensures
        json_view(r) == message_json(md@),
{
    let mut ms: Vec<JsonMember> = Vec::new();
    ms = add_member(ms, String::from_str("ver"), JsonValue::Int(md.ver as i64));
    ms = add_member(ms, String::from_str("message"), JsonValue::Str(md.message.clone()));
    ms = add_opt_props_member(ms, &md.properties);
    let r = JsonValue::Obj(ms);
    proof {
        assert(message_json(md@) matches JsonV::Obj(target) && json_member_views(ms@) =~= target);
    }
    r
}

/// The JSON tree of one record's `baseData`, as [`base_data_json`] says.
pub fn data_to_json(d: &Data) -> (r: JsonValue)
    ensures
        json_view(r) == base_data_json(d@),
{
    match d {
        Data::Request(rd) => request_to_json(rd),
        Data::RemoteDependency(rd) => dependency_to_json(rd),
        Data::Exception(ed) => exception_to_json(ed),
        Data::Message(md) => message_to_json(md),
    }
}

/// A clone of an optional string.
fn clone_opt(o: &Option<String>) -> (r: Option<String>)
    ensures
        opt_view(r) == opt_view(*o),
{
    match o {
        Some(s) => Some(s.clone()),
        None => None,
    }
}

/// The `baseType` discriminator; exec counterpart of
/// [`base_type_name`].
pub fn base_type_of(d: &Data) -> (r: &'static str)
    ensures
        r@ == base_type_name(d@),
{
    match d {
        Data::Request(_) => "RequestData",
        Data::RemoteDependency(_) => "RemoteDependencyData",
        Data::Exception(_) => "ExceptionData",
        Data::Message(_) => "MessageData",
    }
}

/// The JSON tree of one envelope, as [`envelope_json`] says.
pub fn envelope_to_json(e: &Envelope) -> (r: JsonValue)
    ensures
        json_view(r) == envelope_json(e@),
{
    let mut dm: Vec<JsonMember> = Vec::new();
    dm = add_member(dm, String::from_str("baseType"), JsonValue::Str(base_type_of(&e.data).to_owned()));
    dm = add_member(dm, String::from_str("baseData"), data_to_json(&e.data));
    let ghost dmv = json_member_views(dm@);
    let mut ms: Vec<JsonMember> = Vec::new();
    ms = add_member(ms, String::from_str("name"), JsonValue::Str(e.name.clone()));
    ms = add_member(ms, String::from_str("time"), JsonValue::Str(e.time.clone()));
    ms = add_member(ms, String::from_str("sampleRate"), JsonValue::Int(e.sample_rate as i64));
    ms = add_member(ms, String::from_str("iKey"), JsonValue::Str(e.i_key.clone()));
    ms = add_member(ms, String::from_str("tags"), props_to_json(&e.tags));
    ms = add_member(ms, String::from_str("data"), JsonValue::Obj(dm));
    let r = JsonValue::Obj(ms);
    proof {
        assert(dmv =~= seq![
            ("baseType"@, JsonV::Str(base_type_name(e.data@))),
            ("baseData"@, base_data_json(e.data@)),
        ]);
        assert(envelope_json(e@) matches JsonV::Obj(target) && json_member_views(ms@) =~= target);
    }
    r
}

/// Serializes a whole batch to its wire text, exactly as [`wire_chars`]
/// states: a JSON array of envelope objects in batch order.
pub fn serialize_envelopes(envelopes: &Vec<Envelope>) -> (r: Vec<char>)
    ensures
        r@ == wire_chars(envs_view(envelopes@)),
{
    let ghost target = Seq::new(envelopes@.len(), |i: int| envelope_json(envelopes@[i]@));
    let mut elems: Vec<JsonValue> = Vec::new();
    let mut i: usize = 0;
    while i < envelopes.len()
        invariant
            i <= envelopes.len(),
            target == Seq::new(envelopes@.len(), |k: int| envelope_json(envelopes@[k]@)),
            target.len() == envelopes@.len(),
            json_views(elems@) =~= target.take(i as int),
        decreases envelopes.len() - i,
    {
        let ghost before = elems@;
        let ej = envelope_to_json(&envelopes[i]);
        elems.push(ej);
        proof {
            assert(elems@.drop_last() =~= before);
            assert(json_views(elems@) =~= json_views(before).push(envelope_json(
                envelopes@[i as int]@,
            )));
            assert(target.take(i as int + 1).drop_last() =~= target.take(i as int));
            assert(json_views(elems@) =~= target.take(i as int + 1));
        }
        i += 1;
    }
    proof {
        assert(target.take(envelopes@.len() as int) =~= target);
    }
    let arr = JsonValue::Arr(elems);
    let mut out: Vec<char> = Vec::new();
    json_to_chars(&arr, &mut out);
    proof {
        assert(Seq::new(envs_view(envelopes@).len(), |i: int| envelope_json(envs_view(
            envelopes@,
        )[i])) =~= target);
        assert(json_view(arr) == envelopes_json(envs_view(envelopes@)));
        assert(out@ =~= wire_chars(envs_view(envelopes@)));
    }
    out
}

} // verus!
