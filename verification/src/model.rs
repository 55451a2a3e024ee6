//! The input side of the engine: completed spans, their events, attribute
//! values and resource metadata, as plain values.

use vstd::prelude::*;
use crate::text::int_digits;

verus! {

/// A typed attribute value: a scalar or an array of scalars.
#[derive(Clone, Debug)]
pub enum AttrValue {
    Str(String),
    Bool(bool),
    Int(i64),
    StrArray(Vec<String>),
    BoolArray(Vec<bool>),
    IntArray(Vec<i64>),
}

/// Mathematical model of an [`AttrValue`].
pub enum ValueV {
    Str(Seq<char>),
    Bool(bool),
    Int(i64),
    StrArray(Seq<Seq<char>>),
    BoolArray(Seq<bool>),
    IntArray(Seq<i64>),
}

impl View for AttrValue {
    type V = ValueV;

    open spec fn view(&self) -> ValueV {
        match self {
            AttrValue::Str(s) => ValueV::Str(s@),
            AttrValue::Bool(b) => ValueV::Bool(*b),
            AttrValue::Int(i) => ValueV::Int(*i),
            AttrValue::StrArray(v) => ValueV::StrArray(v.deep_view()),
            AttrValue::BoolArray(v) => ValueV::BoolArray(v@),
            AttrValue::IntArray(v) => ValueV::IntArray(v@),
        }
    }
}

/// One key-value entry of an attribute mapping.
#[derive(Clone, Debug)]
pub struct Attr {
    pub key: String,
    pub value: AttrValue,
}

/// Mathematical model of an [`Attr`].
pub struct AttrV {
    pub key: Seq<char>,
    pub value: ValueV,
}

impl View for Attr {
    type V = AttrV;

    open spec fn view(&self) -> AttrV {
        AttrV { key: self.key@, value: self.value@ }
    }
}

/// The model of an attribute list.
pub open spec fn attrs_view(attrs: Seq<Attr>) -> Seq<AttrV> {
    Seq::new(attrs.len(), |i: int| attrs[i]@)
}

/// Process-wide metadata attached to every span from one source.
pub struct Resource {
    pub attrs: Vec<Attr>,
}

/// The five span kinds of the tracing model.
#[derive(Clone, Copy, PartialEq, Eq, Structural)]
pub enum SpanKind {
    Server,
    Consumer,
    Client,
    Producer,
    Internal,
}

/// The status a span ended with.
#[derive(Clone, Copy, PartialEq, Eq, Structural)]
pub enum SpanStatus {
    Unset,
    Okay,
    Error,
}

/// A named point-in-time annotation attached to a span.
pub struct Event {
    pub name: String,
    /// Nanoseconds since the Unix epoch.
    pub timestamp_nanos: u64,
    pub attributes: Vec<Attr>,
}

/// Mathematical model of an [`Event`].
pub struct EventV {
    pub name: Seq<char>,
    pub timestamp_nanos: u64,
    pub attributes: Seq<AttrV>,
}

impl View for Event {
    type V = EventV;

    open spec fn view(&self) -> EventV {
        EventV {
            name: self.name@,
            timestamp_nanos: self.timestamp_nanos,
            attributes: attrs_view(self.attributes@),
        }
    }
}

/// An immutable completed unit of traced work.
pub struct Span {
    pub kind: SpanKind,
    pub name: String,
    /// The span's unique identifier.
    pub span_id: u64,
    /// Nanoseconds since the Unix epoch.
    pub start_time_nanos: u64,
    /// Nanoseconds since the Unix epoch.
    pub end_time_nanos: u64,
    pub status: SpanStatus,
    pub attributes: Vec<Attr>,
    pub resource: Resource,
    pub events: Vec<Event>,
}

/// Mathematical model of a [`Span`].
pub struct SpanV {
    pub kind: SpanKind,
    pub name: Seq<char>,
    pub span_id: u64,
    pub start_time_nanos: u64,
    pub end_time_nanos: u64,
    pub status: SpanStatus,
    pub attributes: Seq<AttrV>,
    pub resource: Seq<AttrV>,
    pub events: Seq<EventV>,
}

impl View for Span {
    type V = SpanV;

    open spec fn view(&self) -> SpanV {
        SpanV {
            kind: self.kind,
            name: self.name@,
            span_id: self.span_id,
            start_time_nanos: self.start_time_nanos,
            end_time_nanos: self.end_time_nanos,
            status: self.status,
            attributes: attrs_view(self.attributes@),
            resource: attrs_view(self.resource.attrs@),
            events: Seq::new(self.events@.len(), |i: int| self.events@[i]@),
        }
    }
}

/// The value of the first entry of `attrs` whose key is `key`, if any.
pub open spec fn lookup(attrs: Seq<AttrV>, key: Seq<char>) -> Option<ValueV>
    decreases attrs.len(),
{
    if attrs.len() == 0 {
        None
    } else if attrs[0].key == key {
        Some(attrs[0].value)
    } else {
        lookup(attrs.skip(1), key)
    }
}

/// Whether `attrs` holds an entry whose key is `key`.
pub open spec fn has_key(attrs: Seq<AttrV>, key: Seq<char>) -> bool {
    lookup(attrs, key) is Some
}

/// Span attributes first, resource attributes as the fallback: the merged
/// lookup used by the tag resolver.
pub open spec fn lookup_merged(s: SpanV, key: Seq<char>) -> Option<ValueV> {
    if has_key(s.attributes, key) {
        lookup(s.attributes, key)
    } else {
        lookup(s.resource, key)
    }
}

/// Exec counterpart of [`lookup`].
pub fn find_attr<'a>(attrs: &'a Vec<Attr>, key: &String) -> (r: Option<&'a AttrValue>)
    ensures
        match r {
            Some(v) => lookup(attrs_view(attrs@), key@) == Some(v@),
            None => lookup(attrs_view(attrs@), key@) is None,
        },
{
    let ghost all = attrs_view(attrs@);
    proof {
        assert(all.skip(0) =~= all);
    }
    let mut i: usize = 0;
    while i < attrs.len()
        invariant
            i <= attrs.len(),
            all == attrs_view(attrs@),
            lookup(all, key@) == lookup(all.skip(i as int), key@),
        decreases attrs.len() - i,
    {
        proof {
            assert(all.skip(i as int).len() == all.len() - i);
            assert(all.skip(i as int)[0] == all[i as int]);
            assert(all.skip(i as int).skip(1) =~= all.skip(i as int + 1));
        }
        if attrs[i].key == *key {
            return Some(&attrs[i].value);
        }
        i += 1;
    }
    proof {
        assert(all.skip(attrs@.len() as int).len() == 0);
    }
    None
}

/// Joins string parts with a single `','`, the array separator of the
/// property conversion.
pub open spec fn join_chars(parts: Seq<Seq<char>>) -> Seq<char>
    decreases parts.len(),
{
    if parts.len() == 0 {
        Seq::empty()
    } else if parts.len() == 1 {
        parts[0]
    } else {
        join_chars(parts.drop_last()) + seq![','] + parts.last()
    }
}

/// The text the literal `true` or `false`.
pub open spec fn bool_chars(b: bool) -> Seq<char> {
    if b {
        seq!['t', 'r', 'u', 'e']
    } else {
        seq!['f', 'a', 'l', 's', 'e']
    }
}

/// The string representation of an attribute value: strings verbatim,
/// booleans and integers as their usual text, arrays joined with `','`.
pub open spec fn str_of_value(v: ValueV) -> Seq<char> {
    match v {
        ValueV::Str(s) => s,
        ValueV::Bool(b) => bool_chars(b),
        ValueV::Int(i) => int_digits(i as int),
        ValueV::StrArray(parts) => join_chars(parts),
        ValueV::BoolArray(bs) => join_chars(Seq::new(bs.len(), |i: int| bool_chars(bs[i]))),
        ValueV::IntArray(is) => join_chars(Seq::new(is.len(), |i: int| int_digits(is[i] as int))),
    }
}

/// The literal `true` or `false`.
fn bool_to_string(b: bool) -> (r: String)
    ensures
        r@ == bool_chars(b),
{
    proof {
        reveal_strlit("true");
        reveal_strlit("false");
        assert("true"@ =~= seq!['t', 'r', 'u', 'e']);
        assert("false"@ =~= seq!['f', 'a', 'l', 's', 'e']);
    }
    if b {
        String::from_str("true")
    } else {
        String::from_str("false")
    }
}

/// Appends `part` to `acc`, preceded by the `','` separator unless `acc`
/// is the start of the join.
fn push_join_part(acc: String, part: &String, first: bool) -> (r: String)
    ensures
        r@ == if first { acc@ + part@ } else { acc@ + seq![','] + part@ },
{
    proof {
        reveal_strlit(",");
        assert(","@ =~= seq![',']);
    }
    if first {
        acc.concat(part.as_str())
    } else {
        acc.concat(",").concat(part.as_str())
    }
}

/// Joins string parts with `','`.
fn join_str_array(parts: &Vec<String>) -> (r: String)
    ensures
        r@ == join_chars(parts.deep_view()),
{
    let ghost model = parts.deep_view();
    let mut acc = String::new();
    let mut i: usize = 0;
    while i < parts.len()
        invariant
            i <= parts.len(),
            model == parts.deep_view(),
            model.len() == parts.len(),
            forall|j: int| 0 <= j < model.len() ==> model[j] == parts@[j]@,
            acc@ == join_chars(model.take(i as int)),
        decreases parts.len() - i,
    {
        acc = push_join_part(acc, &parts[i], i == 0);
        proof {
            assert(model.take(i as int + 1).drop_last() =~= model.take(i as int));
            assert(model.take(i as int + 1).last() == model[i as int]);
        }
        i += 1;
    }
    proof {
        assert(model.take(parts.len() as int) =~= model);
    }
    acc
}

/// Joins the texts of booleans with `','`.
fn join_bool_array(bs: &Vec<bool>) -> (r: String)
    ensures
        r@ == join_chars(Seq::new(bs@.len(), |i: int| bool_chars(bs@[i]))),
{
    let ghost model = Seq::new(bs@.len(), |i: int| bool_chars(bs@[i]));
    let mut acc = String::new();
    let mut i: usize = 0;
    while i < bs.len()
        invariant
            i <= bs.len(),
            model == Seq::new(bs@.len(), |i: int| bool_chars(bs@[i])),
            acc@ == join_chars(model.take(i as int)),
        decreases bs.len() - i,
    {
        let part = bool_to_string(bs[i]);
        acc = push_join_part(acc, &part, i == 0);
        proof {
            assert(model.take(i as int + 1).drop_last() =~= model.take(i as int));
            assert(model.take(i as int + 1).last() == model[i as int]);
        }
        i += 1;
    }
    proof {
        assert(model.take(bs@.len() as int) =~= model);
    }
    acc
}

/// Joins the texts of integers with `','`.
fn join_int_array(is: &Vec<i64>) -> (r: String)
    ensures
        r@ == join_chars(Seq::new(is@.len(), |i: int| int_digits(is@[i] as int))),
{
    let ghost model = Seq::new(is@.len(), |i: int| int_digits(is@[i] as int));
    let mut acc = String::new();
    let mut i: usize = 0;
    while i < is.len()
        invariant
            i <= is.len(),
            model == Seq::new(is@.len(), |i: int| int_digits(is@[i] as int)),
            acc@ == join_chars(model.take(i as int)),
        decreases is.len() - i,
    {
        let part = crate::text::i64_to_string(is[i]);
        acc = push_join_part(acc, &part, i == 0);
        proof {
            assert(model.take(i as int + 1).drop_last() =~= model.take(i as int));
            assert(model.take(i as int + 1).last() == model[i as int]);
        }
        i += 1;
    }
    proof {
        assert(model.take(is@.len() as int) =~= model);
    }
    acc
}

/// Exec counterpart of [`str_of_value`].
pub fn value_to_string(v: &AttrValue) -> (r: String)
    ensures
        r@ == str_of_value(v@),
{
    match v {
        AttrValue::Str(s) => s.clone(),
        AttrValue::Bool(b) => bool_to_string(*b),
        AttrValue::Int(i) => crate::text::i64_to_string(*i),
        AttrValue::StrArray(parts) => join_str_array(parts),
        AttrValue::BoolArray(bs) => join_bool_array(bs),
        AttrValue::IntArray(is) => join_int_array(is),
    }
}

} // verus!
