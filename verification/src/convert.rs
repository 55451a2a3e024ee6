//! The attribute/property converter: a generic attribute mapping plus
//! resource metadata becomes the custom-properties bag of a telemetry
//! record, with every key and value capped at the schema's string length.

use vstd::prelude::*;
use crate::model::{Attr, AttrV, attrs_view, has_key, str_of_value, find_attr, value_to_string};
use crate::text::{truncated, truncate_str};

verus! {

/// One custom property: a length-capped key and value.
pub struct Property {
    pub key: String,
    pub value: String,
}

/// Mathematical model of a [`Property`].
pub struct PropV {
    pub key: Seq<char>,
    pub value: Seq<char>,
}

impl View for Property {
    type V = PropV;

    open spec fn view(&self) -> PropV {
        PropV { key: self.key@, value: self.value@ }
    }
}

/// The model of a property list.
pub open spec fn props_view(props: Seq<Property>) -> Seq<PropV> {
    Seq::new(props.len(), |i: int| props[i]@)
}

/// The property one attribute becomes: its key and the text of its value,
/// both truncated to the schema cap.
pub open spec fn prop_of_attr(a: AttrV) -> PropV {
    PropV { key: truncated(a.key), value: truncated(str_of_value(a.value)) }
}

/// The properties a whole attribute list becomes, in order.
pub open spec fn props_of_attrs(list: Seq<AttrV>) -> Seq<PropV> {
    Seq::new(list.len(), |i: int| prop_of_attr(list[i]))
}

/// The first `i` resource entries that no attribute overrides, in resource
/// order: resource entries act as defaults on key collision.
pub open spec fn resource_defaults(attrs: Seq<AttrV>, resource: Seq<AttrV>, i: nat) -> Seq<AttrV>
    decreases i,
{
    if i == 0 {
        Seq::empty()
    } else {
        let prev = resource_defaults(attrs, resource, (i - 1) as nat);
        if has_key(attrs, resource[i - 1].key) {
            prev
        } else {
            prev.push(resource[i - 1])
        }
    }
}

/// The merge the converter works on: surviving resource defaults first,
/// then every attribute, each list keeping its own order.
pub open spec fn merged_attrs(attrs: Seq<AttrV>, resource: Seq<AttrV>) -> Seq<AttrV> {
    resource_defaults(attrs, resource, resource.len()) + attrs
}

/// What the converter returns: the merged attributes as properties, or
/// nothing at all when that would be empty.
pub open spec fn spec_to_properties(attrs: Seq<AttrV>, resource: Seq<AttrV>) -> Option<
    Seq<PropV>,
> {
    let ps = props_of_attrs(merged_attrs(attrs, resource));
    if ps.len() == 0 {
        None
    } else {
        Some(ps)
    }
}

/// Truncation over a whole property bag: no merged attribute is ever
/// dropped — the bag has exactly one property per merged entry — and
/// every key and value is capped at the schema length, cut to exactly
/// the cap when the source text is longer.
pub proof fn lemma_properties_truncation(attrs: Seq<AttrV>, resource: Seq<AttrV>)
    ensures
        match spec_to_properties(attrs, resource) {
            Some(ps) => {
                &&& ps.len() == merged_attrs(attrs, resource).len()
                &&& forall|i: int| 0 <= i < ps.len() ==> #[trigger] ps[i].key.len()
                    <= crate::text::MAX_STRING_LEN && ps[i].value.len()
                    <= crate::text::MAX_STRING_LEN
                &&& forall|i: int| 0 <= i < ps.len() ==> #[trigger] ps[i].value == truncated(
                    str_of_value(merged_attrs(attrs, resource)[i].value),
                ) && (str_of_value(merged_attrs(attrs, resource)[i].value).len()
                    > crate::text::MAX_STRING_LEN ==> ps[i].value.len()
                    == crate::text::MAX_STRING_LEN)
            },
            None => merged_attrs(attrs, resource).len() == 0,
        },
{
    let merged = merged_attrs(attrs, resource);
    let ps = props_of_attrs(merged);
    assert forall|i: int| 0 <= i < ps.len() implies #[trigger] ps[i].key.len()
        <= crate::text::MAX_STRING_LEN && ps[i].value.len() <= crate::text::MAX_STRING_LEN by {
        crate::text::lemma_truncated(merged[i].key);
        crate::text::lemma_truncated(str_of_value(merged[i].value));
    }
    assert forall|i: int| 0 <= i < ps.len() implies #[trigger] ps[i].value == truncated(
        str_of_value(merged[i].value),
    ) && (str_of_value(merged[i].value).len() > crate::text::MAX_STRING_LEN ==> ps[i].value.len()
        == crate::text::MAX_STRING_LEN) by {
        crate::text::lemma_truncated(str_of_value(merged[i].value));
    }
}

/// Whether `attrs` holds `key`; exec counterpart of [`has_key`].
pub fn has_attr(attrs: &Vec<Attr>, key: &String) -> (r: bool)
    ensures
        r == has_key(attrs_view(attrs@), key@),
{
    match find_attr(attrs, key) {
        Some(_) => true,
        None => false,
    }
}

/// Exec counterpart of [`prop_of_attr`].
pub fn to_property(a: &Attr) -> (r: Property)
    ensures
        r@ == prop_of_attr(a@),
{
    Property {
        key: truncate_str(a.key.as_str()),
        value: truncate_str(value_to_string(&a.value).as_str()),
    }
}

/// Merges `attrs` with `resource` (resource entries are defaults,
/// attributes win on key collision), converts every value to its text and
/// truncates keys and values; yields `None` rather than an empty bag.
pub fn attrs_to_properties(attrs: &Vec<Attr>, resource: &Vec<Attr>) -> (r: Option<Vec<Property>>)
    ensures
        match r {
            Some(ps) => spec_to_properties(attrs_view(attrs@), attrs_view(resource@)) == Some(
                props_view(ps@),
            ),
            None => spec_to_properties(attrs_view(attrs@), attrs_view(resource@)) is None,
        },
{
    let ghost av = attrs_view(attrs@);
    let ghost rv = attrs_view(resource@);
    let mut out: Vec<Property> = Vec::new();
    let mut i: usize = 0;
    while i < resource.len()
        invariant
            i <= resource.len(),
            av == attrs_view(attrs@),
            rv == attrs_view(resource@),
            rv.len() == resource.len(),
            props_view(out@) =~= props_of_attrs(resource_defaults(av, rv, i as nat)),
        decreases resource.len() - i,
    {
        let ghost prev = resource_defaults(av, rv, i as nat);
        proof {
            assert(rv[i as int] == resource@[i as int]@);
            assert(resource_defaults(av, rv, (i + 1) as nat) == if has_key(
                av,
                rv[i as int].key,
            ) {
                prev
            } else {
                prev.push(rv[i as int])
            });
        }
        if !has_attr(attrs, &resource[i].key) {
            let ghost out_before = out@;
            let p = to_property(&resource[i]);
            out.push(p);
            proof {
                let pushed = prev.push(rv[i as int]);
                assert(out@ == out_before.push(p));
                assert(props_view(out_before).len() == out_before.len());
                assert(props_of_attrs(prev).len() == prev.len());
                assert(out_before.len() == prev.len());
                assert(props_view(out@).len() == out@.len());
                assert(props_of_attrs(pushed).len() == pushed.len());
                assert forall|k: int| 0 <= k < out@.len() implies props_view(out@)[k]
                    == props_of_attrs(pushed)[k] by {
                    assert(props_view(out@)[k] == out@[k]@);
                    assert(props_of_attrs(pushed)[k] == prop_of_attr(pushed[k]));
                    if k < out@.len() - 1 {
                        assert(out@[k] == out_before[k]);
                        assert(props_view(out_before)[k] == out_before[k]@);
                        assert(props_of_attrs(prev)[k] == prop_of_attr(prev[k]));
                    }
                }
                assert(props_view(out@) =~= props_of_attrs(pushed));
            }
        }
        proof {
            assert(props_view(out@) =~= props_of_attrs(resource_defaults(av, rv, (i + 1) as nat)));
        }
        i += 1;
    }
    let ghost defaults = resource_defaults(av, rv, rv.len());
    let mut j: usize = 0;
    while j < attrs.len()
        invariant
            j <= attrs.len(),
            av == attrs_view(attrs@),
            av.len() == attrs.len(),
            defaults == resource_defaults(av, attrs_view(resource@), attrs_view(resource@).len()),
            props_view(out@) =~= props_of_attrs(defaults + av.take(j as int)),
        decreases attrs.len() - j,
    {
        let ghost sofar = defaults + av.take(j as int);
        let ghost out_before = out@;
        proof {
            assert(av[j as int] == attrs@[j as int]@);
        }
        let p = to_property(&attrs[j]);
        out.push(p);
        proof {
            let pushed = sofar.push(av[j as int]);
            assert(out@ == out_before.push(p));
            assert(props_view(out_before).len() == out_before.len());
            assert(props_of_attrs(sofar).len() == sofar.len());
            assert(out_before.len() == sofar.len());
            assert(props_view(out@).len() == out@.len());
            assert(props_of_attrs(pushed).len() == pushed.len());
            assert forall|k: int| 0 <= k < out@.len() implies props_view(out@)[k]
                == props_of_attrs(pushed)[k] by {
                assert(props_view(out@)[k] == out@[k]@);
                assert(props_of_attrs(pushed)[k] == prop_of_attr(pushed[k]));
                if k < out@.len() - 1 {
                    assert(out@[k] == out_before[k]);
                    assert(props_view(out_before)[k] == out_before[k]@);
                    assert(props_of_attrs(sofar)[k] == prop_of_attr(sofar[k]));
                }
            }
            assert(props_view(out@) =~= props_of_attrs(pushed));
            assert(pushed =~= defaults + av.take(j as int + 1));
        }
        j += 1;
    }
    proof {
        assert(defaults + av.take(attrs.len() as int) =~= merged_attrs(av, rv));
    }
    if out.len() == 0 {
        None
    } else {
        Some(out)
    }
}

} // verus!
