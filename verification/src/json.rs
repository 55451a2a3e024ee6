//! The wire format: a JSON tree type, its text rendering, and the exact
//! shape an envelope sequence takes on the wire.

use vstd::prelude::*;
use crate::model::bool_chars;
use crate::text::{int_digits, hex_char};

verus! {

/// One key-value member of a JSON object.
pub struct JsonMember {
    pub key: String,
    pub value: JsonValue,
}

/// A JSON tree. Numbers are integers: nothing this engine sends or reads
/// needs fractions.
pub enum JsonValue {
    Null,
    Bool(bool),
    Int(i64),
    Str(String),
    Arr(Vec<JsonValue>),
    Obj(Vec<JsonMember>),
}

/// Mathematical model of a [`JsonValue`].
pub enum JsonV {
    Null,
    Bool(bool),
    Int(i64),
    Str(Seq<char>),
    Arr(Seq<JsonV>),
    Obj(Seq<(Seq<char>, JsonV)>),
}

/// The model of a [`JsonValue`].
pub open spec fn json_view(v: JsonValue) -> JsonV
    decreases v,
    via json_view_decreases
{
    match v {
        JsonValue::Null => JsonV::Null,
        JsonValue::Bool(b) => JsonV::Bool(b),
        JsonValue::Int(i) => JsonV::Int(i),
        JsonValue::Str(s) => JsonV::Str(s@),
        JsonValue::Arr(es) => JsonV::Arr(json_views(es@)),
        JsonValue::Obj(ms) => JsonV::Obj(json_member_views(ms@)),
    }
}

/// The models of a list of JSON values.
pub open spec fn json_views(es: Seq<JsonValue>) -> Seq<JsonV>
    decreases es,
    via json_views_decreases
{
    if es.len() == 0 {
        Seq::empty()
    } else {
        json_views(es.drop_last()).push(json_view(es.last()))
    }
}

/// The models of a list of object members.
pub open spec fn json_member_views(ms: Seq<JsonMember>) -> Seq<(Seq<char>, JsonV)>
    decreases ms,
    via json_member_views_decreases
{
    if ms.len() == 0 {
        Seq::empty()
    } else {
        json_member_views(ms.drop_last()).push((ms.last().key@, json_view(ms.last().value)))
    }
}

#[via_fn]
proof fn json_view_decreases(v: JsonValue) {
    match v {
        JsonValue::Arr(es) => {
            assert(decreases_to!(v => es));
            assert(decreases_to!(es => es@));
        },
        JsonValue::Obj(ms) => {
            assert(decreases_to!(v => ms));
            assert(decreases_to!(ms => ms@));
        },
        _ => {},
    }
}

#[via_fn]
proof fn json_views_decreases(es: Seq<JsonValue>) {
    if es.len() > 0 {
        assert(es.drop_last() == es.subrange(0, es.len() - 1));
        assert(decreases_to!(es => es.subrange(0, es.len() - 1)));
        assert(es.last() == es[es.len() - 1]);
        assert(decreases_to!(es => es[es.len() - 1]));
    }
}

#[via_fn]
proof fn json_member_views_decreases(ms: Seq<JsonMember>) {
    if ms.len() > 0 {
        assert(ms.drop_last() == ms.subrange(0, ms.len() - 1));
        assert(decreases_to!(ms => ms.subrange(0, ms.len() - 1)));
        assert(ms.last() == ms[ms.len() - 1]);
        assert(decreases_to!(ms => ms[ms.len() - 1]));
        assert(decreases_to!(ms[ms.len() - 1] => ms[ms.len() - 1].value));
    }
}

/// Element-wise reading of [`json_views`].
pub proof fn lemma_json_views(es: Seq<JsonValue>)
    ensures
        json_views(es).len() == es.len(),
        forall|i: int| 0 <= i < es.len() ==> json_views(es)[i] == json_view(es[i]),
    decreases es.len(),
{
    if es.len() > 0 {
        lemma_json_views(es.drop_last());
        assert forall|i: int| 0 <= i < es.len() implies json_views(es)[i] == json_view(
            es[i],
        ) by {
            if i < es.len() - 1 {
                assert(es.drop_last()[i] == es[i]);
            }
        }
    }
}

/// Element-wise reading of [`json_member_views`].
pub proof fn lemma_json_member_views(ms: Seq<JsonMember>)
    ensures
        json_member_views(ms).len() == ms.len(),
        forall|i: int| 0 <= i < ms.len() ==> json_member_views(ms)[i] == (
            ms[i].key@,
            json_view(ms[i].value),
        ),
    decreases ms.len(),
{
    if ms.len() > 0 {
        lemma_json_member_views(ms.drop_last());
        assert forall|i: int| 0 <= i < ms.len() implies json_member_views(ms)[i] == (
            ms[i].key@,
            json_view(ms[i].value),
        ) by {
            if i < ms.len() - 1 {
                assert(ms.drop_last()[i] == ms[i]);
            }
        }
    }
}

/// How one character appears inside a JSON string: quotes, backslashes
/// and control characters are escaped, everything else stands as itself.
pub open spec fn esc_char(c: char) -> Seq<char> {
    if c == '"' {
        seq!['\\', '"']
    } else if c == '\\' {
        seq!['\\', '\\']
    } else if c == '\n' {
        seq!['\\', 'n']
    } else if c == '\r' {
        seq!['\\', 'r']
    } else if c == '\t' {
        seq!['\\', 't']
    } else if (c as u32) < 32 {
        seq!['\\', 'u', '0', '0'] + seq![
            hex_char(((c as u32) / 16) as nat),
            hex_char(((c as u32) % 16) as nat),
        ]
    } else {
        seq![c]
    }
}

/// A whole string escaped, character by character.
pub open spec fn escaped(s: Seq<char>) -> Seq<char>
    decreases s.len(),
{
    if s.len() == 0 {
        Seq::empty()
    } else {
        escaped(s.drop_last()) + esc_char(s.last())
    }
}

/// The text of one object member: quoted escaped key, `':'`, the value.
pub open spec fn member_chars(m: (Seq<char>, JsonV)) -> Seq<char>
    decreases m,
{
    seq!['"'] + escaped(m.0) + seq!['"'] + seq![':'] + json_chars(m.1)
}

/// The compact text of a JSON tree: no whitespace, members and elements
/// joined with `','`, strings escaped as [`esc_char`] says.
pub open spec fn json_chars(v: JsonV) -> Seq<char>
    decreases v,
    via json_chars_decreases
{
    match v {
        JsonV::Null => seq!['n', 'u', 'l', 'l'],
        JsonV::Bool(b) => bool_chars(b),
        JsonV::Int(i) => int_digits(i as int),
        JsonV::Str(s) => seq!['"'] + escaped(s) + seq!['"'],
        JsonV::Arr(es) => seq!['['] + json_list_chars(es) + seq![']'],
        JsonV::Obj(ms) => seq!['{'] + json_members_chars(ms) + seq!['}'],
    }
}

/// The elements of an array rendered and joined with `','`.
pub open spec fn json_list_chars(es: Seq<JsonV>) -> Seq<char>
    decreases es,
    via json_list_chars_decreases
{
    if es.len() == 0 {
        Seq::empty()
    } else if es.len() == 1 {
        json_chars(es[0])
    } else {
        json_list_chars(es.drop_last()) + seq![','] + json_chars(es.last())
    }
}

/// The members of an object rendered and joined with `','`.
pub open spec fn json_members_chars(ms: Seq<(Seq<char>, JsonV)>) -> Seq<char>
    decreases ms,
    via json_members_chars_decreases
{
    if ms.len() == 0 {
        Seq::empty()
    } else if ms.len() == 1 {
        member_chars(ms[0])
    } else {
        json_members_chars(ms.drop_last()) + seq![','] + member_chars(ms.last())
    }
}

#[via_fn]
proof fn json_chars_decreases(v: JsonV) {
    match v {
        JsonV::Arr(es) => {
            assert(decreases_to!(v => es));
        },
        JsonV::Obj(ms) => {
            assert(decreases_to!(v => ms));
        },
        _ => {},
    }
}

#[via_fn]
proof fn json_list_chars_decreases(es: Seq<JsonV>) {
    if es.len() > 0 {
        assert(decreases_to!(es => es[0]));
        assert(es.drop_last() == es.subrange(0, es.len() - 1));
        assert(decreases_to!(es => es.subrange(0, es.len() - 1)));
        assert(es.last() == es[es.len() - 1]);
        assert(decreases_to!(es => es[es.len() - 1]));
    }
}

#[via_fn]
proof fn json_members_chars_decreases(ms: Seq<(Seq<char>, JsonV)>) {
    if ms.len() > 0 {
        assert(decreases_to!(ms => ms[0]));
        assert(ms.drop_last() == ms.subrange(0, ms.len() - 1));
        assert(decreases_to!(ms => ms.subrange(0, ms.len() - 1)));
        assert(ms.last() == ms[ms.len() - 1]);
        assert(decreases_to!(ms => ms[ms.len() - 1]));
    }
}

/// The character for a single hexadecimal digit; exec counterpart of
/// [`hex_char`].
fn hex_char_of(n: u32) -> (c: char)
    requires
        n < 16,
    ensures
        c == hex_char(n as nat),
{
    if n == 0 { '0' }
    else if n == 1 { '1' }
    else if n == 2 { '2' }
    else if n == 3 { '3' }
    else if n == 4 { '4' }
    else if n == 5 { '5' }
    else if n == 6 { '6' }
    else if n == 7 { '7' }
    else if n == 8 { '8' }
    else if n == 9 { '9' }
    else if n == 10 { 'a' }
    else if n == 11 { 'b' }
    else if n == 12 { 'c' }
    else if n == 13 { 'd' }
    else if n == 14 { 'e' }
    else { 'f' }
}

/// Appends the characters of `s` to `out`.
pub fn push_str_chars(out: &mut Vec<char>, s: &str)
    ensures
        final(out)@ == old(out)@ + s@,
{
    let n = s.unicode_len();
    let mut i: usize = 0;
    while i < n
        invariant
            i <= n,
            n == s@.len(),
            out@ == old(out)@ + s@.take(i as int),
        decreases n - i,
    {
        out.push(s.get_char(i));
        proof {
            assert(s@.take(i as int).push(s@[i as int]) =~= s@.take(i as int + 1));
            assert(out@ =~= old(out)@ + s@.take(i as int + 1));
        }
        i += 1;
    }
    proof {
        assert(s@.take(n as int) =~= s@);
        assert(out@ =~= old(out)@ + s@);
    }
}

/// Appends one escaped character to `out`.
fn push_escaped_char(out: &mut Vec<char>, c: char)
    ensures
        final(out)@ == old(out)@ + esc_char(c),
{
    if c == '"' {
        out.push('\\');
        out.push('"');
        proof {
            assert(out@ =~= old(out)@ + esc_char(c));
        }
    } else if c == '\\' {
        out.push('\\');
        out.push('\\');
        proof {
            assert(out@ =~= old(out)@ + esc_char(c));
        }
    } else if c == '\n' {
        out.push('\\');
        out.push('n');
        proof {
            assert(out@ =~= old(out)@ + esc_char(c));
        }
    } else if c == '\r' {
        out.push('\\');
        out.push('r');
        proof {
            assert(out@ =~= old(out)@ + esc_char(c));
        }
    } else if c == '\t' {
        out.push('\\');
        out.push('t');
        proof {
            assert(out@ =~= old(out)@ + esc_char(c));
        }
    } else {
        let cc = c as u32;
        if cc < 32 {
            out.push('\\');
            out.push('u');
            out.push('0');
            out.push('0');
            out.push(hex_char_of(cc / 16));
            out.push(hex_char_of(cc % 16));
            proof {
                assert(out@ =~= old(out)@ + esc_char(c));
            }
        } else {
            out.push(c);
            proof {
                assert(out@ =~= old(out)@ + esc_char(c));
            }
        }
    }
}

/// Appends the escaped characters of `s` to `out`.
fn push_escaped(out: &mut Vec<char>, s: &str)
    ensures
        final(out)@ == old(out)@ + escaped(s@),
{
    let n = s.unicode_len();
    let mut i: usize = 0;
    while i < n
        invariant
            i <= n,
            n == s@.len(),
            out@ == old(out)@ + escaped(s@.take(i as int)),
        decreases n - i,
    {
        push_escaped_char(out, s.get_char(i));
        proof {
            assert(s@.take(i as int + 1).drop_last() =~= s@.take(i as int));
            assert(s@.take(i as int + 1).last() == s@[i as int]);
            assert(out@ =~= old(out)@ + escaped(s@.take(i as int + 1)));
        }
        i += 1;
    }
    proof {
        assert(s@.take(n as int) =~= s@);
    }
}

/// Renders a JSON tree as compact text, exactly as [`json_chars`]
/// states.
pub fn json_to_chars(v: &JsonValue, out: &mut Vec<char>)
    ensures
        final(out)@ == old(out)@ + json_chars(json_view(*v)),
    decreases *v,
{
    match v {
        JsonValue::Null => {
            out.push('n');
            out.push('u');
            out.push('l');
            out.push('l');
            proof {
                assert(out@ =~= old(out)@ + json_chars(json_view(*v)));
            }
        },
        JsonValue::Bool(b) => {
            if *b {
                out.push('t');
                out.push('r');
                out.push('u');
                out.push('e');
            } else {
                out.push('f');
                out.push('a');
                out.push('l');
                out.push('s');
                out.push('e');
            }
            proof {
                assert(out@ =~= old(out)@ + json_chars(json_view(*v)));
            }
        },
        JsonValue::Int(i) => {
            let s = crate::text::i64_to_string(*i);
            push_str_chars(out, s.as_str());
        },
        JsonValue::Str(s) => {
            out.push('"');
            push_escaped(out, s.as_str());
            out.push('"');
            proof {
                assert(out@ =~= old(out)@ + json_chars(json_view(*v)));
            }
        },
        JsonValue::Arr(es) => {
            let ghost elems = json_views(es@);
            proof {
                lemma_json_views(es@);
            }
            let ghost base = old(out)@ + seq!['['];
            out.push('[');
            let mut i: usize = 0;
            while i < es.len()
                invariant
                    i <= es.len(),
                    *v == JsonValue::Arr(*es),
                    elems == json_views(es@),
                    elems.len() == es@.len(),
                    forall|k: int| 0 <= k < es@.len() ==> elems[k] == json_view(es@[k]),
                    base == old(out)@ + seq!['['],
                    out@ == base + json_list_chars(elems.take(i as int)),
                decreases es.len() - i,
            {
                if i > 0 {
                    out.push(',');
                }
                proof {
                    assert(decreases_to!(*v => v->Arr_0));
                    assert(v->Arr_0 == *es);
                    assert(decreases_to!(*v => *es));
                    assert(decreases_to!(*es => es@));
                    assert(decreases_to!(es@ => es@[i as int]));
                }
                json_to_chars(&es[i], out);
                proof {
                    assert(elems.take(i as int + 1).drop_last() =~= elems.take(i as int));
                    assert(elems.take(i as int + 1).last() == elems[i as int]);
                    assert(out@ =~= base + json_list_chars(elems.take(i as int + 1)));
                }
                i += 1;
            }
            out.push(']');
            proof {
                assert(elems.take(es@.len() as int) =~= elems);
                assert(json_view(*v) == JsonV::Arr(elems));
                assert(out@ =~= old(out)@ + json_chars(json_view(*v)));
            }
        },
        JsonValue::Obj(ms) => {
            let ghost mems = json_member_views(ms@);
            proof {
                lemma_json_member_views(ms@);
            }
            let ghost base = old(out)@ + seq!['{'];
            out.push('{');
            let mut i: usize = 0;
            while i < ms.len()
                invariant
                    i <= ms.len(),
                    *v == JsonValue::Obj(*ms),
                    mems == json_member_views(ms@),
                    mems.len() == ms@.len(),
                    forall|k: int| 0 <= k < ms@.len() ==> mems[k] == (
                        ms@[k].key@,
                        json_view(ms@[k].value),
                    ),
                    base == old(out)@ + seq!['{'],
                    out@ == base + json_members_chars(mems.take(i as int)),
                decreases ms.len() - i,
            {
                if i > 0 {
                    out.push(',');
                }
                let ghost mark = out@;
                out.push('"');
                push_escaped(out, ms[i].key.as_str());
                out.push('"');
                out.push(':');
                proof {
                    assert(decreases_to!(*v => v->Obj_0));
                    assert(v->Obj_0 == *ms);
                    assert(decreases_to!(*v => *ms));
                    assert(decreases_to!(*ms => ms@));
                    assert(decreases_to!(ms@ => ms@[i as int]));
                    assert(decreases_to!(ms@[i as int] => ms@[i as int].value));
                }
                json_to_chars(&ms[i].value, out);
                proof {
                    assert(out@ =~= mark + member_chars((ms@[i as int].key@, json_view(
                        ms@[i as int].value,
                    ))));
                    assert(mems.take(i as int + 1).drop_last() =~= mems.take(i as int));
                    assert(mems.take(i as int + 1).last() == mems[i as int]);
                    assert(out@ =~= base + json_members_chars(mems.take(i as int + 1)));
                }
                i += 1;
            }
            out.push('}');
            proof {
                assert(mems.take(ms@.len() as int) =~= mems);
                assert(json_view(*v) == JsonV::Obj(mems));
                assert(out@ =~= old(out)@ + json_chars(json_view(*v)));
            }
        },
    }
}

} // verus!
