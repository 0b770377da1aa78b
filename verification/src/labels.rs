//! Display labels of values, objects and names.
use vstd::prelude::*;

use crate::bytes::eq16;
use crate::statement::{StatementObject, StatementValue};
use crate::text::{decimal, hex_char, hex_digit, push_decimal, signed_decimal, signed_text};

verus! {

/// A value as a short label.
pub open spec fn value_label(v: StatementValue) -> Seq<char> {
    match v {
        StatementValue::Text(s) => s@,
        StatementValue::Integer(n) => signed_decimal(n as int),
        StatementValue::Float { bits: _, shown } => shown@,
        StatementValue::Bool(b) => if b {
            "true"@
        } else {
            "false"@
        },
        StatementValue::UnixNanos(t) => decimal(t as nat),
        StatementValue::Blob(b) => "<"@ + decimal(b@.len()) + " bytes>"@,
    }
}

/// The label of a value.
pub open spec fn renders_value(
    r: String,
    v: StatementValue,
) -> bool {
    r@ == value_label(v)
}

/// A value as a short label.
pub fn render_value(v: &StatementValue) -> (r: String)
    ensures
        renders_value(r, *v),
{
    match v {
        StatementValue::Text(s) => s.clone(),
        StatementValue::Integer(n) => signed_text(*n),
        StatementValue::Float { bits: _, shown } => shown.clone(),
        StatementValue::Bool(b) => if *b {
            "true".to_owned()
        } else {
            "false".to_owned()
        },
        StatementValue::UnixNanos(t) => {
            let mut out = String::new();
            push_decimal(&mut out, *t);
            assert(out@ =~= decimal(*t as nat));
            out
        },
        StatementValue::Blob(b) => {
            let mut out = "<".to_owned();
            push_decimal(&mut out, b.len() as u64);
            out.push_str(" bytes>");
            out
        },
    }
}

/// A byte in lower-case hex without padding.
pub open spec fn hex_byte(b: u8) -> Seq<char> {
    if b < 16 {
        seq![hex_digit(b as nat)]
    } else {
        seq![hex_digit((b / 16) as nat), hex_digit((b % 16) as nat)]
    }
}

/// Bytes in lower-case hex, separated by commas.
pub open spec fn hex_items(s: Seq<u8>) -> Seq<char>
    decreases s.len(),
{
    if s.len() == 0 {
        Seq::empty()
    } else if s.len() == 1 {
        hex_byte(s[0])
    } else {
        hex_items(s.drop_last()) + ", "@ + hex_byte(s.last())
    }
}

/// Bytes as a bracketed list in lower-case hex.
pub open spec fn hex_list(s: Seq<u8>) -> Seq<char> {
    "["@ + hex_items(s) + "]"@
}

/// Appends bytes as a bracketed list in lower-case hex.
pub fn push_hex_list(out: &mut String, s: &[u8])
    ensures
        final(out)@ == old(out)@ + hex_list(s@),
{
    out.push_str("[");
    let ghost start = out@;
    for i in 0..s.len()
        invariant
            out@ == start + hex_items(s@.take(i as int)),
    {
        proof {
            let t = s@.take(i + 1);
            assert(t.drop_last() =~= s@.take(i as int));
            assert(t.last() == s@[i as int]);
        }
        if i > 0 {
            out.push_str(", ");
        }
        let b: u8 = s[i];
        let ghost before = out@;
        if b >= 16 {
            out.push(hex_char(b / 16));
            out.push(hex_char(b % 16));
        } else {
            out.push(hex_char(b));
        }
        assert(out@ =~= before + hex_byte(b));
        assert(out@ =~= start + hex_items(s@.take(i + 1)));
    }
    assert(s@.take(s@.len() as int) =~= s@);
    out.push_str("]");
    assert(out@ =~= old(out)@ + hex_list(s@));
}

/// The name of an entity, with its type where that is known.
#[derive(Debug)]
pub struct EntityName {
    pub id: [u8; 16],
    pub name: String,
    pub type_label: Option<String>,
}

/// The first entry for an id.
pub open spec fn name_entry(names: Seq<EntityName>, id: [u8; 16]) -> Option<EntityName>
    decreases names.len(),
{
    if names.len() == 0 {
        None
    } else if names[0].id == id {
        Some(names[0])
    } else {
        name_entry(names.skip(1), id)
    }
}

/// The name of an entity, empty where it is unknown.
pub open spec fn name_of(names: Seq<EntityName>, id: [u8; 16]) -> Seq<char> {
    match name_entry(names, id) {
        Some(e) => e.name@,
        None => Seq::empty(),
    }
}

/// Whether an entry is the one of an id.
pub open spec fn finds_name(
    r: Option<&'_ EntityName>,
    names: Vec<EntityName>,
    id: [u8; 16],
) -> bool {
    match name_entry(names@, id) {
        Some(e) => r matches Some(x) && *x == e,
        None => r is None,
    }
}

/// The first entry for an id.
pub fn find_name<'a>(names: &'a Vec<EntityName>, id: &[u8; 16]) -> (r: Option<&'a EntityName>)
    ensures
        finds_name(r, *names, *id),
{
    let mut i: usize = 0;
    assert(names@.skip(0) =~= names@);
    while i < names.len()
        invariant
            i <= names@.len(),
            name_entry(names@, *id) == name_entry(names@.skip(i as int), *id),
        decreases names@.len() - i,
    {
        if eq16(&names[i].id, id) {
            return Some(&names[i]);
        }
        assert(names@.skip(i as int).skip(1) =~= names@.skip(i + 1));
        i = i + 1;
    }
    None
}

/// The name of an entity, empty where it is unknown.
pub fn lookup_name(names: &Vec<EntityName>, id: &[u8; 16]) -> (r: String)
    ensures
        r@ == name_of(names@, *id),
{
    match find_name(names, id) {
        Some(e) => e.name.clone(),
        None => String::new(),
    }
}

/// An object as a label: the entity's name, the value, or a tagged id.
pub open spec fn object_label(o: StatementObject, names: Seq<EntityName>) -> Seq<char> {
    match o {
        StatementObject::EntityRef(id) => name_of(names, id),
        StatementObject::Value(v) => value_label(v),
        StatementObject::MemoryRef(id) => "memory:"@ + hex_list(id@),
        StatementObject::StatementRef(id) => "statement:"@ + hex_list(id@),
    }
}

/// The label of an object.
pub open spec fn renders_object(
    r: String,
    o: StatementObject,
    names: Vec<EntityName>,
) -> bool {
    r@ == object_label(o, names@)
}

/// An object as a label.
pub fn render_object(o: &StatementObject, names: &Vec<EntityName>) -> (r: String)
    ensures
        renders_object(r, *o, *names),
{
    match o {
        StatementObject::EntityRef(id) => lookup_name(names, id),
        StatementObject::Value(v) => render_value(v),
        StatementObject::MemoryRef(id) => {
            let mut out = "memory:".to_owned();
            push_hex_list(&mut out, id.as_slice());
            out
        },
        StatementObject::StatementRef(id) => {
            let mut out = "statement:".to_owned();
            push_hex_list(&mut out, id.as_slice());
            out
        },
    }
}

} // verus!
