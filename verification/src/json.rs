//! Flat JSON objects: the bodies of replies and the claims of access tokens.

use vstd::prelude::*;
use vstd::string::StringExecFns;

verus! {

/// One member's value, as an exec value.
#[derive(Debug, PartialEq, Eq)]
pub enum Field {
    /// A JSON string.
    Text(String),
    /// A JSON number that is a non-negative integer below 2^64.
    Number(u64),
    /// Any other JSON value; written as `null`.
    Other,
}

/// One member's value, as a mathematical value.
pub enum FieldValue {
    Text(Seq<char>),
    Number(u64),
    Other,
}

impl View for Field {
    type V = FieldValue;

    open spec fn view(&self) -> FieldValue {
        match self {
            Field::Text(s) => FieldValue::Text(s@),
            Field::Number(n) => FieldValue::Number(*n),
            Field::Other => FieldValue::Other,
        }
    }
}

/// The members of an object, names and values by their views, in order.
pub open spec fn members(fields: Seq<(String, Field)>) -> Seq<(Seq<char>, FieldValue)> {
    fields.map_values(|p: (String, Field)| (p.0@, p.1@))
}

/// The first value under `name`, if there is one.
pub open spec fn lookup(members: Seq<(Seq<char>, FieldValue)>, name: Seq<char>) -> Option<
    FieldValue,
>
    decreases members.len(),
{
    if members.len() == 0 {
        None
    } else if members[0].0 == name {
        Some(members[0].1)
    } else {
        lookup(members.drop_first(), name)
    }
}

/// The JSON text that `serde_json` writes for the object with these members.
pub uninterp spec fn json_object_text(members: Seq<(Seq<char>, FieldValue)>) -> Seq<char>;

/// `serde_json::to_string` on a `serde_json::Map` filled with the members in
/// order (a later member replaces an earlier one of the same name). The text
/// depends on the members alone. The call fails only where a value refuses
/// to be written or a map has a key that is no string; a map of strings,
/// whole numbers and nulls under string keys, written into memory, has
/// neither, so the call succeeds.
#[verifier::external_body]
pub(crate) fn render_object(fields: &Vec<(String, Field)>) -> (r: Option<String>)
    ensures
        r is Some,
        r matches Some(text) ==> text@ == json_object_text(members(fields@)),
{
    let mut object = serde_json::Map::new();
    for (name, field) in fields.iter() {
        let value = match field {
            Field::Text(s) => serde_json::Value::from(s.as_str()),
            Field::Number(n) => serde_json::Value::from(*n),
            Field::Other => serde_json::Value::Null,
        };
        object.insert(name.clone(), value);
    }
    serde_json::to_string(&object).ok()
}

/// Finds the first value under `name`.
pub fn find<'a>(fields: &'a Vec<(String, Field)>, name: &str) -> (r: Option<&'a Field>)
    ensures
        match r {
            Some(f) => lookup(members(fields@), name@) == Some(f@),
            None => lookup(members(fields@), name@) is None,
        },
{
    let wanted = String::from_str(name);
    let mut i: usize = 0;
    assert(members(fields@).skip(0) =~= members(fields@));
    while i < fields.len()
        invariant
            i <= fields.len(),
            wanted@ == name@,
            lookup(members(fields@), name@) == lookup(members(fields@).skip(i as int), name@),
        decreases fields.len() - i,
    {
        let ghost rest = members(fields@).skip(i as int);
        assert(rest[0] == (fields@[i as int].0@, fields@[i as int].1@));
        assert(rest.drop_first() =~= members(fields@).skip(i + 1));
        if fields[i].0 == wanted {
            return Some(&fields[i].1);
        }
        i += 1;
    }
    assert(members(fields@).skip(i as int).len() == 0);
    None
}

} // verus!
