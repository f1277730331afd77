use vstd::prelude::*;

verus! {

/// One JSON-like value. The registry never looks inside a stored value: it is
/// kept and handed back as an opaque payload, so the variants only have to be
/// able to carry any inbound document.
#[derive(Debug, PartialEq, Eq)]
pub enum JsonValue {
    Null,
    Bool(bool),
    Int(i64),
    /// A numeric field that is not an integer, carried as its IEEE 754 bit
    /// pattern. The registry never interprets it.
    FloatBits(u64),
    Text(String),
    Array(Vec<JsonValue>),
    Object(Vec<(String, JsonValue)>),
}

/// The opaque value stored under a name: a JSON-like object, that is a list
/// of string keys with the values under them. The registry treats it as a
/// whole; nothing reads or edits it in place once attached.
#[derive(Debug, PartialEq, Eq)]
pub struct SharedObject {
    pub fields: Vec<(String, JsonValue)>,
}

} // verus!
