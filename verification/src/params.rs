//! Request parameters, tagged by how they travel: in the query string of a
//! read request, or as the JSON body of a write request.
use vstd::prelude::*;

use crate::json::{json_chars, Json, JsonValue};
use crate::query::{query_chars, query_encode};
use crate::text::string_from_chars;

verus! {

/// Parameter serialization failed: the value cannot be represented in the
/// chosen wire encoding (a nested value in query form).
#[derive(Clone, Copy, Debug, PartialEq, Eq, Structural)]
pub enum EncodeError {
    Unrepresentable,
}

/// A parameter object and its transmission mode. The tag is chosen by the
/// caller from the HTTP verb, never inferred from the value's shape.
pub enum Params {
    Get(JsonValue),
    Post(JsonValue),
}

/// The wire form of tagged parameters: a query string for `Get` (the value
/// must be an object of scalars), compact JSON text for `Post`.
pub open spec fn wire_chars(p: &Params) -> Option<Seq<char>> {
    match p {
        Params::Get(v) => match v@ {
            Json::Obj(o) => query_chars(o),
            _ => None,
        },
        Params::Post(v) => Some(json_chars(v@)),
    }
}

impl Params {
    /// The wire encoding of the parameters, or an error where the chosen
    /// mode cannot carry the value.
    pub fn to_string(&self) -> (r: Result<String, EncodeError>)
        ensures
            match r {
                Ok(s) => wire_chars(self) == Some(s@),
                Err(_) => wire_chars(self) is None,
            },
    {
        match self {
            Params::Get(v) => match v {
                JsonValue::Obj(o) => match query_encode(o) {
                    Some(cs) => Ok(string_from_chars(cs)),
                    None => Err(EncodeError::Unrepresentable),
                },
                _ => Err(EncodeError::Unrepresentable),
            },
            Params::Post(v) => {
                let cs = crate::json::json_to_chars(v);
                Ok(string_from_chars(cs))
            },
        }
    }
}

} // verus!
