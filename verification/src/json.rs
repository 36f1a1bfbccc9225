//! The wire representation of scalar values: the warehouse's query endpoint
//! carries every cell and parameter value as a JSON scalar, here modelled as
//! a plain enum over the shapes the library reads and writes.
use vstd::prelude::*;

verus! {

/// Mathematical form of a wire value.
pub ghost enum JsonVal {
    Null,
    Text(Seq<char>),
    Integer(int),
    Boolean(bool),
}

/// A JSON scalar as it travels to and from the warehouse's query endpoint.
///
/// The endpoint returns row cells and takes parameter values in this shape;
/// fractional numbers are not part of the verified core.
#[derive(Debug, PartialEq)]
pub enum JsonValue {
    Null,
    Text(String),
    Integer(i64),
    Boolean(bool),
}

impl View for JsonValue {
    type V = JsonVal;

    open spec fn view(&self) -> JsonVal {
        match self {
            JsonValue::Null => JsonVal::Null,
            JsonValue::Text(s) => JsonVal::Text(s@),
            JsonValue::Integer(n) => JsonVal::Integer(*n as int),
            JsonValue::Boolean(b) => JsonVal::Boolean(*b),
        }
    }
}

impl DeepView for JsonValue {
    type V = JsonVal;

    open spec fn deep_view(&self) -> JsonVal {
        self.view()
    }
}

impl Clone for JsonValue {
    fn clone(&self) -> (r: Self)
        ensures
            r@ == self@,
    {
        match self {
            JsonValue::Null => JsonValue::Null,
            JsonValue::Text(s) => JsonValue::Text(s.clone()),
            JsonValue::Integer(n) => JsonValue::Integer(*n),
            JsonValue::Boolean(b) => JsonValue::Boolean(*b),
        }
    }
}

impl JsonValue {
    /// True when the value is the JSON null.
    pub fn is_null(&self) -> (r: bool)
        ensures
            r == (self@ is Null),
    {
        match self {
            JsonValue::Null => true,
            _ => false,
        }
    }
}

} // verus!
