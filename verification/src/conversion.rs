//! The value codec: host scalars move across the JSON boundary through
//! `ConvertBigQueryParams`, and each host type names its warehouse SQL type
//! through `ConvertTypeToBigQueryType`.
use vstd::prelude::*;

use crate::json::{JsonVal, JsonValue};
use crate::textfmt::{
    all_digits, digits_val, i64_to_string, parse_signed, spec_dec_int, spec_parse_int, str_eq,
};

verus! {

/// Error raised when a wire value cannot be read as the requested host type,
/// or a host value cannot be sent.
#[derive(Debug)]
pub struct ConversionError {
    pub message: String,
}

impl ConversionError {
    pub fn new(message: &str) -> (r: Self)
        ensures
            r.message@ == message@,
    {
        ConversionError { message: String::from_str(message) }
    }
}

/// The wire text of a value, used when a parameter is shipped: a JSON string
/// is taken as it is, and any other non-null scalar by its JSON rendering.
pub open spec fn spec_value_to_string(v: JsonVal) -> Option<Seq<char>> {
    match v {
        JsonVal::Null => None,
        JsonVal::Text(s) => Some(s),
        JsonVal::Integer(n) => Some(spec_dec_int(n)),
        JsonVal::Boolean(b) => Some(if b {
            "true"@
        } else {
            "false"@
        }),
    }
}

/// Renders a wire value as the text that goes into a query parameter.
/// Only the JSON null has no such text.
pub fn convert_value_to_string(value: JsonValue) -> (r: Result<String, ConversionError>)
    ensures
        match r {
            Ok(s) => spec_value_to_string(value@) == Some(s@),
            Err(e) => value@ is Null && e.message@ == "Value is Null"@,
        },
{
    match value {
        JsonValue::Text(s) => Ok(s),
        JsonValue::Null => Err(ConversionError::new("Value is Null")),
        JsonValue::Integer(n) => Ok(i64_to_string(n)),
        JsonValue::Boolean(b) => {
            if b {
                Ok(String::from_str("true"))
            } else {
                Ok(String::from_str("false"))
            }
        },
    }
}

// ---------------------------------------------------------------------------
// Codec traits
// ---------------------------------------------------------------------------

/// Conversion of a host value to and from its wire representation.
///
/// `spec_from_param` is the mathematical decoder: `from_param` returns `Ok`
/// exactly on the wire values the decoder accepts, and `to_param` renders
/// exactly `spec_to_param`. Every implementation proves the round trip
/// `from_param(to_param(v)) == v` as `lemma_round_trip`.
pub trait ConvertBigQueryParams: DeepView + Sized {
    /// Which values may be sent as parameters; the whole type for scalars,
    /// restricted where the wire form cannot carry every value.
    spec fn param_wf(&self) -> bool;

    /// The wire value that `to_param` produces.
    spec fn spec_to_param(&self) -> JsonVal;

    /// The decoded form of a wire value, or nothing when the value cannot
    /// be read as this type.
    spec fn spec_from_param(v: JsonVal) -> Option<<Self as DeepView>::V>;

    fn from_param(value: &JsonValue) -> (r: Result<Self, ConversionError>)
        ensures
            match r {
                Ok(out) => Self::spec_from_param(value@) == Some(out.deep_view())
                    && out.param_wf() && (out.spec_to_param() is Null ==> value@ is Null),
                Err(_) => Self::spec_from_param(value@) is None,
            },
    ;

    fn to_param(&self) -> (r: JsonValue)
        requires
            self.param_wf(),
        ensures
            r@ == self.spec_to_param(),
    ;

    /// Decoding an encoded value gives the value back.
    proof fn lemma_round_trip(&self)
        requires
            self.param_wf(),
        ensures
            Self::spec_from_param(self.spec_to_param()) == Some(self.deep_view()),
    ;
}

/// The warehouse SQL type name for a host type.
pub trait ConvertTypeToBigQueryType {
    /// The name `convert_type_to_bigquery_type` returns.
    spec fn spec_bigquery_type() -> Seq<char>;

    fn convert_type_to_bigquery_type() -> (r: String)
        ensures
            r@ == Self::spec_bigquery_type(),
    ;
}

/// A host type that can both name its warehouse type and cross the wire.
pub trait BigDataValueType: ConvertTypeToBigQueryType + ConvertBigQueryParams {

}

impl<T: ConvertTypeToBigQueryType + ConvertBigQueryParams> BigDataValueType for T {

}

// ---------------------------------------------------------------------------
// Integer codecs
// ---------------------------------------------------------------------------

/// The wire value accepted as a 64-bit integer: a decimal string, or a JSON
/// number already holding an integer.
pub open spec fn spec_int64_from_param(v: JsonVal) -> Option<int> {
    match v {
        JsonVal::Integer(n) => Some(n),
        JsonVal::Text(s) => match spec_parse_int(s) {
            Some(n) => if i64::MIN <= n <= i64::MAX {
                Some(n)
            } else {
                None
            },
            None => None,
        },
        _ => None,
    }
}

impl ConvertBigQueryParams for i64 {
    open spec fn param_wf(&self) -> bool {
        true
    }

    open spec fn spec_to_param(&self) -> JsonVal {
        JsonVal::Integer(*self as int)
    }

    open spec fn spec_from_param(v: JsonVal) -> Option<i64> {
        match spec_int64_from_param(v) {
            Some(n) => if i64::MIN <= n <= i64::MAX {
                Some(n as i64)
            } else {
                None
            },
            None => None,
        }
    }

    fn from_param(value: &JsonValue) -> (r: Result<Self, ConversionError>) {
        match value {
            JsonValue::Integer(n) => Ok(*n),
            JsonValue::Text(s) => {
                match parse_signed(s.as_str(), 0x7fff_ffff_ffff_ffffu64, 0x8000_0000_0000_0000u64)
                {
                    Option::Some(n) => Ok(n),
                    Option::None => Err(ConversionError::new("invalid decimal string for INT64")),
                }
            },
            _ => Err(ConversionError::new("expected a decimal string for INT64")),
        }
    }

    fn to_param(&self) -> (r: JsonValue) {
        JsonValue::Integer(*self)
    }

    proof fn lemma_round_trip(&self) {
    }
}

impl ConvertBigQueryParams for i32 {
    open spec fn param_wf(&self) -> bool {
        true
    }

    open spec fn spec_to_param(&self) -> JsonVal {
        JsonVal::Integer(*self as int)
    }

    open spec fn spec_from_param(v: JsonVal) -> Option<i32> {
        match spec_int64_from_param(v) {
            Some(n) => if i32::MIN <= n <= i32::MAX {
                Some(n as i32)
            } else {
                None
            },
            None => None,
        }
    }

    fn from_param(value: &JsonValue) -> (r: Result<Self, ConversionError>) {
        match value {
            JsonValue::Integer(n) => {
                if *n >= i32::MIN as i64 && *n <= i32::MAX as i64 {
                    Ok(*n as i32)
                } else {
                    Err(ConversionError::new("number out of range for INT64 field"))
                }
            },
            JsonValue::Text(s) => {
                match parse_signed(s.as_str(), 0x7fff_ffffu64, 0x8000_0000u64) {
                    Option::Some(n) => Ok(n as i32),
                    Option::None => Err(ConversionError::new("invalid decimal string for INT64")),
                }
            },
            _ => Err(ConversionError::new("expected a decimal string for INT64")),
        }
    }

    fn to_param(&self) -> (r: JsonValue) {
        JsonValue::Integer(*self as i64)
    }

    proof fn lemma_round_trip(&self) {
    }
}

// ---------------------------------------------------------------------------
// Boolean codec
// ---------------------------------------------------------------------------

/// The wire value accepted as a boolean: the strings the warehouse emits.
pub open spec fn spec_bool_from_param(v: JsonVal) -> Option<bool> {
    match v {
        JsonVal::Text(s) => if s == "TRUE"@ || s == "true"@ {
            Some(true)
        } else if s == "FALSE"@ || s == "false"@ {
            Some(false)
        } else {
            None
        },
        _ => None,
    }
}

impl ConvertBigQueryParams for bool {
    open spec fn param_wf(&self) -> bool {
        true
    }

    open spec fn spec_to_param(&self) -> JsonVal {
        JsonVal::Text(if *self {
            "TRUE"@
        } else {
            "FALSE"@
        })
    }

    open spec fn spec_from_param(v: JsonVal) -> Option<bool> {
        spec_bool_from_param(v)
    }

    fn from_param(value: &JsonValue) -> (r: Result<Self, ConversionError>) {
        match value {
            JsonValue::Text(s) => {
                if str_eq(s.as_str(), "TRUE") || str_eq(s.as_str(), "true") {
                    Ok(true)
                } else if str_eq(s.as_str(), "FALSE") || str_eq(s.as_str(), "false") {
                    Ok(false)
                } else {
                    Err(ConversionError::new("Invalid value for bool"))
                }
            },
            _ => Err(ConversionError::new("Invalid value for bool")),
        }
    }

    fn to_param(&self) -> (r: JsonValue) {
        if *self {
            JsonValue::Text(String::from_str("TRUE"))
        } else {
            JsonValue::Text(String::from_str("FALSE"))
        }
    }

    proof fn lemma_round_trip(&self) {
        lemma_bool_literals_distinct();
    }
}

/// The four boolean wire spellings are pairwise distinct where it matters:
/// `FALSE` is neither spelling of truth.
pub proof fn lemma_bool_literals_distinct()
    ensures
        "FALSE"@ != "TRUE"@,
        "FALSE"@ != "true"@,
{
    reveal_strlit("FALSE");
    reveal_strlit("TRUE");
    reveal_strlit("true");
    assert("FALSE"@.len() == 5);
    assert("TRUE"@.len() == 4);
    assert("true"@.len() == 4);
}

// ---------------------------------------------------------------------------
// String codec
// ---------------------------------------------------------------------------

impl ConvertBigQueryParams for String {
    open spec fn param_wf(&self) -> bool {
        true
    }

    open spec fn spec_to_param(&self) -> JsonVal {
        JsonVal::Text(self@)
    }

    open spec fn spec_from_param(v: JsonVal) -> Option<Seq<char>> {
        match v {
            JsonVal::Text(s) => Some(s),
            _ => None,
        }
    }

    fn from_param(value: &JsonValue) -> (r: Result<Self, ConversionError>) {
        match value {
            JsonValue::Text(s) => Ok(s.clone()),
            _ => Err(ConversionError::new("expected a JSON string for STRING")),
        }
    }

    fn to_param(&self) -> (r: JsonValue) {
        JsonValue::Text(self.clone())
    }

    proof fn lemma_round_trip(&self) {
    }
}

// ---------------------------------------------------------------------------
// Optional codec
// ---------------------------------------------------------------------------

impl<T: ConvertBigQueryParams> ConvertBigQueryParams for Option<T> {
    /// A present value must not encode to the JSON null, which is reserved
    /// for the absent case.
    open spec fn param_wf(&self) -> bool {
        match self {
            Some(v) => v.param_wf() && v.spec_to_param() != JsonVal::Null,
            None => true,
        }
    }

    open spec fn spec_to_param(&self) -> JsonVal {
        match self {
            Some(v) => v.spec_to_param(),
            None => JsonVal::Null,
        }
    }

    open spec fn spec_from_param(v: JsonVal) -> Option<Option<<T as DeepView>::V>> {
        if v is Null {
            Some(None)
        } else {
            match T::spec_from_param(v) {
                Some(x) => Some(Some(x)),
                None => None,
            }
        }
    }

    fn from_param(value: &JsonValue) -> (r: Result<Self, ConversionError>) {
        match value {
            JsonValue::Null => Ok(None),
            _ => match T::from_param(value) {
                Ok(v) => Ok(Some(v)),
                Err(e) => Err(e),
            },
        }
    }

    fn to_param(&self) -> (r: JsonValue) {
        match self {
            Some(v) => v.to_param(),
            None => JsonValue::Null,
        }
    }

    proof fn lemma_round_trip(&self) {
        match self {
            Some(v) => {
                v.lemma_round_trip();
            },
            None => {
            },
        }
    }
}

// ---------------------------------------------------------------------------
// Normalization laws
// ---------------------------------------------------------------------------

/// Encoding a decoded 64-bit integer collapses the wire value to the JSON
/// number it denoted, whether it arrived as a number or a decimal string.
pub proof fn lemma_int64_normalize(x: i64, j: JsonVal)
    requires
        <i64 as ConvertBigQueryParams>::spec_from_param(j) == Some(x),
    ensures
        x.spec_to_param() == JsonVal::Integer(spec_int64_from_param(j)->Some_0),
{
}

/// Encoding a decoded 32-bit integer collapses the wire value likewise.
pub proof fn lemma_int32_normalize(x: i32, j: JsonVal)
    requires
        <i32 as ConvertBigQueryParams>::spec_from_param(j) == Some(x),
    ensures
        x.spec_to_param() == JsonVal::Integer(spec_int64_from_param(j)->Some_0),
{
}

/// Encoding a decoded boolean collapses every accepted spelling to the
/// canonical `TRUE` or `FALSE`.
pub proof fn lemma_bool_normalize(x: bool, j: JsonVal)
    requires
        <bool as ConvertBigQueryParams>::spec_from_param(j) == Some(x),
    ensures
        x.spec_to_param() == JsonVal::Text(
            if x {
                "TRUE"@
            } else {
                "FALSE"@
            },
        ),
        x ==> (j == JsonVal::Text("TRUE"@) || j == JsonVal::Text("true"@)),
        !x ==> (j == JsonVal::Text("FALSE"@) || j == JsonVal::Text("false"@)),
{
    match j {
        JsonVal::Text(s) => {
        },
        _ => {
        },
    }
}

/// Encoding a decoded string gives back exactly the wire value.
pub proof fn lemma_string_normalize(x: String, j: JsonVal)
    requires
        <String as ConvertBigQueryParams>::spec_from_param(j) == Some(x@),
    ensures
        x.spec_to_param() == j,
{
}

// ---------------------------------------------------------------------------
// Warehouse type names
// ---------------------------------------------------------------------------

impl ConvertTypeToBigQueryType for bool {
    open spec fn spec_bigquery_type() -> Seq<char> {
        "BOOL"@
    }

    fn convert_type_to_bigquery_type() -> (r: String) {
        String::from_str("BOOL")
    }
}

impl ConvertTypeToBigQueryType for i32 {
    open spec fn spec_bigquery_type() -> Seq<char> {
        "INT64"@
    }

    fn convert_type_to_bigquery_type() -> (r: String) {
        String::from_str("INT64")
    }
}

impl ConvertTypeToBigQueryType for i64 {
    open spec fn spec_bigquery_type() -> Seq<char> {
        "INT64"@
    }

    fn convert_type_to_bigquery_type() -> (r: String) {
        String::from_str("INT64")
    }
}

impl ConvertTypeToBigQueryType for u64 {
    open spec fn spec_bigquery_type() -> Seq<char> {
        "INT64"@
    }

    fn convert_type_to_bigquery_type() -> (r: String) {
        String::from_str("INT64")
    }
}

impl ConvertTypeToBigQueryType for String {
    open spec fn spec_bigquery_type() -> Seq<char> {
        "STRING"@
    }

    fn convert_type_to_bigquery_type() -> (r: String) {
        String::from_str("STRING")
    }
}

impl ConvertTypeToBigQueryType for &str {
    open spec fn spec_bigquery_type() -> Seq<char> {
        "STRING"@
    }

    fn convert_type_to_bigquery_type() -> (r: String) {
        String::from_str("STRING")
    }
}

/// An optional column has the warehouse type of its element.
impl<T: ConvertTypeToBigQueryType> ConvertTypeToBigQueryType for Option<T> {
    open spec fn spec_bigquery_type() -> Seq<char> {
        T::spec_bigquery_type()
    }

    fn convert_type_to_bigquery_type() -> (r: String) {
        T::convert_type_to_bigquery_type()
    }
}

} // verus!
