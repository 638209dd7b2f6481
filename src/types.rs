use crate::value::DataType;
use vstd::prelude::*;

verus! {

/// The result of `str::to_lowercase` on a text.
pub uninterp spec fn lower_of(s: Seq<char>) -> Seq<char>;

/// Relies on `str::to_lowercase`: its result depends on the characters of
/// its argument alone.
#[verifier::external_body]
fn lowercase(s: &str) -> (r: String)
    ensures
        r@ == lower_of(s@),
{
    s.to_lowercase()
}

/// The column type that a lower-case type name stands for.
pub open spec fn type_for_name(s: Seq<char>) -> Option<DataType> {
    if s == "string"@ {
        Some(DataType::Utf8)
    } else if s == "integer"@ {
        Some(DataType::Int32)
    } else if s == "integer64"@ {
        Some(DataType::Int64)
    } else if s == "float"@ {
        Some(DataType::Float32)
    } else if s == "float64"@ {
        Some(DataType::Float64)
    } else if s == "boolean"@ {
        Some(DataType::Boolean)
    } else {
        None
    }
}

/// The column type that a lower-case type name stands for, if any.
pub fn type_for_lowercase_name(s: &str) -> (r: Option<DataType>)
    ensures
        r == type_for_name(s@),
{
    let key = s.to_owned();
    if key == "string".to_owned() {
        Some(DataType::Utf8)
    } else if key == "integer".to_owned() {
        Some(DataType::Int32)
    } else if key == "integer64".to_owned() {
        Some(DataType::Int64)
    } else if key == "float".to_owned() {
        Some(DataType::Float32)
    } else if key == "float64".to_owned() {
        Some(DataType::Float64)
    } else if key == "boolean".to_owned() {
        Some(DataType::Boolean)
    } else {
        None
    }
}

/// The column type that a type name stands for, in any letter case.
pub fn parse_type_name(s: &str) -> (r: Option<DataType>)
    ensures
        r == type_for_name(lower_of(s@)),
{
    let lowered = lowercase(s);
    type_for_lowercase_name(lowered.as_str())
}

} // verus!
