//! The values that the `toml` crate reads.

use toml::Value;
use vstd::prelude::*;
use vstd::string::*;

verus! {

/// A TOML value.
#[verifier::external_type_specification]
#[verifier::external_body]
pub struct ExValue(toml::Value);

/// What a TOML document holds, or what is wrong with it.
pub uninterp spec fn toml_outcome(document: Seq<char>) -> Result<Value, Seq<char>>;

/// `toml::from_str` for a `toml::Value`. What comes out depends on the document alone; an error is
/// given by its `Display` text.
#[verifier::external_body]
pub(crate) fn parse_toml(document: &str) -> (value: Result<Value, String>)
    ensures
        match (value, toml_outcome(document@)) {
            (Ok(value), Ok(expected)) => value == expected,
            (Err(text), Err(expected)) => text@ == expected,
            _ => false,
        },
{
    toml::from_str::<Value>(document).map_err(|error| error.to_string())
}

/// `Value::clone`: the copy is the same value.
pub assume_specification[ <toml::Value as Clone>::clone ](value: &toml::Value) -> (copy: toml::Value)
    ensures
        copy == *value,
;

} // verus!
