//! The value coercer: from a dynamic value to the literal that stands for it.

use vstd::prelude::*;
use crate::ast::{PropertyValue, ValueExpression};
use crate::error::{ErrorKind, SubstitutionError};
use crate::json::{
    as_array, as_bool, as_double_bits, as_i64, as_str, is_null, is_number, json_content,
};
use crate::model::{
    all_numeric, element_bits, failure, parameter_failure, parameter_replaced, scalar_literal,
    scalar_parameter_failure, vector_bits,
};
use crate::params::ParameterMap;

verus! {

/// The failure of the given kind for the parameter `name`.
pub fn fail(kind: ErrorKind, name: &str) -> (e: SubstitutionError)
    ensures
        e@ == failure(kind, name@),
{
    SubstitutionError { kind, parameter: name.to_owned() }
}

/// The literal for a scalar value: null, a boolean, an integer, a double or a
/// string. An array or an object has none.
pub fn json_to_property_value(value: &serde_json::Value) -> (r: Option<PropertyValue>)
    ensures
        match r {
            Some(literal) => scalar_literal(json_content(*value)) == Some(literal@),
            None => scalar_literal(json_content(*value)) is None,
        },
{
    if is_null(value) {
        return Some(PropertyValue::Null);
    }
    if let Some(b) = as_bool(value) {
        return Some(PropertyValue::Boolean(b));
    }
    if is_number(value) {
        if let Some(i) = as_i64(value) {
            return Some(PropertyValue::Integer(i));
        }
        if let Some(bits) = as_double_bits(value) {
            return Some(PropertyValue::Float(bits));
        }
        return Some(PropertyValue::Null);
    }
    if let Some(s) = as_str(value) {
        return Some(PropertyValue::String(s.to_owned()));
    }
    None
}

/// The vector for an array of numbers, element by element and in order; fails
/// where an element is no number.
pub fn json_array_to_vector(name: &str, items: &Vec<serde_json::Value>) -> (r: Result<
    Vec<u64>,
    SubstitutionError,
>)
    ensures
        match r {
            Ok(bits) => all_numeric(items@) && bits@ == vector_bits(items@),
            Err(e) => !all_numeric(items@) && e@ == failure(ErrorKind::InvalidListParameter, name@),
        },
{
    let mut bits: Vec<u64> = Vec::new();
    let mut i: usize = 0;
    while i < items.len()
        invariant
            i <= items.len(),
            bits.len() == i,
            forall|j: int| 0 <= j < i ==> element_bits(items@[j]) == Some(#[trigger] bits@[j]),
        decreases items.len() - i,
    {
        match as_double_bits(&items[i]) {
            Some(d) => {
                bits.push(d);
            },
            None => {
                assert(element_bits(items@[i as int]) is None);
                return Err(fail(ErrorKind::InvalidListParameter, name));
            },
        }
        i += 1;
    }
    proof {
        assert forall|j: int| 0 <= j < items@.len() implies (#[trigger] element_bits(items@[j])) is Some by {
            assert(element_bits(items@[j]) == Some(bits@[j]));
        }
        assert(bits@ =~= vector_bits(items@));
    }
    Ok(bits)
}

/// The literal that replaces a reference to `name` in a property: the scalar
/// that the map binds to it.
pub fn resolve_property_parameter(name: &str, parameters: &ParameterMap) -> (r: Result<
    PropertyValue,
    SubstitutionError,
>)
    ensures
        match r {
            Ok(literal) => scalar_parameter_failure(name@, parameters@) is None
                && parameters@.contains_key(name@) && scalar_literal(
                json_content(parameters@[name@]),
            ) == Some(literal@),
            Err(e) => scalar_parameter_failure(name@, parameters@) == Some(e@),
        },
{
    match parameters.get(name) {
        None => Err(fail(ErrorKind::MissingParameter, name)),
        Some(value) => match json_to_property_value(value) {
            Some(literal) => Ok(literal),
            None => Err(fail(ErrorKind::UnsupportedComplexParameter, name)),
        },
    }
}

/// The expression that replaces a reference to `name`: a vector for an array
/// of numbers, a literal for a scalar.
pub fn resolve_parameter(name: &str, parameters: &ParameterMap) -> (r: Result<
    ValueExpression,
    SubstitutionError,
>)
    ensures
        match r {
            Ok(replacement) => parameter_failure(name@, parameters@) is None && parameter_replaced(
                name@,
                replacement,
                parameters@,
            ),
            Err(e) => parameter_failure(name@, parameters@) == Some(e@),
        },
{
    match parameters.get(name) {
        None => Err(fail(ErrorKind::MissingParameter, name)),
        Some(value) => {
            if let Some(items) = as_array(value) {
                match json_array_to_vector(name, items) {
                    Ok(bits) => Ok(ValueExpression::VectorLiteral(bits)),
                    Err(e) => Err(e),
                }
            } else {
                match json_to_property_value(value) {
                    Some(literal) => Ok(ValueExpression::Literal(literal)),
                    None => Err(fail(ErrorKind::UnsupportedComplexParameter, name)),
                }
            }
        },
    }
}

} // verus!
