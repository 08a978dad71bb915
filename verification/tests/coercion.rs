use parameter_substitution::ast::{PropertyValue, ValueExpression};
use parameter_substitution::clause::substitute_in_property_value;
use parameter_substitution::coerce::{
    fail, json_array_to_vector, json_to_property_value, resolve_parameter,
    resolve_property_parameter,
};
use parameter_substitution::error::{ErrorKind, SubstitutionError};
use parameter_substitution::expression::substitute_in_value_expression;
use parameter_substitution::params::ParameterMap;
use serde_json::Value;

fn bind(name: &str, value: Value) -> ParameterMap {
    let mut parameters = ParameterMap::new();
    parameters.insert(name.to_string(), value);
    parameters
}

fn substituted(name: &str, value: Value) -> Result<ValueExpression, SubstitutionError> {
    let parameters = bind(name, value);
    let mut expr = ValueExpression::Parameter(name.to_string());
    substitute_in_value_expression(&mut expr, &parameters).map(|()| expr)
}

#[test]
fn boolean_parameter_becomes_boolean_literal() {
    assert_eq!(
        substituted("p", Value::Bool(true)),
        Ok(ValueExpression::Literal(PropertyValue::Boolean(true)))
    );
}

#[test]
fn integer_parameter_becomes_integer_literal() {
    assert_eq!(
        substituted("p", Value::from(42)),
        Ok(ValueExpression::Literal(PropertyValue::Integer(42)))
    );
}

#[test]
fn negative_integer_parameter_becomes_integer_literal() {
    assert_eq!(
        substituted("p", Value::from(-7)),
        Ok(ValueExpression::Literal(PropertyValue::Integer(-7)))
    );
}

#[test]
fn float_parameter_becomes_float_literal() {
    assert_eq!(
        substituted("p", Value::from(3.14)),
        Ok(ValueExpression::Literal(PropertyValue::Float(3.14f64.to_bits())))
    );
}

#[test]
fn string_parameter_becomes_string_literal() {
    assert_eq!(
        substituted("p", Value::String("hi".to_string())),
        Ok(ValueExpression::Literal(PropertyValue::String("hi".to_string())))
    );
}

#[test]
fn null_parameter_becomes_null_literal() {
    assert_eq!(substituted("p", Value::Null), Ok(ValueExpression::Literal(PropertyValue::Null)));
}

#[test]
fn integer_beyond_signed_range_becomes_float_literal() {
    let big = u64::MAX;
    assert_eq!(
        substituted("p", Value::from(big)),
        Ok(ValueExpression::Literal(PropertyValue::Float((big as f64).to_bits())))
    );
}

#[test]
fn largest_signed_integer_stays_an_integer() {
    assert_eq!(
        substituted("p", Value::from(i64::MAX)),
        Ok(ValueExpression::Literal(PropertyValue::Integer(i64::MAX)))
    );
}

#[test]
fn numeric_array_becomes_vector_literal() {
    let array = Value::Array(vec![Value::from(1), Value::from(2.5), Value::from(3)]);
    assert_eq!(
        substituted("v", array),
        Ok(ValueExpression::VectorLiteral(vec![
            1.0f64.to_bits(),
            2.5f64.to_bits(),
            3.0f64.to_bits()
        ]))
    );
}

#[test]
fn vector_literal_narrows_to_single_precision() {
    let array = Value::Array(vec![Value::from(1), Value::from(2.5), Value::from(3)]);
    match substituted("v", array) {
        Ok(ValueExpression::VectorLiteral(bits)) => {
            let floats: Vec<f32> = bits.iter().map(|b| f64::from_bits(*b) as f32).collect();
            assert_eq!(floats, vec![1.0f32, 2.5f32, 3.0f32]);
        }
        other => panic!("expected a vector literal, got {:?}", other),
    }
}

#[test]
fn empty_array_becomes_empty_vector_literal() {
    assert_eq!(substituted("v", Value::Array(vec![])), Ok(ValueExpression::VectorLiteral(vec![])));
}

#[test]
fn mixed_array_is_an_invalid_list() {
    let array = Value::Array(vec![Value::from(1), Value::String("a".to_string())]);
    assert_eq!(
        substituted("v", array),
        Err(SubstitutionError { kind: ErrorKind::InvalidListParameter, parameter: "v".to_string() })
    );
}

#[test]
fn nested_array_is_an_invalid_list() {
    let array = Value::Array(vec![Value::Array(vec![Value::from(1)])]);
    assert_eq!(
        substituted("v", array),
        Err(SubstitutionError { kind: ErrorKind::InvalidListParameter, parameter: "v".to_string() })
    );
}

#[test]
fn object_parameter_is_unsupported_in_an_expression() {
    assert_eq!(
        substituted("o", Value::Object(serde_json::Map::new())),
        Err(SubstitutionError {
            kind: ErrorKind::UnsupportedComplexParameter,
            parameter: "o".to_string()
        })
    );
}

#[test]
fn missing_parameter_is_reported_by_name() {
    let parameters = bind("y", Value::from(1));
    let mut expr = ValueExpression::Parameter("x".to_string());
    assert_eq!(
        substitute_in_value_expression(&mut expr, &parameters),
        Err(SubstitutionError { kind: ErrorKind::MissingParameter, parameter: "x".to_string() })
    );
}

#[test]
fn property_array_is_rejected() {
    let array = Value::Array(vec![Value::from(1), Value::from(2), Value::from(3)]);
    let parameters = bind("v", array);
    let mut value = PropertyValue::Parameter("v".to_string());
    assert_eq!(
        substitute_in_property_value(&mut value, &parameters),
        Err(SubstitutionError {
            kind: ErrorKind::UnsupportedComplexParameter,
            parameter: "v".to_string()
        })
    );
}

#[test]
fn property_object_is_rejected() {
    let parameters = bind("o", Value::Object(serde_json::Map::new()));
    let mut value = PropertyValue::Parameter("o".to_string());
    assert_eq!(
        substitute_in_property_value(&mut value, &parameters),
        Err(SubstitutionError {
            kind: ErrorKind::UnsupportedComplexParameter,
            parameter: "o".to_string()
        })
    );
}

#[test]
fn property_scalars_are_substituted() {
    let mut parameters = ParameterMap::new();
    parameters.insert("b".to_string(), Value::Bool(false));
    parameters.insert("i".to_string(), Value::from(42));
    parameters.insert("f".to_string(), Value::from(0.5));
    parameters.insert("s".to_string(), Value::String("hi".to_string()));
    parameters.insert("n".to_string(), Value::Null);
    let cases = vec![
        ("b", PropertyValue::Boolean(false)),
        ("i", PropertyValue::Integer(42)),
        ("f", PropertyValue::Float(0.5f64.to_bits())),
        ("s", PropertyValue::String("hi".to_string())),
        ("n", PropertyValue::Null),
    ];
    for (name, expected) in cases {
        let mut value = PropertyValue::Parameter(name.to_string());
        assert_eq!(substitute_in_property_value(&mut value, &parameters), Ok(()));
        assert_eq!(value, expected);
    }
}

#[test]
fn property_missing_parameter_is_reported() {
    let parameters = ParameterMap::new();
    let mut value = PropertyValue::Parameter("x".to_string());
    assert_eq!(
        substitute_in_property_value(&mut value, &parameters),
        Err(SubstitutionError { kind: ErrorKind::MissingParameter, parameter: "x".to_string() })
    );
    assert_eq!(value, PropertyValue::Parameter("x".to_string()));
}

#[test]
fn property_without_parameter_is_kept() {
    let parameters = bind("x", Value::from(1));
    let mut value = PropertyValue::String("x".to_string());
    assert_eq!(substitute_in_property_value(&mut value, &parameters), Ok(()));
    assert_eq!(value, PropertyValue::String("x".to_string()));
}

#[test]
fn scalar_literals_of_values() {
    assert_eq!(json_to_property_value(&Value::Null), Some(PropertyValue::Null));
    assert_eq!(json_to_property_value(&Value::Bool(true)), Some(PropertyValue::Boolean(true)));
    assert_eq!(json_to_property_value(&Value::from(42)), Some(PropertyValue::Integer(42)));
    assert_eq!(
        json_to_property_value(&Value::from(3.14)),
        Some(PropertyValue::Float(3.14f64.to_bits()))
    );
    assert_eq!(
        json_to_property_value(&Value::String("hi".to_string())),
        Some(PropertyValue::String("hi".to_string()))
    );
    assert_eq!(json_to_property_value(&Value::Array(vec![])), None);
    assert_eq!(json_to_property_value(&Value::Object(serde_json::Map::new())), None);
}

#[test]
fn vector_of_an_array_keeps_order() {
    let items = vec![Value::from(3), Value::from(-1.5), Value::from(0)];
    assert_eq!(
        json_array_to_vector("v", &items),
        Ok(vec![3.0f64.to_bits(), (-1.5f64).to_bits(), 0.0f64.to_bits()])
    );
}

#[test]
fn vector_of_an_array_with_a_boolean_fails() {
    let items = vec![Value::from(3), Value::Bool(true)];
    assert_eq!(json_array_to_vector("v", &items), Err(fail(ErrorKind::InvalidListParameter, "v")));
}

#[test]
fn resolving_a_name_in_both_positions() {
    let array = Value::Array(vec![Value::from(1)]);
    let parameters = bind("v", array);
    assert_eq!(
        resolve_parameter("v", &parameters),
        Ok(ValueExpression::VectorLiteral(vec![1.0f64.to_bits()]))
    );
    assert_eq!(
        resolve_property_parameter("v", &parameters),
        Err(fail(ErrorKind::UnsupportedComplexParameter, "v"))
    );
    assert_eq!(
        resolve_parameter("w", &parameters),
        Err(fail(ErrorKind::MissingParameter, "w"))
    );
    assert_eq!(
        resolve_property_parameter("w", &parameters),
        Err(fail(ErrorKind::MissingParameter, "w"))
    );
}

#[test]
fn parameter_map_binds_and_replaces() {
    let mut parameters = ParameterMap::new();
    assert!(!parameters.contains("a"));
    assert_eq!(parameters.get("a"), None);
    parameters.insert("a".to_string(), Value::from(1));
    assert!(parameters.contains("a"));
    assert_eq!(parameters.get("a"), Some(&Value::from(1)));
    parameters.insert("a".to_string(), Value::from(2));
    assert_eq!(parameters.get("a"), Some(&Value::from(2)));
    assert!(!parameters.contains("b"));
}

#[test]
fn float_with_integral_value_stays_a_float() {
    assert_eq!(
        substituted("p", Value::from(42.0)),
        Ok(ValueExpression::Literal(PropertyValue::Float(42.0f64.to_bits())))
    );
    assert_eq!(
        json_to_property_value(&Value::from(42.0)),
        Some(PropertyValue::Float(42.0f64.to_bits()))
    );
}

#[test]
fn failing_reference_is_still_the_reference() {
    let cases = vec![
        ("x", Value::Null, "y", ErrorKind::MissingParameter),
        (
            "v",
            Value::Array(vec![Value::from(1), Value::String("a".to_string())]),
            "v",
            ErrorKind::InvalidListParameter,
        ),
        ("m", Value::Object(serde_json::Map::new()), "m", ErrorKind::UnsupportedComplexParameter),
    ];
    for (bound, value, referred, kind) in cases {
        let parameters = bind(bound, value);
        let mut expr = ValueExpression::Parameter(referred.to_string());
        let expected = if kind == ErrorKind::MissingParameter { "y" } else { referred };
        assert_eq!(
            substitute_in_value_expression(&mut expr, &parameters),
            Err(SubstitutionError { kind, parameter: expected.to_string() })
        );
        assert_eq!(expr, ValueExpression::Parameter(referred.to_string()));
    }
}
