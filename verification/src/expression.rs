//! The expression walker: substitution in value and boolean expressions.

use vstd::prelude::*;
use crate::ast::{BooleanExpression, ValueExpression};
use crate::coerce::resolve_parameter;
use crate::error::SubstitutionError;
use crate::model::{
    argument_outcomes, boolean_failure, boolean_interrupted, boolean_substituted, first_failure,
    lemma_first_failure_at, lemma_first_failure_none, value_failure, value_interrupted,
    value_outcomes, value_substituted, values_interrupted, values_substituted,
};
use crate::params::ParameterMap;

verus! {

/// Replaces every parameter reference in `expr`, operands and arguments from
/// left to right, and stops at the first failure.
pub fn substitute_in_value_expression(expr: &mut ValueExpression, parameters: &ParameterMap) -> (r:
    Result<(), SubstitutionError>)
    ensures
        match r {
            Ok(()) => value_failure(*old(expr), parameters@) is None && value_substituted(
                *old(expr),
                *final(expr),
                parameters@,
            ),
            Err(e) => value_failure(*old(expr), parameters@) == Some(e@) && value_interrupted(
                *old(expr),
                *final(expr),
                parameters@,
            ),
        },
    decreases *old(expr),
{
    match expr {
        ValueExpression::Parameter(name) => {
            match resolve_parameter(name.as_str(), parameters) {
                Ok(replacement) => {
                    *expr = replacement;
                },
                Err(e) => {
                    return Err(e);
                },
            }
        },
        ValueExpression::ScalarFunction { args, .. } => {
            proof {
                assert(argument_outcomes(*old(expr), parameters@) =~= value_outcomes(
                    args@,
                    parameters@,
                ));
            }
            if let Err(e) = substitute_in_value_list(args, parameters) {
                return Err(e);
            }
        },
        ValueExpression::AggregateFunction { args, .. } => {
            proof {
                assert(argument_outcomes(*old(expr), parameters@) =~= value_outcomes(
                    args@,
                    parameters@,
                ));
            }
            if let Err(e) = substitute_in_value_list(args, parameters) {
                return Err(e);
            }
        },
        ValueExpression::Arithmetic { left, right, .. } => {
            if let Err(e) = substitute_in_value_expression(left, parameters) {
                return Err(e);
            }
            if let Err(e) = substitute_in_value_expression(right, parameters) {
                return Err(e);
            }
        },
        ValueExpression::VectorDistance { left, right, .. } => {
            if let Err(e) = substitute_in_value_expression(left, parameters) {
                return Err(e);
            }
            if let Err(e) = substitute_in_value_expression(right, parameters) {
                return Err(e);
            }
        },
        ValueExpression::VectorSimilarity { left, right, .. } => {
            if let Err(e) = substitute_in_value_expression(left, parameters) {
                return Err(e);
            }
            if let Err(e) = substitute_in_value_expression(right, parameters) {
                return Err(e);
            }
        },
        _ => {},
    }
    Ok(())
}

/// Substitutes in each expression of a list, in order, and stops at the first
/// failure. The list keeps its length and its order.
pub fn substitute_in_value_list(items: &mut Vec<ValueExpression>, parameters: &ParameterMap) -> (r:
    Result<(), SubstitutionError>)
    ensures
        match r {
            Ok(()) => first_failure(value_outcomes(old(items)@, parameters@)) is None
                && values_substituted(old(items)@, final(items)@, parameters@),
            Err(e) => first_failure(value_outcomes(old(items)@, parameters@)) == Some(e@)
                && values_interrupted(old(items)@, final(items)@, parameters@),
        },
    decreases *old(items),
{
    let ghost outcomes = value_outcomes(old(items)@, parameters@);
    let mut i: usize = 0;
    while i < items.len()
        invariant
            i <= items.len(),
            items.len() == old(items).len(),
            outcomes == value_outcomes(old(items)@, parameters@),
            forall|j: int| 0 <= j < i ==> outcomes[j] is None,
            forall|j: int|
                0 <= j < i ==> value_substituted(old(items)@[j], #[trigger] items@[j], parameters@),
            forall|j: int| i <= j < items.len() ==> items@[j] == old(items)@[j],
        decreases items.len() - i,
    {
        match substitute_in_value_expression(&mut items[i], parameters) {
            Ok(()) => {},
            Err(e) => {
                proof {
                    lemma_first_failure_at(outcomes, i as int);
                    assert(value_interrupted(old(items)@[i as int], items@[i as int], parameters@));
                }
                return Err(e);
            },
        }
        i += 1;
    }
    proof {
        lemma_first_failure_none(outcomes);
    }
    Ok(())
}

/// Replaces every parameter reference in `expr`, operands from left to right,
/// and stops at the first failure. An existence test holds no expression and
/// stays as it is.
pub fn substitute_in_boolean_expression(expr: &mut BooleanExpression, parameters: &ParameterMap) -> (r:
    Result<(), SubstitutionError>)
    ensures
        match r {
            Ok(()) => boolean_failure(*old(expr), parameters@) is None && boolean_substituted(
                *old(expr),
                *final(expr),
                parameters@,
            ),
            Err(e) => boolean_failure(*old(expr), parameters@) == Some(e@) && boolean_interrupted(
                *old(expr),
                *final(expr),
                parameters@,
            ),
        },
    decreases *old(expr),
{
    match expr {
        BooleanExpression::Comparison { left, right, .. } => {
            if let Err(e) = substitute_in_value_expression(left, parameters) {
                return Err(e);
            }
            if let Err(e) = substitute_in_value_expression(right, parameters) {
                return Err(e);
            }
        },
        BooleanExpression::And(left, right) => {
            if let Err(e) = substitute_in_boolean_expression(left, parameters) {
                return Err(e);
            }
            if let Err(e) = substitute_in_boolean_expression(right, parameters) {
                return Err(e);
            }
        },
        BooleanExpression::Or(left, right) => {
            if let Err(e) = substitute_in_boolean_expression(left, parameters) {
                return Err(e);
            }
            if let Err(e) = substitute_in_boolean_expression(right, parameters) {
                return Err(e);
            }
        },
        BooleanExpression::Not(inner) => {
            if let Err(e) = substitute_in_boolean_expression(inner, parameters) {
                return Err(e);
            }
        },
        BooleanExpression::Exists(_) => {},
        BooleanExpression::In { expression, list } => {
            if let Err(e) = substitute_in_value_expression(expression, parameters) {
                return Err(e);
            }
            if let Err(e) = substitute_in_value_list(list, parameters) {
                return Err(e);
            }
        },
        BooleanExpression::Like { expression, .. } => {
            if let Err(e) = substitute_in_value_expression(expression, parameters) {
                return Err(e);
            }
        },
        BooleanExpression::ILike { expression, .. } => {
            if let Err(e) = substitute_in_value_expression(expression, parameters) {
                return Err(e);
            }
        },
        BooleanExpression::Contains { expression, .. } => {
            if let Err(e) = substitute_in_value_expression(expression, parameters) {
                return Err(e);
            }
        },
        BooleanExpression::StartsWith { expression, .. } => {
            if let Err(e) = substitute_in_value_expression(expression, parameters) {
                return Err(e);
            }
        },
        BooleanExpression::EndsWith { expression, .. } => {
            if let Err(e) = substitute_in_value_expression(expression, parameters) {
                return Err(e);
            }
        },
        BooleanExpression::IsNull(expression) => {
            if let Err(e) = substitute_in_value_expression(expression, parameters) {
                return Err(e);
            }
        },
        BooleanExpression::IsNotNull(expression) => {
            if let Err(e) = substitute_in_value_expression(expression, parameters) {
                return Err(e);
            }
        },
    }
    Ok(())
}

} // verus!
