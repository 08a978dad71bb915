//! What substitution means: for each kind of tree, the failure that is reported
//! first, and the relation between a tree and the tree that replaces it.

use vstd::prelude::*;
use crate::ast::{BooleanExpression, PropertyValue, PropertyValueView, ValueExpression};
use crate::error::{ErrorKind, Failure};
use crate::json::{json_content, JsonContent};

verus! {

/// The first failure of a sequence of outcomes, if any failed.
pub open spec fn first_failure(outcomes: Seq<Option<Failure>>) -> Option<Failure>
    decreases outcomes.len(),
{
    if outcomes.len() == 0 {
        None
    } else if outcomes[0] is Some {
        outcomes[0]
    } else {
        first_failure(outcomes.drop_first())
    }
}

/// The first of two outcomes that failed.
pub open spec fn then_failure(first: Option<Failure>, second: Option<Failure>) -> Option<Failure> {
    if first is Some {
        first
    } else {
        second
    }
}

/// Where every outcome before `i` succeeded and the one at `i` failed, that
/// failure is the first.
pub proof fn lemma_first_failure_at(outcomes: Seq<Option<Failure>>, i: int)
    requires
        0 <= i < outcomes.len(),
        forall|j: int| 0 <= j < i ==> outcomes[j] is None,
        outcomes[i] is Some,
    ensures
        first_failure(outcomes) == outcomes[i],
    decreases i,
{
    if i > 0 {
        lemma_first_failure_at(outcomes.drop_first(), i - 1);
    }
}

/// No failure is reported exactly when every outcome succeeded.
pub proof fn lemma_first_failure_none(outcomes: Seq<Option<Failure>>)
    ensures
        first_failure(outcomes) is None <==> (forall|j: int| 0 <= j < outcomes.len() ==> outcomes[j] is None),
    decreases outcomes.len(),
{
    if outcomes.len() > 0 {
        let rest = outcomes.drop_first();
        lemma_first_failure_none(rest);
        if first_failure(outcomes) is None {
            assert forall|j: int| 0 <= j < outcomes.len() implies outcomes[j] is None by {
                if j > 0 {
                    assert(rest[j - 1] is None);
                }
            }
        }
        if forall|j: int| 0 <= j < outcomes.len() ==> outcomes[j] is None {
            assert forall|j: int| 0 <= j < rest.len() implies rest[j] is None by {
                assert(outcomes[j + 1] is None);
            }
        }
    }
}

/// The literal that stands for a scalar value; nothing for an array or an
/// object. A number is an integer where it is one within the signed 64-bit
/// range, else a double, else the null literal.
pub open spec fn scalar_literal(content: JsonContent) -> Option<PropertyValueView> {
    match content {
        JsonContent::Null => Some(PropertyValueView::Null),
        JsonContent::Bool(b) => Some(PropertyValueView::Boolean(b)),
        JsonContent::Number { integer, double } => Some(
            match integer {
                Some(i) => PropertyValueView::Integer(i),
                None => match double {
                    Some(bits) => PropertyValueView::Float(bits),
                    None => PropertyValueView::Null,
                },
            },
        ),
        JsonContent::String(s) => Some(PropertyValueView::String(s)),
        JsonContent::Array(_) => None,
        JsonContent::Object => None,
    }
}

/// The double that stands for an element of a vector; nothing where the
/// element is no number.
pub open spec fn element_bits(element: serde_json::Value) -> Option<u64> {
    match json_content(element) {
        JsonContent::Number { double, .. } => double,
        _ => None,
    }
}

/// Whether every element of an array is a number.
pub open spec fn all_numeric(items: Seq<serde_json::Value>) -> bool {
    forall|i: int| 0 <= i < items.len() ==> (#[trigger] element_bits(items[i])) is Some
}

/// The elements of a numeric array as doubles, in their order.
pub open spec fn vector_bits(items: Seq<serde_json::Value>) -> Seq<u64> {
    Seq::new(items.len(), |i: int| element_bits(items[i]).unwrap())
}

pub open spec fn failure(kind: ErrorKind, parameter: Seq<char>) -> Failure {
    Failure { kind, parameter }
}

/// The outcome of looking up `name` for a property: a scalar is required.
pub open spec fn scalar_parameter_failure(
    name: Seq<char>,
    bindings: Map<Seq<char>, serde_json::Value>,
) -> Option<Failure> {
    if !bindings.contains_key(name) {
        Some(failure(ErrorKind::MissingParameter, name))
    } else if scalar_literal(json_content(bindings[name])) is None {
        Some(failure(ErrorKind::UnsupportedComplexParameter, name))
    } else {
        None
    }
}

/// The outcome of looking up `name` in an expression: a scalar or an array of
/// numbers is required.
pub open spec fn parameter_failure(
    name: Seq<char>,
    bindings: Map<Seq<char>, serde_json::Value>,
) -> Option<Failure> {
    if !bindings.contains_key(name) {
        Some(failure(ErrorKind::MissingParameter, name))
    } else {
        match json_content(bindings[name]) {
            JsonContent::Array(items) => if all_numeric(items) {
                None
            } else {
                Some(failure(ErrorKind::InvalidListParameter, name))
            },
            JsonContent::Object => Some(failure(ErrorKind::UnsupportedComplexParameter, name)),
            _ => None,
        }
    }
}

/// Whether `after` is the expression that replaces a reference to `name`.
pub open spec fn parameter_replaced(
    name: Seq<char>,
    after: ValueExpression,
    bindings: Map<Seq<char>, serde_json::Value>,
) -> bool {
    bindings.contains_key(name) && match json_content(bindings[name]) {
        JsonContent::Array(items) => all_numeric(items) && match after {
            ValueExpression::VectorLiteral(bits) => bits@ == vector_bits(items),
            _ => false,
        },
        content => match after {
            ValueExpression::Literal(literal) => scalar_literal(content) == Some(literal@),
            _ => false,
        },
    }
}

/// The failure that substitution in a property value reports, if any.
pub open spec fn property_failure(
    value: PropertyValue,
    bindings: Map<Seq<char>, serde_json::Value>,
) -> Option<Failure> {
    match value {
        PropertyValue::Parameter(name) => scalar_parameter_failure(name@, bindings),
        _ => None,
    }
}

/// Whether `after` is what substitution makes of the property value `before`.
pub open spec fn property_substituted(
    before: PropertyValue,
    after: PropertyValue,
    bindings: Map<Seq<char>, serde_json::Value>,
) -> bool {
    match before {
        PropertyValue::Parameter(name) => bindings.contains_key(name@) && scalar_literal(
            json_content(bindings[name@]),
        ) == Some(after@),
        _ => after == before,
    }
}

/// The failure that substitution in a value expression reports, if any: the
/// first one met when the operands and arguments are visited from left to right.
pub open spec fn value_failure(
    expr: ValueExpression,
    bindings: Map<Seq<char>, serde_json::Value>,
) -> Option<Failure>
    decreases expr, 1nat,
{
    match expr {
        ValueExpression::Parameter(name) => parameter_failure(name@, bindings),
        ValueExpression::ScalarFunction { .. } => first_failure(argument_outcomes(expr, bindings)),
        ValueExpression::AggregateFunction { .. } => first_failure(
            argument_outcomes(expr, bindings),
        ),
        ValueExpression::Arithmetic { left, right, .. } => then_failure(
            value_failure(*left, bindings),
            value_failure(*right, bindings),
        ),
        ValueExpression::VectorDistance { left, right, .. } => then_failure(
            value_failure(*left, bindings),
            value_failure(*right, bindings),
        ),
        ValueExpression::VectorSimilarity { left, right, .. } => then_failure(
            value_failure(*left, bindings),
            value_failure(*right, bindings),
        ),
        _ => None,
    }
}

/// The outcomes of substitution in each argument of a function application, in
/// order; empty for any other expression.
pub open spec fn argument_outcomes(
    expr: ValueExpression,
    bindings: Map<Seq<char>, serde_json::Value>,
) -> Seq<Option<Failure>>
    decreases expr, 0nat,
{
    match expr {
        ValueExpression::ScalarFunction { args, .. } => Seq::new(
            args.len() as nat,
            |i: int|
                if 0 <= i < args.len() {
                    value_failure(args[i], bindings)
                } else {
                    None
                },
        ),
        ValueExpression::AggregateFunction { args, .. } => Seq::new(
            args.len() as nat,
            |i: int|
                if 0 <= i < args.len() {
                    value_failure(args[i], bindings)
                } else {
                    None
                },
        ),
        _ => Seq::empty(),
    }
}

/// The outcomes of substitution in each expression of a list.
pub open spec fn value_outcomes(
    items: Seq<ValueExpression>,
    bindings: Map<Seq<char>, serde_json::Value>,
) -> Seq<Option<Failure>> {
    Seq::new(items.len(), |i: int| value_failure(items[i], bindings))
}

/// Whether `after` is what substitution makes of the value expression
/// `before`: every parameter reference replaced, everything else as it was.
pub open spec fn value_substituted(
    before: ValueExpression,
    after: ValueExpression,
    bindings: Map<Seq<char>, serde_json::Value>,
) -> bool
    decreases before,
{
    match before {
        ValueExpression::Parameter(name) => parameter_replaced(name@, after, bindings),
        ValueExpression::ScalarFunction { name, args } => match after {
            ValueExpression::ScalarFunction { name: name2, args: args2 } => name2 == name
                && args2.len() == args.len() && forall|i: int|
                0 <= i < args.len() ==> value_substituted(args[i], #[trigger] args2[i], bindings),
            _ => false,
        },
        ValueExpression::AggregateFunction { name, args, distinct } => match after {
            ValueExpression::AggregateFunction { name: name2, args: args2, distinct: distinct2 } => name2
                == name && distinct2 == distinct && args2.len() == args.len() && forall|i: int|
                0 <= i < args.len() ==> value_substituted(args[i], #[trigger] args2[i], bindings),
            _ => false,
        },
        ValueExpression::Arithmetic { left, operator, right } => match after {
            ValueExpression::Arithmetic { left: left2, operator: operator2, right: right2 } => operator2
                == operator && value_substituted(*left, *left2, bindings) && value_substituted(
                *right,
                *right2,
                bindings,
            ),
            _ => false,
        },
        ValueExpression::VectorDistance { left, right, metric } => match after {
            ValueExpression::VectorDistance { left: left2, right: right2, metric: metric2 } => metric2
                == metric && value_substituted(*left, *left2, bindings) && value_substituted(
                *right,
                *right2,
                bindings,
            ),
            _ => false,
        },
        ValueExpression::VectorSimilarity { left, right, metric } => match after {
            ValueExpression::VectorSimilarity { left: left2, right: right2, metric: metric2 } => metric2
                == metric && value_substituted(*left, *left2, bindings) && value_substituted(
                *right,
                *right2,
                bindings,
            ),
            _ => false,
        },
        _ => after == before,
    }
}

/// Whether `after` is, element by element and in the same order, what
/// substitution makes of the list `before`.
pub open spec fn values_substituted(
    before: Seq<ValueExpression>,
    after: Seq<ValueExpression>,
    bindings: Map<Seq<char>, serde_json::Value>,
) -> bool {
    after.len() == before.len() && forall|i: int|
        0 <= i < before.len() ==> value_substituted(before[i], #[trigger] after[i], bindings)
}

/// The failure that substitution in a boolean expression reports, if any: the
/// first one met when the operands are visited from left to right, the probe
/// of a membership test before its candidates.
pub open spec fn boolean_failure(
    expr: BooleanExpression,
    bindings: Map<Seq<char>, serde_json::Value>,
) -> Option<Failure>
    decreases expr,
{
    match expr {
        BooleanExpression::Comparison { left, right, .. } => then_failure(
            value_failure(left, bindings),
            value_failure(right, bindings),
        ),
        BooleanExpression::And(left, right) => then_failure(
            boolean_failure(*left, bindings),
            boolean_failure(*right, bindings),
        ),
        BooleanExpression::Or(left, right) => then_failure(
            boolean_failure(*left, bindings),
            boolean_failure(*right, bindings),
        ),
        BooleanExpression::Not(inner) => boolean_failure(*inner, bindings),
        BooleanExpression::Exists(_) => None,
        BooleanExpression::In { expression, list } => then_failure(
            value_failure(expression, bindings),
            first_failure(value_outcomes(list@, bindings)),
        ),
        BooleanExpression::Like { expression, .. } => value_failure(expression, bindings),
        BooleanExpression::ILike { expression, .. } => value_failure(expression, bindings),
        BooleanExpression::Contains { expression, .. } => value_failure(expression, bindings),
        BooleanExpression::StartsWith { expression, .. } => value_failure(expression, bindings),
        BooleanExpression::EndsWith { expression, .. } => value_failure(expression, bindings),
        BooleanExpression::IsNull(expression) => value_failure(expression, bindings),
        BooleanExpression::IsNotNull(expression) => value_failure(expression, bindings),
    }
}

/// Whether `after` is what substitution makes of the boolean expression
/// `before`: every parameter reference replaced, everything else as it was.
pub open spec fn boolean_substituted(
    before: BooleanExpression,
    after: BooleanExpression,
    bindings: Map<Seq<char>, serde_json::Value>,
) -> bool
    decreases before,
{
    match before {
        BooleanExpression::Comparison { left, operator, right } => match after {
            BooleanExpression::Comparison { left: left2, operator: operator2, right: right2 } => operator2
                == operator && value_substituted(left, left2, bindings) && value_substituted(
                right,
                right2,
                bindings,
            ),
            _ => false,
        },
        BooleanExpression::And(left, right) => match after {
            BooleanExpression::And(left2, right2) => boolean_substituted(*left, *left2, bindings)
                && boolean_substituted(*right, *right2, bindings),
            _ => false,
        },
        BooleanExpression::Or(left, right) => match after {
            BooleanExpression::Or(left2, right2) => boolean_substituted(*left, *left2, bindings)
                && boolean_substituted(*right, *right2, bindings),
            _ => false,
        },
        BooleanExpression::Not(inner) => match after {
            BooleanExpression::Not(inner2) => boolean_substituted(*inner, *inner2, bindings),
            _ => false,
        },
        BooleanExpression::Exists(_) => after == before,
        BooleanExpression::In { expression, list } => match after {
            BooleanExpression::In { expression: expression2, list: list2 } => value_substituted(
                expression,
                expression2,
                bindings,
            ) && values_substituted(list@, list2@, bindings),
            _ => false,
        },
        BooleanExpression::Like { expression, pattern } => match after {
            BooleanExpression::Like { expression: expression2, pattern: pattern2 } => pattern2
                == pattern && value_substituted(expression, expression2, bindings),
            _ => false,
        },
        BooleanExpression::ILike { expression, pattern } => match after {
            BooleanExpression::ILike { expression: expression2, pattern: pattern2 } => pattern2
                == pattern && value_substituted(expression, expression2, bindings),
            _ => false,
        },
        BooleanExpression::Contains { expression, substring } => match after {
            BooleanExpression::Contains { expression: expression2, substring: substring2 } => substring2
                == substring && value_substituted(expression, expression2, bindings),
            _ => false,
        },
        BooleanExpression::StartsWith { expression, prefix } => match after {
            BooleanExpression::StartsWith { expression: expression2, prefix: prefix2 } => prefix2
                == prefix && value_substituted(expression, expression2, bindings),
            _ => false,
        },
        BooleanExpression::EndsWith { expression, suffix } => match after {
            BooleanExpression::EndsWith { expression: expression2, suffix: suffix2 } => suffix2
                == suffix && value_substituted(expression, expression2, bindings),
            _ => false,
        },
        BooleanExpression::IsNull(expression) => match after {
            BooleanExpression::IsNull(expression2) => value_substituted(
                expression,
                expression2,
                bindings,
            ),
            _ => false,
        },
        BooleanExpression::IsNotNull(expression) => match after {
            BooleanExpression::IsNotNull(expression2) => value_substituted(
                expression,
                expression2,
                bindings,
            ),
            _ => false,
        },
    }
}

/// Whether `after` is the property value `before` after a substitution that
/// failed: the reference is still there.
pub open spec fn property_interrupted(
    before: PropertyValue,
    after: PropertyValue,
    bindings: Map<Seq<char>, serde_json::Value>,
) -> bool {
    property_failure(before, bindings) is Some && after == before
}

/// Whether `after` is the value expression `before` after a substitution that
/// stopped at its first failure: what was visited before the failing
/// reference is substituted, that reference and all that follows it are as
/// they were.
pub open spec fn value_interrupted(
    before: ValueExpression,
    after: ValueExpression,
    bindings: Map<Seq<char>, serde_json::Value>,
) -> bool
    decreases before,
{
    match before {
        ValueExpression::Parameter(name) => parameter_failure(name@, bindings) is Some && after
            == before,
        ValueExpression::ScalarFunction { name, args } => match after {
            ValueExpression::ScalarFunction { name: name2, args: args2 } => name2 == name
                && args2.len() == args.len() && exists|i: int|
                0 <= i < args.len() && value_interrupted(args[i], #[trigger] args2[i], bindings) && (
                forall|j: int|
                    0 <= j < i ==> value_substituted(args[j], #[trigger] args2[j], bindings)) && (
                forall|j: int| i < j < args.len() ==> #[trigger] args2[j] == args[j]),
            _ => false,
        },
        ValueExpression::AggregateFunction { name, args, distinct } => match after {
            ValueExpression::AggregateFunction { name: name2, args: args2, distinct: distinct2 } => name2
                == name && distinct2 == distinct && args2.len() == args.len() && exists|i: int|
                0 <= i < args.len() && value_interrupted(args[i], #[trigger] args2[i], bindings) && (
                forall|j: int|
                    0 <= j < i ==> value_substituted(args[j], #[trigger] args2[j], bindings)) && (
                forall|j: int| i < j < args.len() ==> #[trigger] args2[j] == args[j]),
            _ => false,
        },
        ValueExpression::Arithmetic { left, operator, right } => match after {
            ValueExpression::Arithmetic { left: left2, operator: operator2, right: right2 } => operator2
                == operator && if value_failure(*left, bindings) is Some {
                value_interrupted(*left, *left2, bindings) && right2 == right
            } else {
                value_substituted(*left, *left2, bindings) && value_interrupted(
                    *right,
                    *right2,
                    bindings,
                )
            },
            _ => false,
        },
        ValueExpression::VectorDistance { left, right, metric } => match after {
            ValueExpression::VectorDistance { left: left2, right: right2, metric: metric2 } => metric2
                == metric && if value_failure(*left, bindings) is Some {
                value_interrupted(*left, *left2, bindings) && right2 == right
            } else {
                value_substituted(*left, *left2, bindings) && value_interrupted(
                    *right,
                    *right2,
                    bindings,
                )
            },
            _ => false,
        },
        ValueExpression::VectorSimilarity { left, right, metric } => match after {
            ValueExpression::VectorSimilarity { left: left2, right: right2, metric: metric2 } => metric2
                == metric && if value_failure(*left, bindings) is Some {
                value_interrupted(*left, *left2, bindings) && right2 == right
            } else {
                value_substituted(*left, *left2, bindings) && value_interrupted(
                    *right,
                    *right2,
                    bindings,
                )
            },
            _ => false,
        },
        _ => false,
    }
}

/// Whether `after` is the list `before` after a substitution that stopped at
/// its first failure: the expressions before the failing one are substituted,
/// that one is interrupted, those after it are as they were.
pub open spec fn values_interrupted(
    before: Seq<ValueExpression>,
    after: Seq<ValueExpression>,
    bindings: Map<Seq<char>, serde_json::Value>,
) -> bool {
    after.len() == before.len() && exists|i: int|
        0 <= i < before.len() && value_interrupted(before[i], #[trigger] after[i], bindings) && (
        forall|j: int| 0 <= j < i ==> value_substituted(before[j], #[trigger] after[j], bindings))
            && (forall|j: int| i < j < before.len() ==> #[trigger] after[j] == before[j])
}

/// Whether `after` is the boolean expression `before` after a substitution
/// that stopped at its first failure.
pub open spec fn boolean_interrupted(
    before: BooleanExpression,
    after: BooleanExpression,
    bindings: Map<Seq<char>, serde_json::Value>,
) -> bool
    decreases before,
{
    match before {
        BooleanExpression::Comparison { left, operator, right } => match after {
            BooleanExpression::Comparison { left: left2, operator: operator2, right: right2 } => operator2
                == operator && if value_failure(left, bindings) is Some {
                value_interrupted(left, left2, bindings) && right2 == right
            } else {
                value_substituted(left, left2, bindings) && value_interrupted(right, right2, bindings)
            },
            _ => false,
        },
        BooleanExpression::And(left, right) => match after {
            BooleanExpression::And(left2, right2) => if boolean_failure(*left, bindings) is Some {
                boolean_interrupted(*left, *left2, bindings) && right2 == right
            } else {
                boolean_substituted(*left, *left2, bindings) && boolean_interrupted(
                    *right,
                    *right2,
                    bindings,
                )
            },
            _ => false,
        },
        BooleanExpression::Or(left, right) => match after {
            BooleanExpression::Or(left2, right2) => if boolean_failure(*left, bindings) is Some {
                boolean_interrupted(*left, *left2, bindings) && right2 == right
            } else {
                boolean_substituted(*left, *left2, bindings) && boolean_interrupted(
                    *right,
                    *right2,
                    bindings,
                )
            },
            _ => false,
        },
        BooleanExpression::Not(inner) => match after {
            BooleanExpression::Not(inner2) => boolean_interrupted(*inner, *inner2, bindings),
            _ => false,
        },
        BooleanExpression::Exists(_) => false,
        BooleanExpression::In { expression, list } => match after {
            BooleanExpression::In { expression: expression2, list: list2 } => if value_failure(
                expression,
                bindings,
            ) is Some {
                value_interrupted(expression, expression2, bindings) && list2 == list
            } else {
                value_substituted(expression, expression2, bindings) && values_interrupted(
                    list@,
                    list2@,
                    bindings,
                )
            },
            _ => false,
        },
        BooleanExpression::Like { expression, pattern } => match after {
            BooleanExpression::Like { expression: expression2, pattern: pattern2 } => pattern2
                == pattern && value_interrupted(expression, expression2, bindings),
            _ => false,
        },
        BooleanExpression::ILike { expression, pattern } => match after {
            BooleanExpression::ILike { expression: expression2, pattern: pattern2 } => pattern2
                == pattern && value_interrupted(expression, expression2, bindings),
            _ => false,
        },
        BooleanExpression::Contains { expression, substring } => match after {
            BooleanExpression::Contains { expression: expression2, substring: substring2 } => substring2
                == substring && value_interrupted(expression, expression2, bindings),
            _ => false,
        },
        BooleanExpression::StartsWith { expression, prefix } => match after {
            BooleanExpression::StartsWith { expression: expression2, prefix: prefix2 } => prefix2
                == prefix && value_interrupted(expression, expression2, bindings),
            _ => false,
        },
        BooleanExpression::EndsWith { expression, suffix } => match after {
            BooleanExpression::EndsWith { expression: expression2, suffix: suffix2 } => suffix2
                == suffix && value_interrupted(expression, expression2, bindings),
            _ => false,
        },
        BooleanExpression::IsNull(expression) => match after {
            BooleanExpression::IsNull(expression2) => value_interrupted(expression, expression2, bindings),
            _ => false,
        },
        BooleanExpression::IsNotNull(expression) => match after {
            BooleanExpression::IsNotNull(expression2) => value_interrupted(expression, expression2, bindings),
            _ => false,
        },
    }
}

} // verus!
