//! What holds of substitution on every query and every parameter map.

use vstd::prelude::*;
use crate::ast::{
    BooleanExpression, CypherQuery, GraphPattern, OrderByClause, PathSegment, Property,
    PropertyValue, ReadingClause, ReturnItem, ValueExpression, WhereClause, WithClause,
};
use crate::error::{ErrorKind, Failure};
use crate::json::json_content;
use crate::model::{
    argument_outcomes, boolean_failure, boolean_substituted, first_failure, lemma_first_failure_at,
    lemma_first_failure_none, parameter_failure, property_substituted, scalar_literal,
    scalar_parameter_failure, then_failure, value_failure, value_outcomes, value_substituted,
    values_substituted,
};
use crate::query_model::{
    item_outcomes, items_substituted, keys_distinct, optional_order_failure,
    optional_order_substituted, optional_where_failure, optional_where_substituted,
    optional_with_failure, optional_with_substituted, order_outcomes, pattern_failure,
    pattern_outcomes, pattern_substituted, properties_substituted, property_outcomes, query_failure,
    query_interrupted, query_substituted, reading_failure, reading_outcomes, reading_substituted,
    readings_substituted, segment_failure, segment_outcomes, segment_substituted,
};
use crate::unchanged::{
    boolean_unchanged, items_unchanged, optional_order_unchanged, optional_where_unchanged,
    optional_with_unchanged, pattern_unchanged, properties_unchanged, query_unchanged,
    reading_unchanged, readings_unchanged, segment_unchanged, value_unchanged, values_unchanged,
};
use crate::references::{
    boolean_mentions, items_mention, optional_order_mentions, optional_where_mentions,
    optional_with_mentions, pattern_mentions, patterns_mention, properties_mention,
    property_mentions, query_mentions, query_parameter_free, reading_mentions, readings_mention,
    segment_mentions, segments_mention, value_mentions, values_mention,
};

verus! {

/// Whether the map binds `name` to a scalar: null, a boolean, a number or a
/// string.
pub open spec fn scalar_bound(name: Seq<char>, bindings: Map<Seq<char>, serde_json::Value>) -> bool {
    bindings.contains_key(name) && scalar_literal(json_content(bindings[name])) is Some
}

/// Whether an outcome, where it is a failure, names a parameter for which
/// `mentioned` holds and which the map binds to no scalar.
pub open spec fn blames(
    outcome: Option<Failure>,
    mentioned: bool,
    bindings: Map<Seq<char>, serde_json::Value>,
) -> bool {
    outcome is Some ==> mentioned && !scalar_bound(outcome.unwrap().parameter, bindings)
}

/// The name that an outcome blames; arbitrary where it is no failure.
pub open spec fn blamed(outcome: Option<Failure>) -> Seq<char> {
    outcome.unwrap().parameter
}

/// The place of the first failure: every outcome before it succeeded.
pub proof fn lemma_first_failure_witness(outcomes: Seq<Option<Failure>>) -> (i: int)
    requires
        first_failure(outcomes) is Some,
    ensures
        0 <= i < outcomes.len(),
        outcomes[i] == first_failure(outcomes),
        forall|j: int| 0 <= j < i ==> outcomes[j] is None,
    decreases outcomes.len(),
{
    if outcomes[0] is Some {
        0
    } else {
        let rest = outcomes.drop_first();
        let k = lemma_first_failure_witness(rest);
        assert forall|j: int| 0 <= j < k + 1 implies outcomes[j] is None by {
            if j > 0 {
                assert(rest[j - 1] is None);
            }
        }
        k + 1
    }
}

// A failure names a parameter that the tree refers to and that the map binds
// to no scalar.

proof fn lemma_properties_blame(properties: Seq<Property>, bindings: Map<Seq<char>, serde_json::Value>)
    ensures
        ({
            let f = first_failure(property_outcomes(properties, bindings));
            blames(f, properties_mention(properties, blamed(f)), bindings)
        }),
{
    let outcomes = property_outcomes(properties, bindings);
    if first_failure(outcomes) is Some {
        let i = lemma_first_failure_witness(outcomes);
        assert(property_mentions(properties[i].value, blamed(outcomes[i])));
    }
}

proof fn lemma_value_blame(expr: ValueExpression, bindings: Map<Seq<char>, serde_json::Value>)
    ensures
        ({
            let f = value_failure(expr, bindings);
            blames(f, value_mentions(expr, blamed(f)), bindings)
        }),
    decreases expr,
{
    match expr {
        ValueExpression::ScalarFunction { args, .. } => {
            let outcomes = argument_outcomes(expr, bindings);
            if first_failure(outcomes) is Some {
                let i = lemma_first_failure_witness(outcomes);
                lemma_value_blame(args[i], bindings);
                assert(value_mentions(args[i], blamed(outcomes[i])));
            }
        },
        ValueExpression::AggregateFunction { args, .. } => {
            let outcomes = argument_outcomes(expr, bindings);
            if first_failure(outcomes) is Some {
                let i = lemma_first_failure_witness(outcomes);
                lemma_value_blame(args[i], bindings);
                assert(value_mentions(args[i], blamed(outcomes[i])));
            }
        },
        ValueExpression::Arithmetic { left, right, .. } => {
            lemma_value_blame(*left, bindings);
            lemma_value_blame(*right, bindings);
        },
        ValueExpression::VectorDistance { left, right, .. } => {
            lemma_value_blame(*left, bindings);
            lemma_value_blame(*right, bindings);
        },
        ValueExpression::VectorSimilarity { left, right, .. } => {
            lemma_value_blame(*left, bindings);
            lemma_value_blame(*right, bindings);
        },
        _ => {},
    }
}

proof fn lemma_values_blame(items: Seq<ValueExpression>, bindings: Map<Seq<char>, serde_json::Value>)
    ensures
        ({
            let f = first_failure(value_outcomes(items, bindings));
            blames(f, values_mention(items, blamed(f)), bindings)
        }),
{
    let outcomes = value_outcomes(items, bindings);
    if first_failure(outcomes) is Some {
        let i = lemma_first_failure_witness(outcomes);
        lemma_value_blame(items[i], bindings);
        assert(value_mentions(items[i], blamed(outcomes[i])));
    }
}

proof fn lemma_boolean_blame(expr: BooleanExpression, bindings: Map<Seq<char>, serde_json::Value>)
    ensures
        ({
            let f = boolean_failure(expr, bindings);
            blames(f, boolean_mentions(expr, blamed(f)), bindings)
        }),
    decreases expr,
{
    match expr {
        BooleanExpression::Comparison { left, right, .. } => {
            lemma_value_blame(left, bindings);
            lemma_value_blame(right, bindings);
        },
        BooleanExpression::And(left, right) => {
            lemma_boolean_blame(*left, bindings);
            lemma_boolean_blame(*right, bindings);
        },
        BooleanExpression::Or(left, right) => {
            lemma_boolean_blame(*left, bindings);
            lemma_boolean_blame(*right, bindings);
        },
        BooleanExpression::Not(inner) => {
            lemma_boolean_blame(*inner, bindings);
        },
        BooleanExpression::Exists(_) => {},
        BooleanExpression::In { expression, list } => {
            lemma_value_blame(expression, bindings);
            lemma_values_blame(list@, bindings);
        },
        BooleanExpression::Like { expression, .. } => {
            lemma_value_blame(expression, bindings);
        },
        BooleanExpression::ILike { expression, .. } => {
            lemma_value_blame(expression, bindings);
        },
        BooleanExpression::Contains { expression, .. } => {
            lemma_value_blame(expression, bindings);
        },
        BooleanExpression::StartsWith { expression, .. } => {
            lemma_value_blame(expression, bindings);
        },
        BooleanExpression::EndsWith { expression, .. } => {
            lemma_value_blame(expression, bindings);
        },
        BooleanExpression::IsNull(expression) => {
            lemma_value_blame(expression, bindings);
        },
        BooleanExpression::IsNotNull(expression) => {
            lemma_value_blame(expression, bindings);
        },
    }
}

proof fn lemma_segment_blame(segment: PathSegment, bindings: Map<Seq<char>, serde_json::Value>)
    ensures
        ({
            let f = segment_failure(segment, bindings);
            blames(f, segment_mentions(segment, blamed(f)), bindings)
        }),
{
    lemma_properties_blame(segment.relationship.properties@, bindings);
    lemma_properties_blame(segment.end_node.properties@, bindings);
}

proof fn lemma_pattern_blame(pattern: GraphPattern, bindings: Map<Seq<char>, serde_json::Value>)
    ensures
        ({
            let f = pattern_failure(pattern, bindings);
            blames(f, pattern_mentions(pattern, blamed(f)), bindings)
        }),
{
    match pattern {
        GraphPattern::Node(node) => {
            lemma_properties_blame(node.properties@, bindings);
        },
        GraphPattern::Path(path) => {
            lemma_properties_blame(path.start_node.properties@, bindings);
            let outcomes = segment_outcomes(path.segments@, bindings);
            if first_failure(outcomes) is Some {
                let i = lemma_first_failure_witness(outcomes);
                lemma_segment_blame(path.segments@[i], bindings);
                assert(segment_mentions(path.segments@[i], blamed(outcomes[i])));
            }
        },
    }
}

proof fn lemma_reading_blame(clause: ReadingClause, bindings: Map<Seq<char>, serde_json::Value>)
    ensures
        ({
            let f = reading_failure(clause, bindings);
            blames(f, reading_mentions(clause, blamed(f)), bindings)
        }),
{
    match clause {
        ReadingClause::Match(clause) => {
            let outcomes = pattern_outcomes(clause.patterns@, bindings);
            if first_failure(outcomes) is Some {
                let i = lemma_first_failure_witness(outcomes);
                lemma_pattern_blame(clause.patterns@[i], bindings);
                assert(pattern_mentions(clause.patterns@[i], blamed(outcomes[i])));
            }
        },
        ReadingClause::Unwind(clause) => {
            lemma_value_blame(clause.expression, bindings);
        },
    }
}

proof fn lemma_readings_blame(clauses: Seq<ReadingClause>, bindings: Map<Seq<char>, serde_json::Value>)
    ensures
        ({
            let f = first_failure(reading_outcomes(clauses, bindings));
            blames(f, readings_mention(clauses, blamed(f)), bindings)
        }),
{
    let outcomes = reading_outcomes(clauses, bindings);
    if first_failure(outcomes) is Some {
        let i = lemma_first_failure_witness(outcomes);
        lemma_reading_blame(clauses[i], bindings);
        assert(reading_mentions(clauses[i], blamed(outcomes[i])));
    }
}

proof fn lemma_where_blame(clause: Option<WhereClause>, bindings: Map<Seq<char>, serde_json::Value>)
    ensures
        ({
            let f = optional_where_failure(clause, bindings);
            blames(f, optional_where_mentions(clause, blamed(f)), bindings)
        }),
{
    if let Some(clause) = clause {
        lemma_boolean_blame(clause.expression, bindings);
    }
}

proof fn lemma_items_blame(items: Seq<ReturnItem>, bindings: Map<Seq<char>, serde_json::Value>)
    ensures
        ({
            let f = first_failure(item_outcomes(items, bindings));
            blames(f, items_mention(items, blamed(f)), bindings)
        }),
{
    let outcomes = item_outcomes(items, bindings);
    if first_failure(outcomes) is Some {
        let i = lemma_first_failure_witness(outcomes);
        lemma_value_blame(items[i].expression, bindings);
        assert(value_mentions(items[i].expression, blamed(outcomes[i])));
    }
}

proof fn lemma_order_blame(clause: Option<OrderByClause>, bindings: Map<Seq<char>, serde_json::Value>)
    ensures
        ({
            let f = optional_order_failure(clause, bindings);
            blames(f, optional_order_mentions(clause, blamed(f)), bindings)
        }),
{
    if let Some(clause) = clause {
        let outcomes = order_outcomes(clause.items@, bindings);
        if first_failure(outcomes) is Some {
            let i = lemma_first_failure_witness(outcomes);
            lemma_value_blame(clause.items[i].expression, bindings);
            assert(value_mentions(clause.items[i].expression, blamed(outcomes[i])));
        }
    }
}

proof fn lemma_with_blame(clause: Option<WithClause>, bindings: Map<Seq<char>, serde_json::Value>)
    ensures
        ({
            let f = optional_with_failure(clause, bindings);
            blames(f, optional_with_mentions(clause, blamed(f)), bindings)
        }),
{
    if let Some(clause) = clause {
        lemma_items_blame(clause.items@, bindings);
        lemma_order_blame(clause.order_by, bindings);
    }
}

/// A failure of substitution names a parameter that the query refers to and
/// that the map does not bind to a scalar.
pub proof fn lemma_failure_names_unresolved_reference(
    query: CypherQuery,
    bindings: Map<Seq<char>, serde_json::Value>,
)
    ensures
        query_failure(query, bindings) is Some ==> query_mentions(
            query,
            query_failure(query, bindings).unwrap().parameter,
        ) && !scalar_bound(query_failure(query, bindings).unwrap().parameter, bindings),
{
    lemma_readings_blame(query.reading_clauses@, bindings);
    lemma_where_blame(query.where_clause, bindings);
    lemma_with_blame(query.with_clause, bindings);
    lemma_readings_blame(query.post_with_reading_clauses@, bindings);
    lemma_where_blame(query.post_with_where_clause, bindings);
    lemma_items_blame(query.return_clause.items@, bindings);
    lemma_order_blame(query.order_by, bindings);
}

// What substitution makes of a tree refers to no parameter.

proof fn lemma_properties_resolved(
    before: Seq<Property>,
    after: Seq<Property>,
    bindings: Map<Seq<char>, serde_json::Value>,
    name: Seq<char>,
)
    requires
        properties_substituted(before, after, bindings),
    ensures
        !properties_mention(after, name),
{
    assert forall|i: int| 0 <= i < after.len() implies !property_mentions(
        (#[trigger] after[i]).value,
        name,
    ) by {
        assert(property_substituted(before[i].value, after[i].value, bindings));
    }
}

proof fn lemma_value_resolved(
    before: ValueExpression,
    after: ValueExpression,
    bindings: Map<Seq<char>, serde_json::Value>,
    name: Seq<char>,
)
    requires
        value_substituted(before, after, bindings),
    ensures
        !value_mentions(after, name),
    decreases before,
{
    match before {
        ValueExpression::ScalarFunction { args, .. } => {
            if let ValueExpression::ScalarFunction { args: args2, .. } = after {
                assert forall|i: int| 0 <= i < args2.len() implies !value_mentions(
                    #[trigger] args2[i],
                    name,
                ) by {
                    lemma_value_resolved(args[i], args2[i], bindings, name);
                }
            }
        },
        ValueExpression::AggregateFunction { args, .. } => {
            if let ValueExpression::AggregateFunction { args: args2, .. } = after {
                assert forall|i: int| 0 <= i < args2.len() implies !value_mentions(
                    #[trigger] args2[i],
                    name,
                ) by {
                    lemma_value_resolved(args[i], args2[i], bindings, name);
                }
            }
        },
        ValueExpression::Arithmetic { left, right, .. } => {
            if let ValueExpression::Arithmetic { left: left2, right: right2, .. } = after {
                lemma_value_resolved(*left, *left2, bindings, name);
                lemma_value_resolved(*right, *right2, bindings, name);
            }
        },
        ValueExpression::VectorDistance { left, right, .. } => {
            if let ValueExpression::VectorDistance { left: left2, right: right2, .. } = after {
                lemma_value_resolved(*left, *left2, bindings, name);
                lemma_value_resolved(*right, *right2, bindings, name);
            }
        },
        ValueExpression::VectorSimilarity { left, right, .. } => {
            if let ValueExpression::VectorSimilarity { left: left2, right: right2, .. } = after {
                lemma_value_resolved(*left, *left2, bindings, name);
                lemma_value_resolved(*right, *right2, bindings, name);
            }
        },
        _ => {},
    }
}

proof fn lemma_values_resolved(
    before: Seq<ValueExpression>,
    after: Seq<ValueExpression>,
    bindings: Map<Seq<char>, serde_json::Value>,
    name: Seq<char>,
)
    requires
        values_substituted(before, after, bindings),
    ensures
        !values_mention(after, name),
{
    assert forall|i: int| 0 <= i < after.len() implies !value_mentions(#[trigger] after[i], name) by {
        lemma_value_resolved(before[i], after[i], bindings, name);
    }
}

proof fn lemma_boolean_resolved(
    before: BooleanExpression,
    after: BooleanExpression,
    bindings: Map<Seq<char>, serde_json::Value>,
    name: Seq<char>,
)
    requires
        boolean_substituted(before, after, bindings),
    ensures
        !boolean_mentions(after, name),
    decreases before,
{
    match before {
        BooleanExpression::Comparison { left, right, .. } => {
            if let BooleanExpression::Comparison { left: left2, right: right2, .. } = after {
                lemma_value_resolved(left, left2, bindings, name);
                lemma_value_resolved(right, right2, bindings, name);
            }
        },
        BooleanExpression::And(left, right) => {
            if let BooleanExpression::And(left2, right2) = after {
                lemma_boolean_resolved(*left, *left2, bindings, name);
                lemma_boolean_resolved(*right, *right2, bindings, name);
            }
        },
        BooleanExpression::Or(left, right) => {
            if let BooleanExpression::Or(left2, right2) = after {
                lemma_boolean_resolved(*left, *left2, bindings, name);
                lemma_boolean_resolved(*right, *right2, bindings, name);
            }
        },
        BooleanExpression::Not(inner) => {
            if let BooleanExpression::Not(inner2) = after {
                lemma_boolean_resolved(*inner, *inner2, bindings, name);
            }
        },
        BooleanExpression::Exists(_) => {},
        BooleanExpression::In { expression, list } => {
            if let BooleanExpression::In { expression: expression2, list: list2 } = after {
                lemma_value_resolved(expression, expression2, bindings, name);
                lemma_values_resolved(list@, list2@, bindings, name);
            }
        },
        BooleanExpression::Like { expression, .. } => {
            if let BooleanExpression::Like { expression: expression2, .. } = after {
                lemma_value_resolved(expression, expression2, bindings, name);
            }
        },
        BooleanExpression::ILike { expression, .. } => {
            if let BooleanExpression::ILike { expression: expression2, .. } = after {
                lemma_value_resolved(expression, expression2, bindings, name);
            }
        },
        BooleanExpression::Contains { expression, .. } => {
            if let BooleanExpression::Contains { expression: expression2, .. } = after {
                lemma_value_resolved(expression, expression2, bindings, name);
            }
        },
        BooleanExpression::StartsWith { expression, .. } => {
            if let BooleanExpression::StartsWith { expression: expression2, .. } = after {
                lemma_value_resolved(expression, expression2, bindings, name);
            }
        },
        BooleanExpression::EndsWith { expression, .. } => {
            if let BooleanExpression::EndsWith { expression: expression2, .. } = after {
                lemma_value_resolved(expression, expression2, bindings, name);
            }
        },
        BooleanExpression::IsNull(expression) => {
            if let BooleanExpression::IsNull(expression2) = after {
                lemma_value_resolved(expression, expression2, bindings, name);
            }
        },
        BooleanExpression::IsNotNull(expression) => {
            if let BooleanExpression::IsNotNull(expression2) = after {
                lemma_value_resolved(expression, expression2, bindings, name);
            }
        },
    }
}

proof fn lemma_segment_resolved(
    before: PathSegment,
    after: PathSegment,
    bindings: Map<Seq<char>, serde_json::Value>,
    name: Seq<char>,
)
    requires
        segment_substituted(before, after, bindings),
    ensures
        !segment_mentions(after, name),
{
    lemma_properties_resolved(
        before.relationship.properties@,
        after.relationship.properties@,
        bindings,
        name,
    );
    lemma_properties_resolved(before.end_node.properties@, after.end_node.properties@, bindings, name);
}

proof fn lemma_pattern_resolved(
    before: GraphPattern,
    after: GraphPattern,
    bindings: Map<Seq<char>, serde_json::Value>,
    name: Seq<char>,
)
    requires
        pattern_substituted(before, after, bindings),
    ensures
        !pattern_mentions(after, name),
{
    match before {
        GraphPattern::Node(node) => {
            if let GraphPattern::Node(node2) = after {
                lemma_properties_resolved(node.properties@, node2.properties@, bindings, name);
            }
        },
        GraphPattern::Path(path) => {
            if let GraphPattern::Path(path2) = after {
                lemma_properties_resolved(
                    path.start_node.properties@,
                    path2.start_node.properties@,
                    bindings,
                    name,
                );
                assert forall|i: int| 0 <= i < path2.segments@.len() implies !segment_mentions(
                    #[trigger] path2.segments@[i],
                    name,
                ) by {
                    lemma_segment_resolved(path.segments@[i], path2.segments@[i], bindings, name);
                }
            }
        },
    }
}

proof fn lemma_reading_resolved(
    before: ReadingClause,
    after: ReadingClause,
    bindings: Map<Seq<char>, serde_json::Value>,
    name: Seq<char>,
)
    requires
        reading_substituted(before, after, bindings),
    ensures
        !reading_mentions(after, name),
{
    match before {
        ReadingClause::Match(clause) => {
            if let ReadingClause::Match(clause2) = after {
                assert forall|i: int| 0 <= i < clause2.patterns@.len() implies !pattern_mentions(
                    #[trigger] clause2.patterns@[i],
                    name,
                ) by {
                    lemma_pattern_resolved(clause.patterns@[i], clause2.patterns@[i], bindings, name);
                }
            }
        },
        ReadingClause::Unwind(clause) => {
            if let ReadingClause::Unwind(clause2) = after {
                lemma_value_resolved(clause.expression, clause2.expression, bindings, name);
            }
        },
    }
}

proof fn lemma_readings_resolved(
    before: Seq<ReadingClause>,
    after: Seq<ReadingClause>,
    bindings: Map<Seq<char>, serde_json::Value>,
    name: Seq<char>,
)
    requires
        readings_substituted(before, after, bindings),
    ensures
        !readings_mention(after, name),
{
    assert forall|i: int| 0 <= i < after.len() implies !reading_mentions(#[trigger] after[i], name) by {
        lemma_reading_resolved(before[i], after[i], bindings, name);
    }
}

proof fn lemma_where_resolved(
    before: Option<WhereClause>,
    after: Option<WhereClause>,
    bindings: Map<Seq<char>, serde_json::Value>,
    name: Seq<char>,
)
    requires
        optional_where_substituted(before, after, bindings),
    ensures
        !optional_where_mentions(after, name),
{
    if let Some(clause) = before {
        lemma_boolean_resolved(clause.expression, after.unwrap().expression, bindings, name);
    }
}

proof fn lemma_items_resolved(
    before: Seq<ReturnItem>,
    after: Seq<ReturnItem>,
    bindings: Map<Seq<char>, serde_json::Value>,
    name: Seq<char>,
)
    requires
        items_substituted(before, after, bindings),
    ensures
        !items_mention(after, name),
{
    assert forall|i: int| 0 <= i < after.len() implies !value_mentions(
        (#[trigger] after[i]).expression,
        name,
    ) by {
        lemma_value_resolved(before[i].expression, after[i].expression, bindings, name);
    }
}

proof fn lemma_order_resolved(
    before: Option<OrderByClause>,
    after: Option<OrderByClause>,
    bindings: Map<Seq<char>, serde_json::Value>,
    name: Seq<char>,
)
    requires
        optional_order_substituted(before, after, bindings),
    ensures
        !optional_order_mentions(after, name),
{
    if let Some(clause) = before {
        let clause2 = after.unwrap();
        assert forall|i: int| 0 <= i < clause2.items.len() implies !value_mentions(
            (#[trigger] clause2.items[i]).expression,
            name,
        ) by {
            lemma_value_resolved(clause.items[i].expression, clause2.items[i].expression, bindings, name);
        }
    }
}

proof fn lemma_with_resolved(
    before: Option<WithClause>,
    after: Option<WithClause>,
    bindings: Map<Seq<char>, serde_json::Value>,
    name: Seq<char>,
)
    requires
        optional_with_substituted(before, after, bindings),
    ensures
        !optional_with_mentions(after, name),
{
    if let Some(clause) = before {
        lemma_items_resolved(clause.items@, after.unwrap().items@, bindings, name);
        lemma_order_resolved(clause.order_by, after.unwrap().order_by, bindings, name);
    }
}

/// What substitution makes of a query refers to no parameter.
pub proof fn lemma_result_is_parameter_free(
    before: CypherQuery,
    after: CypherQuery,
    bindings: Map<Seq<char>, serde_json::Value>,
)
    requires
        query_substituted(before, after, bindings),
    ensures
        query_parameter_free(after),
{
    assert forall|name: Seq<char>| !query_mentions(after, name) by {
        lemma_readings_resolved(before.reading_clauses@, after.reading_clauses@, bindings, name);
        lemma_where_resolved(before.where_clause, after.where_clause, bindings, name);
        lemma_with_resolved(before.with_clause, after.with_clause, bindings, name);
        lemma_readings_resolved(
            before.post_with_reading_clauses@,
            after.post_with_reading_clauses@,
            bindings,
            name,
        );
        lemma_where_resolved(
            before.post_with_where_clause,
            after.post_with_where_clause,
            bindings,
            name,
        );
        lemma_items_resolved(before.return_clause.items@, after.return_clause.items@, bindings, name);
        lemma_order_resolved(before.order_by, after.order_by, bindings, name);
    }
}

/// Totality: where the map binds every parameter that the query refers to to
/// a scalar, substitution reports no failure, and what it makes of the query
/// refers to no parameter.
pub proof fn law_totality(
    before: CypherQuery,
    after: CypherQuery,
    bindings: Map<Seq<char>, serde_json::Value>,
)
    requires
        forall|name: Seq<char>| query_mentions(before, name) ==> scalar_bound(name, bindings),
    ensures
        query_failure(before, bindings) is None,
        query_substituted(before, after, bindings) ==> query_parameter_free(after),
{
    lemma_failure_names_unresolved_reference(before, bindings);
    if query_substituted(before, after, bindings) {
        lemma_result_is_parameter_free(before, after, bindings);
    }
}

// A tree that refers to no parameter is what substitution makes of it.

proof fn lemma_properties_kept(properties: Seq<Property>, bindings: Map<Seq<char>, serde_json::Value>)
    requires
        forall|name: Seq<char>| !properties_mention(properties, name),
    ensures
        properties_substituted(properties, properties, bindings),
{
    assert forall|i: int| 0 <= i < properties.len() implies property_substituted(
        (#[trigger] properties[i]).value,
        properties[i].value,
        bindings,
    ) by {
        if let PropertyValue::Parameter(n) = properties[i].value {
            assert(property_mentions(properties[i].value, n@));
            assert(properties_mention(properties, n@));
        }
    }
}

proof fn lemma_value_kept(expr: ValueExpression, bindings: Map<Seq<char>, serde_json::Value>)
    requires
        forall|name: Seq<char>| !value_mentions(expr, name),
    ensures
        value_substituted(expr, expr, bindings),
    decreases expr,
{
    match expr {
        ValueExpression::Parameter(n) => {
            assert(value_mentions(expr, n@));
        },
        ValueExpression::ScalarFunction { args, .. } => {
            assert forall|i: int| 0 <= i < args.len() implies value_substituted(
                args[i],
                #[trigger] args[i],
                bindings,
            ) by {
                assert forall|name: Seq<char>| !value_mentions(args[i], name) by {
                    assert(!value_mentions(expr, name));
                }
                lemma_value_kept(args[i], bindings);
            }
        },
        ValueExpression::AggregateFunction { args, .. } => {
            assert forall|i: int| 0 <= i < args.len() implies value_substituted(
                args[i],
                #[trigger] args[i],
                bindings,
            ) by {
                assert forall|name: Seq<char>| !value_mentions(args[i], name) by {
                    assert(!value_mentions(expr, name));
                }
                lemma_value_kept(args[i], bindings);
            }
        },
        ValueExpression::Arithmetic { left, right, .. } => {
            assert forall|name: Seq<char>|
                !value_mentions(*left, name) && !value_mentions(*right, name) by {
                assert(!value_mentions(expr, name));
            }
            lemma_value_kept(*left, bindings);
            lemma_value_kept(*right, bindings);
        },
        ValueExpression::VectorDistance { left, right, .. } => {
            assert forall|name: Seq<char>|
                !value_mentions(*left, name) && !value_mentions(*right, name) by {
                assert(!value_mentions(expr, name));
            }
            lemma_value_kept(*left, bindings);
            lemma_value_kept(*right, bindings);
        },
        ValueExpression::VectorSimilarity { left, right, .. } => {
            assert forall|name: Seq<char>|
                !value_mentions(*left, name) && !value_mentions(*right, name) by {
                assert(!value_mentions(expr, name));
            }
            lemma_value_kept(*left, bindings);
            lemma_value_kept(*right, bindings);
        },
        _ => {},
    }
}

proof fn lemma_values_kept(items: Seq<ValueExpression>, bindings: Map<Seq<char>, serde_json::Value>)
    requires
        forall|name: Seq<char>| !values_mention(items, name),
    ensures
        values_substituted(items, items, bindings),
{
    assert forall|i: int| 0 <= i < items.len() implies value_substituted(
        items[i],
        #[trigger] items[i],
        bindings,
    ) by {
        assert forall|name: Seq<char>| !value_mentions(items[i], name) by {
            assert(!values_mention(items, name));
        }
        lemma_value_kept(items[i], bindings);
    }
}

proof fn lemma_boolean_kept(expr: BooleanExpression, bindings: Map<Seq<char>, serde_json::Value>)
    requires
        forall|name: Seq<char>| !boolean_mentions(expr, name),
    ensures
        boolean_substituted(expr, expr, bindings),
    decreases expr,
{
    match expr {
        BooleanExpression::Comparison { left, right, .. } => {
            assert forall|name: Seq<char>|
                !value_mentions(left, name) && !value_mentions(right, name) by {
                assert(!boolean_mentions(expr, name));
            }
            lemma_value_kept(left, bindings);
            lemma_value_kept(right, bindings);
        },
        BooleanExpression::And(left, right) => {
            assert forall|name: Seq<char>|
                !boolean_mentions(*left, name) && !boolean_mentions(*right, name) by {
                assert(!boolean_mentions(expr, name));
            }
            lemma_boolean_kept(*left, bindings);
            lemma_boolean_kept(*right, bindings);
        },
        BooleanExpression::Or(left, right) => {
            assert forall|name: Seq<char>|
                !boolean_mentions(*left, name) && !boolean_mentions(*right, name) by {
                assert(!boolean_mentions(expr, name));
            }
            lemma_boolean_kept(*left, bindings);
            lemma_boolean_kept(*right, bindings);
        },
        BooleanExpression::Not(inner) => {
            assert forall|name: Seq<char>| !boolean_mentions(*inner, name) by {
                assert(!boolean_mentions(expr, name));
            }
            lemma_boolean_kept(*inner, bindings);
        },
        BooleanExpression::Exists(_) => {},
        BooleanExpression::In { expression, list } => {
            assert forall|name: Seq<char>| !value_mentions(expression, name) by {
                assert(!boolean_mentions(expr, name));
            }
            assert forall|name: Seq<char>| !values_mention(list@, name) by {
                assert(!boolean_mentions(expr, name));
            }
            lemma_value_kept(expression, bindings);
            lemma_values_kept(list@, bindings);
        },
        BooleanExpression::Like { expression, .. } => {
            lemma_unary_kept(expr, expression, bindings);
        },
        BooleanExpression::ILike { expression, .. } => {
            lemma_unary_kept(expr, expression, bindings);
        },
        BooleanExpression::Contains { expression, .. } => {
            lemma_unary_kept(expr, expression, bindings);
        },
        BooleanExpression::StartsWith { expression, .. } => {
            lemma_unary_kept(expr, expression, bindings);
        },
        BooleanExpression::EndsWith { expression, .. } => {
            lemma_unary_kept(expr, expression, bindings);
        },
        BooleanExpression::IsNull(expression) => {
            lemma_unary_kept(expr, expression, bindings);
        },
        BooleanExpression::IsNotNull(expression) => {
            lemma_unary_kept(expr, expression, bindings);
        },
    }
}

proof fn lemma_unary_kept(
    expr: BooleanExpression,
    operand: ValueExpression,
    bindings: Map<Seq<char>, serde_json::Value>,
)
    requires
        forall|name: Seq<char>| !boolean_mentions(expr, name),
        forall|name: Seq<char>| boolean_mentions(expr, name) == value_mentions(operand, name),
    ensures
        value_substituted(operand, operand, bindings),
{
    assert forall|name: Seq<char>| !value_mentions(operand, name) by {
        assert(!boolean_mentions(expr, name));
    }
    lemma_value_kept(operand, bindings);
}

proof fn lemma_pattern_kept(pattern: GraphPattern, bindings: Map<Seq<char>, serde_json::Value>)
    requires
        forall|name: Seq<char>| !pattern_mentions(pattern, name),
    ensures
        pattern_substituted(pattern, pattern, bindings),
{
    match pattern {
        GraphPattern::Node(node) => {
            assert forall|name: Seq<char>| !properties_mention(node.properties@, name) by {
                assert(!pattern_mentions(pattern, name));
            }
            lemma_properties_kept(node.properties@, bindings);
        },
        GraphPattern::Path(path) => {
            assert forall|name: Seq<char>| !properties_mention(path.start_node.properties@, name) by {
                assert(!pattern_mentions(pattern, name));
            }
            lemma_properties_kept(path.start_node.properties@, bindings);
            assert forall|i: int| 0 <= i < path.segments@.len() implies segment_substituted(
                path.segments@[i],
                #[trigger] path.segments@[i],
                bindings,
            ) by {
                let segment = path.segments@[i];
                assert forall|name: Seq<char>|
                    !properties_mention(segment.relationship.properties@, name)
                        && !properties_mention(segment.end_node.properties@, name) by {
                    assert(!pattern_mentions(pattern, name));
                    assert(!segment_mentions(segment, name));
                }
                lemma_properties_kept(segment.relationship.properties@, bindings);
                lemma_properties_kept(segment.end_node.properties@, bindings);
            }
        },
    }
}

proof fn lemma_readings_kept(clauses: Seq<ReadingClause>, bindings: Map<Seq<char>, serde_json::Value>)
    requires
        forall|name: Seq<char>| !readings_mention(clauses, name),
    ensures
        readings_substituted(clauses, clauses, bindings),
{
    assert forall|i: int| 0 <= i < clauses.len() implies reading_substituted(
        clauses[i],
        #[trigger] clauses[i],
        bindings,
    ) by {
        assert forall|name: Seq<char>| !reading_mentions(clauses[i], name) by {
            assert(!readings_mention(clauses, name));
        }
        match clauses[i] {
            ReadingClause::Match(clause) => {
                assert forall|k: int| 0 <= k < clause.patterns@.len() implies pattern_substituted(
                    clause.patterns@[k],
                    #[trigger] clause.patterns@[k],
                    bindings,
                ) by {
                    assert forall|name: Seq<char>| !pattern_mentions(clause.patterns@[k], name) by {
                        assert(!reading_mentions(clauses[i], name));
                    }
                    lemma_pattern_kept(clause.patterns@[k], bindings);
                }
            },
            ReadingClause::Unwind(clause) => {
                assert forall|name: Seq<char>| !value_mentions(clause.expression, name) by {
                    assert(!reading_mentions(clauses[i], name));
                }
                lemma_value_kept(clause.expression, bindings);
            },
        }
    }
}

proof fn lemma_where_kept(clause: Option<WhereClause>, bindings: Map<Seq<char>, serde_json::Value>)
    requires
        forall|name: Seq<char>| !optional_where_mentions(clause, name),
    ensures
        optional_where_substituted(clause, clause, bindings),
{
    if let Some(inner) = clause {
        assert forall|name: Seq<char>| !boolean_mentions(inner.expression, name) by {
            assert(!optional_where_mentions(clause, name));
        }
        lemma_boolean_kept(inner.expression, bindings);
    }
}

proof fn lemma_items_kept(items: Seq<ReturnItem>, bindings: Map<Seq<char>, serde_json::Value>)
    requires
        forall|name: Seq<char>| !items_mention(items, name),
    ensures
        items_substituted(items, items, bindings),
{
    assert forall|i: int| 0 <= i < items.len() implies value_substituted(
        (#[trigger] items[i]).expression,
        items[i].expression,
        bindings,
    ) by {
        assert forall|name: Seq<char>| !value_mentions(items[i].expression, name) by {
            assert(!items_mention(items, name));
        }
        lemma_value_kept(items[i].expression, bindings);
    }
}

proof fn lemma_order_kept(clause: Option<OrderByClause>, bindings: Map<Seq<char>, serde_json::Value>)
    requires
        forall|name: Seq<char>| !optional_order_mentions(clause, name),
    ensures
        optional_order_substituted(clause, clause, bindings),
{
    if let Some(inner) = clause {
        assert forall|i: int| 0 <= i < inner.items.len() implies value_substituted(
            (#[trigger] inner.items[i]).expression,
            inner.items[i].expression,
            bindings,
        ) by {
            assert forall|name: Seq<char>| !value_mentions(inner.items[i].expression, name) by {
                assert(!optional_order_mentions(clause, name));
            }
            lemma_value_kept(inner.items[i].expression, bindings);
        }
    }
}

proof fn lemma_with_kept(clause: Option<WithClause>, bindings: Map<Seq<char>, serde_json::Value>)
    requires
        forall|name: Seq<char>| !optional_with_mentions(clause, name),
    ensures
        optional_with_substituted(clause, clause, bindings),
{
    if let Some(inner) = clause {
        assert forall|name: Seq<char>| !items_mention(inner.items@, name) by {
            assert(!optional_with_mentions(clause, name));
        }
        assert forall|name: Seq<char>| !optional_order_mentions(inner.order_by, name) by {
            assert(!optional_with_mentions(clause, name));
        }
        lemma_items_kept(inner.items@, bindings);
        lemma_order_kept(inner.order_by, bindings);
    }
}

/// A query that refers to no parameter is left as it is, whatever the map
/// binds: substitution reports no failure, and the query itself is what
/// substitution makes of it.
pub proof fn law_parameter_free_query_is_kept(
    query: CypherQuery,
    bindings: Map<Seq<char>, serde_json::Value>,
)
    requires
        query_parameter_free(query),
    ensures
        query_failure(query, bindings) is None,
        query_substituted(query, query, bindings),
{
    lemma_failure_names_unresolved_reference(query, bindings);
    assert forall|name: Seq<char>| !readings_mention(query.reading_clauses@, name) by {
        assert(!query_mentions(query, name));
    }
    assert forall|name: Seq<char>| !optional_where_mentions(query.where_clause, name) by {
        assert(!query_mentions(query, name));
    }
    assert forall|name: Seq<char>| !optional_with_mentions(query.with_clause, name) by {
        assert(!query_mentions(query, name));
    }
    assert forall|name: Seq<char>| !readings_mention(query.post_with_reading_clauses@, name) by {
        assert(!query_mentions(query, name));
    }
    assert forall|name: Seq<char>| !optional_where_mentions(query.post_with_where_clause, name) by {
        assert(!query_mentions(query, name));
    }
    assert forall|name: Seq<char>| !items_mention(query.return_clause.items@, name) by {
        assert(!query_mentions(query, name));
    }
    assert forall|name: Seq<char>| !optional_order_mentions(query.order_by, name) by {
        assert(!query_mentions(query, name));
    }
    lemma_readings_kept(query.reading_clauses@, bindings);
    lemma_where_kept(query.where_clause, bindings);
    lemma_with_kept(query.with_clause, bindings);
    lemma_readings_kept(query.post_with_reading_clauses@, bindings);
    lemma_where_kept(query.post_with_where_clause, bindings);
    lemma_items_kept(query.return_clause.items@, bindings);
    lemma_order_kept(query.order_by, bindings);
}

/// Substitution keeps the keys of a property mapping pairwise distinct.
pub proof fn lemma_keys_stay_distinct(
    before: Seq<Property>,
    after: Seq<Property>,
    bindings: Map<Seq<char>, serde_json::Value>,
)
    requires
        keys_distinct(before),
        properties_substituted(before, after, bindings),
    ensures
        keys_distinct(after),
{
    assert forall|i: int, j: int| 0 <= i < j < after.len() implies (#[trigger] after[i]).key@ != (
    #[trigger] after[j]).key@ by {
        assert(after[i].key == before[i].key);
        assert(after[j].key == before[j].key);
    }
}

/// Fail-fast: where an earlier position fails, its failure is the one
/// reported, whatever a later position holds.
pub proof fn law_earlier_failure_is_reported(earlier: Option<Failure>, later: Option<Failure>)
    requires
        earlier is Some,
    ensures
        then_failure(earlier, later) == earlier,
{
}

// What substitution makes of a tree that refers to no parameter is that tree.

proof fn lemma_properties_unchanged(
    before: Seq<Property>,
    after: Seq<Property>,
    bindings: Map<Seq<char>, serde_json::Value>,
)
    requires
        forall|name: Seq<char>| !properties_mention(before, name),
        properties_substituted(before, after, bindings),
    ensures
        properties_unchanged(before, after),
{
    assert forall|i: int| 0 <= i < before.len() implies (#[trigger] after[i]).key == before[i].key
        && after[i].value == before[i].value by {
        if let PropertyValue::Parameter(n) = before[i].value {
            assert(property_mentions(before[i].value, n@));
            assert(properties_mention(before, n@));
        }
    }
}

proof fn lemma_value_unchanged(
    before: ValueExpression,
    after: ValueExpression,
    bindings: Map<Seq<char>, serde_json::Value>,
)
    requires
        forall|name: Seq<char>| !value_mentions(before, name),
        value_substituted(before, after, bindings),
    ensures
        value_unchanged(before, after),
    decreases before,
{
    match before {
        ValueExpression::Parameter(n) => {
            assert(value_mentions(before, n@));
        },
        ValueExpression::ScalarFunction { args, .. } => {
            if let ValueExpression::ScalarFunction { args: args2, .. } = after {
                assert forall|i: int| 0 <= i < args.len() implies value_unchanged(
                    args[i],
                    #[trigger] args2[i],
                ) by {
                    assert forall|name: Seq<char>| !value_mentions(args[i], name) by {
                        assert(!value_mentions(before, name));
                    }
                    lemma_value_unchanged(args[i], args2[i], bindings);
                }
            }
        },
        ValueExpression::AggregateFunction { args, .. } => {
            if let ValueExpression::AggregateFunction { args: args2, .. } = after {
                assert forall|i: int| 0 <= i < args.len() implies value_unchanged(
                    args[i],
                    #[trigger] args2[i],
                ) by {
                    assert forall|name: Seq<char>| !value_mentions(args[i], name) by {
                        assert(!value_mentions(before, name));
                    }
                    lemma_value_unchanged(args[i], args2[i], bindings);
                }
            }
        },
        ValueExpression::Arithmetic { left, right, .. } => {
            if let ValueExpression::Arithmetic { left: left2, right: right2, .. } = after {
                assert forall|name: Seq<char>|
                    !value_mentions(*left, name) && !value_mentions(*right, name) by {
                    assert(!value_mentions(before, name));
                }
                lemma_value_unchanged(*left, *left2, bindings);
                lemma_value_unchanged(*right, *right2, bindings);
            }
        },
        ValueExpression::VectorDistance { left, right, .. } => {
            if let ValueExpression::VectorDistance { left: left2, right: right2, .. } = after {
                assert forall|name: Seq<char>|
                    !value_mentions(*left, name) && !value_mentions(*right, name) by {
                    assert(!value_mentions(before, name));
                }
                lemma_value_unchanged(*left, *left2, bindings);
                lemma_value_unchanged(*right, *right2, bindings);
            }
        },
        ValueExpression::VectorSimilarity { left, right, .. } => {
            if let ValueExpression::VectorSimilarity { left: left2, right: right2, .. } = after {
                assert forall|name: Seq<char>|
                    !value_mentions(*left, name) && !value_mentions(*right, name) by {
                    assert(!value_mentions(before, name));
                }
                lemma_value_unchanged(*left, *left2, bindings);
                lemma_value_unchanged(*right, *right2, bindings);
            }
        },
        _ => {},
    }
}

proof fn lemma_values_unchanged(
    before: Seq<ValueExpression>,
    after: Seq<ValueExpression>,
    bindings: Map<Seq<char>, serde_json::Value>,
)
    requires
        forall|name: Seq<char>| !values_mention(before, name),
        values_substituted(before, after, bindings),
    ensures
        values_unchanged(before, after),
{
    assert forall|i: int| 0 <= i < before.len() implies value_unchanged(before[i], #[trigger] after[i]) by {
        assert forall|name: Seq<char>| !value_mentions(before[i], name) by {
            assert(!values_mention(before, name));
        }
        lemma_value_unchanged(before[i], after[i], bindings);
    }
}

proof fn lemma_operand_unchanged(
    whole: BooleanExpression,
    operand: ValueExpression,
    operand2: ValueExpression,
    bindings: Map<Seq<char>, serde_json::Value>,
)
    requires
        forall|name: Seq<char>| !boolean_mentions(whole, name),
        forall|name: Seq<char>| boolean_mentions(whole, name) == value_mentions(operand, name),
        value_substituted(operand, operand2, bindings),
    ensures
        value_unchanged(operand, operand2),
{
    assert forall|name: Seq<char>| !value_mentions(operand, name) by {
        assert(!boolean_mentions(whole, name));
    }
    lemma_value_unchanged(operand, operand2, bindings);
}

proof fn lemma_boolean_unchanged(
    before: BooleanExpression,
    after: BooleanExpression,
    bindings: Map<Seq<char>, serde_json::Value>,
)
    requires
        forall|name: Seq<char>| !boolean_mentions(before, name),
        boolean_substituted(before, after, bindings),
    ensures
        boolean_unchanged(before, after),
    decreases before,
{
    match before {
        BooleanExpression::Comparison { left, right, .. } => {
            if let BooleanExpression::Comparison { left: left2, right: right2, .. } = after {
                assert forall|name: Seq<char>|
                    !value_mentions(left, name) && !value_mentions(right, name) by {
                    assert(!boolean_mentions(before, name));
                }
                lemma_value_unchanged(left, left2, bindings);
                lemma_value_unchanged(right, right2, bindings);
            }
        },
        BooleanExpression::And(left, right) => {
            if let BooleanExpression::And(left2, right2) = after {
                assert forall|name: Seq<char>|
                    !boolean_mentions(*left, name) && !boolean_mentions(*right, name) by {
                    assert(!boolean_mentions(before, name));
                }
                lemma_boolean_unchanged(*left, *left2, bindings);
                lemma_boolean_unchanged(*right, *right2, bindings);
            }
        },
        BooleanExpression::Or(left, right) => {
            if let BooleanExpression::Or(left2, right2) = after {
                assert forall|name: Seq<char>|
                    !boolean_mentions(*left, name) && !boolean_mentions(*right, name) by {
                    assert(!boolean_mentions(before, name));
                }
                lemma_boolean_unchanged(*left, *left2, bindings);
                lemma_boolean_unchanged(*right, *right2, bindings);
            }
        },
        BooleanExpression::Not(inner) => {
            if let BooleanExpression::Not(inner2) = after {
                assert forall|name: Seq<char>| !boolean_mentions(*inner, name) by {
                    assert(!boolean_mentions(before, name));
                }
                lemma_boolean_unchanged(*inner, *inner2, bindings);
            }
        },
        BooleanExpression::Exists(_) => {},
        BooleanExpression::In { expression, list } => {
            if let BooleanExpression::In { expression: expression2, list: list2 } = after {
                assert forall|name: Seq<char>| !value_mentions(expression, name) by {
                    assert(!boolean_mentions(before, name));
                }
                assert forall|name: Seq<char>| !values_mention(list@, name) by {
                    assert(!boolean_mentions(before, name));
                }
                lemma_value_unchanged(expression, expression2, bindings);
                lemma_values_unchanged(list@, list2@, bindings);
            }
        },
        BooleanExpression::Like { expression, .. } => {
            if let BooleanExpression::Like { expression: expression2, .. } = after {
                lemma_operand_unchanged(before, expression, expression2, bindings);
            }
        },
        BooleanExpression::ILike { expression, .. } => {
            if let BooleanExpression::ILike { expression: expression2, .. } = after {
                lemma_operand_unchanged(before, expression, expression2, bindings);
            }
        },
        BooleanExpression::Contains { expression, .. } => {
            if let BooleanExpression::Contains { expression: expression2, .. } = after {
                lemma_operand_unchanged(before, expression, expression2, bindings);
            }
        },
        BooleanExpression::StartsWith { expression, .. } => {
            if let BooleanExpression::StartsWith { expression: expression2, .. } = after {
                lemma_operand_unchanged(before, expression, expression2, bindings);
            }
        },
        BooleanExpression::EndsWith { expression, .. } => {
            if let BooleanExpression::EndsWith { expression: expression2, .. } = after {
                lemma_operand_unchanged(before, expression, expression2, bindings);
            }
        },
        BooleanExpression::IsNull(expression) => {
            if let BooleanExpression::IsNull(expression2) = after {
                lemma_operand_unchanged(before, expression, expression2, bindings);
            }
        },
        BooleanExpression::IsNotNull(expression) => {
            if let BooleanExpression::IsNotNull(expression2) = after {
                lemma_operand_unchanged(before, expression, expression2, bindings);
            }
        },
    }
}

proof fn lemma_pattern_unchanged(
    before: GraphPattern,
    after: GraphPattern,
    bindings: Map<Seq<char>, serde_json::Value>,
)
    requires
        forall|name: Seq<char>| !pattern_mentions(before, name),
        pattern_substituted(before, after, bindings),
    ensures
        pattern_unchanged(before, after),
{
    match before {
        GraphPattern::Node(node) => {
            if let GraphPattern::Node(node2) = after {
                assert forall|name: Seq<char>| !properties_mention(node.properties@, name) by {
                    assert(!pattern_mentions(before, name));
                }
                lemma_properties_unchanged(node.properties@, node2.properties@, bindings);
            }
        },
        GraphPattern::Path(path) => {
            if let GraphPattern::Path(path2) = after {
                assert forall|name: Seq<char>|
                    !properties_mention(path.start_node.properties@, name) by {
                    assert(!pattern_mentions(before, name));
                }
                lemma_properties_unchanged(path.start_node.properties@, path2.start_node.properties@, bindings);
                assert forall|i: int| 0 <= i < path.segments@.len() implies segment_unchanged(path.segments@[i], #[trigger] path2.segments@[i]) by {
                    let segment = path.segments@[i];
                    let segment2 = path2.segments@[i];
                    assert forall|name: Seq<char>|
                        !properties_mention(segment.relationship.properties@, name)
                            && !properties_mention(segment.end_node.properties@, name) by {
                        assert(!pattern_mentions(before, name));
                        assert(!segment_mentions(segment, name));
                    }
                    lemma_properties_unchanged(
                        segment.relationship.properties@,
                        segment2.relationship.properties@,
                        bindings
                    );
                    lemma_properties_unchanged(segment.end_node.properties@, segment2.end_node.properties@, bindings);
                }
            }
        },
    }
}

proof fn lemma_readings_unchanged(
    before: Seq<ReadingClause>,
    after: Seq<ReadingClause>,
    bindings: Map<Seq<char>, serde_json::Value>,
)
    requires
        forall|name: Seq<char>| !readings_mention(before, name),
        readings_substituted(before, after, bindings),
    ensures
        readings_unchanged(before, after),
{
    assert forall|i: int| 0 <= i < before.len() implies reading_unchanged(before[i], #[trigger] after[i]) by {
        assert forall|name: Seq<char>| !reading_mentions(before[i], name) by {
            assert(!readings_mention(before, name));
        }
        match before[i] {
            ReadingClause::Match(clause) => {
                if let ReadingClause::Match(clause2) = after[i] {
                    assert forall|k: int|
                        0 <= k < clause.patterns@.len() implies pattern_unchanged(clause.patterns@[k], #[trigger] clause2.patterns@[k]) by {
                        assert forall|name: Seq<char>|
                            !pattern_mentions(clause.patterns@[k], name) by {
                            assert(!reading_mentions(before[i], name));
                        }
                        lemma_pattern_unchanged(clause.patterns@[k], clause2.patterns@[k], bindings);
                    }
                }
            },
            ReadingClause::Unwind(clause) => {
                if let ReadingClause::Unwind(clause2) = after[i] {
                    assert forall|name: Seq<char>| !value_mentions(clause.expression, name) by {
                        assert(!reading_mentions(before[i], name));
                    }
                    lemma_value_unchanged(clause.expression, clause2.expression, bindings);
                }
            },
        }
    }
}

proof fn lemma_where_unchanged(
    before: Option<WhereClause>,
    after: Option<WhereClause>,
    bindings: Map<Seq<char>, serde_json::Value>,
)
    requires
        forall|name: Seq<char>| !optional_where_mentions(before, name),
        optional_where_substituted(before, after, bindings),
    ensures
        optional_where_unchanged(before, after),
{
    if let Some(inner) = before {
        assert forall|name: Seq<char>| !boolean_mentions(inner.expression, name) by {
            assert(!optional_where_mentions(before, name));
        }
        lemma_boolean_unchanged(inner.expression, after.unwrap().expression, bindings);
    }
}

proof fn lemma_items_unchanged(
    before: Seq<ReturnItem>,
    after: Seq<ReturnItem>,
    bindings: Map<Seq<char>, serde_json::Value>,
)
    requires
        forall|name: Seq<char>| !items_mention(before, name),
        items_substituted(before, after, bindings),
    ensures
        items_unchanged(before, after),
{
    assert forall|i: int| 0 <= i < before.len() implies (#[trigger] after[i]).alias
        == before[i].alias && value_unchanged(before[i].expression, after[i].expression) by {
        assert forall|name: Seq<char>| !value_mentions(before[i].expression, name) by {
            assert(!items_mention(before, name));
        }
        lemma_value_unchanged(before[i].expression, after[i].expression, bindings);
    }
}

proof fn lemma_order_unchanged(
    before: Option<OrderByClause>,
    after: Option<OrderByClause>,
    bindings: Map<Seq<char>, serde_json::Value>,
)
    requires
        forall|name: Seq<char>| !optional_order_mentions(before, name),
        optional_order_substituted(before, after, bindings),
    ensures
        optional_order_unchanged(before, after),
{
    if let Some(inner) = before {
        let inner2 = after.unwrap();
        assert forall|i: int| 0 <= i < inner.items.len() implies (#[trigger] inner2.items[i]).direction
            == inner.items[i].direction && value_unchanged(inner.items[i].expression, inner2.items[i].expression) by {
            assert forall|name: Seq<char>| !value_mentions(inner.items[i].expression, name) by {
                assert(!optional_order_mentions(before, name));
            }
            lemma_value_unchanged(inner.items[i].expression, inner2.items[i].expression, bindings);
        }
    }
}

proof fn lemma_with_unchanged(
    before: Option<WithClause>,
    after: Option<WithClause>,
    bindings: Map<Seq<char>, serde_json::Value>,
)
    requires
        forall|name: Seq<char>| !optional_with_mentions(before, name),
        optional_with_substituted(before, after, bindings),
    ensures
        optional_with_unchanged(before, after),
{
    if let Some(inner) = before {
        assert forall|name: Seq<char>| !items_mention(inner.items@, name) by {
            assert(!optional_with_mentions(before, name));
        }
        assert forall|name: Seq<char>| !optional_order_mentions(inner.order_by, name) by {
            assert(!optional_with_mentions(before, name));
        }
        lemma_items_unchanged(inner.items@, after.unwrap().items@, bindings);
        lemma_order_unchanged(inner.order_by, after.unwrap().order_by, bindings);
    }
}

/// A query that refers to no parameter comes out unchanged, whatever the map
/// binds: what substitution makes of it is the same tree.
pub proof fn law_parameter_free_query_is_unchanged(
    before: CypherQuery,
    after: CypherQuery,
    bindings: Map<Seq<char>, serde_json::Value>,
)
    requires
        query_parameter_free(before),
        query_substituted(before, after, bindings),
    ensures
        query_unchanged(before, after),
{
    assert forall|name: Seq<char>| !readings_mention(before.reading_clauses@, name) by {
        assert(!query_mentions(before, name));
    }
    assert forall|name: Seq<char>| !optional_where_mentions(before.where_clause, name) by {
        assert(!query_mentions(before, name));
    }
    assert forall|name: Seq<char>| !optional_with_mentions(before.with_clause, name) by {
        assert(!query_mentions(before, name));
    }
    assert forall|name: Seq<char>| !readings_mention(before.post_with_reading_clauses@, name) by {
        assert(!query_mentions(before, name));
    }
    assert forall|name: Seq<char>| !optional_where_mentions(before.post_with_where_clause, name) by {
        assert(!query_mentions(before, name));
    }
    assert forall|name: Seq<char>| !items_mention(before.return_clause.items@, name) by {
        assert(!query_mentions(before, name));
    }
    assert forall|name: Seq<char>| !optional_order_mentions(before.order_by, name) by {
        assert(!query_mentions(before, name));
    }
    lemma_readings_unchanged(before.reading_clauses@, after.reading_clauses@, bindings);
    lemma_where_unchanged(before.where_clause, after.where_clause, bindings);
    lemma_with_unchanged(before.with_clause, after.with_clause, bindings);
    lemma_readings_unchanged(
        before.post_with_reading_clauses@,
        after.post_with_reading_clauses@,
        bindings,
    );
    lemma_where_unchanged(before.post_with_where_clause, after.post_with_where_clause, bindings);
    lemma_items_unchanged(before.return_clause.items@, after.return_clause.items@, bindings);
    lemma_order_unchanged(before.order_by, after.order_by, bindings);
}

// A reference to a name that the map does not bind makes substitution fail.

proof fn lemma_properties_unbound(properties: Seq<Property>, bindings: Map<Seq<char>, serde_json::Value>, name: Seq<char>)
    requires
        properties_mention(properties, name),
        !bindings.contains_key(name),
    ensures
        first_failure(property_outcomes(properties, bindings)) is Some,
{
    let i = choose|i: int|
        0 <= i < properties.len() && property_mentions((#[trigger] properties[i]).value, name);
    lemma_first_failure_none(property_outcomes(properties, bindings));
    assert(property_outcomes(properties, bindings)[i] is Some);
}

proof fn lemma_value_unbound(expr: ValueExpression, bindings: Map<Seq<char>, serde_json::Value>, name: Seq<char>)
    requires
        value_mentions(expr, name),
        !bindings.contains_key(name),
    ensures
        value_failure(expr, bindings) is Some,
    decreases expr,
{
    match expr {
        ValueExpression::ScalarFunction { args, .. } => {
            let i = choose|i: int| 0 <= i < args.len() && value_mentions(#[trigger] args[i], name);
            lemma_value_unbound(args[i], bindings, name);
            lemma_first_failure_none(argument_outcomes(expr, bindings));
            assert(argument_outcomes(expr, bindings)[i] is Some);
        },
        ValueExpression::AggregateFunction { args, .. } => {
            let i = choose|i: int| 0 <= i < args.len() && value_mentions(#[trigger] args[i], name);
            lemma_value_unbound(args[i], bindings, name);
            lemma_first_failure_none(argument_outcomes(expr, bindings));
            assert(argument_outcomes(expr, bindings)[i] is Some);
        },
        ValueExpression::Arithmetic { left, right, .. } => {
            if value_mentions(*left, name) {
                lemma_value_unbound(*left, bindings, name);
            } else {
                lemma_value_unbound(*right, bindings, name);
            }
        },
        ValueExpression::VectorDistance { left, right, .. } => {
            if value_mentions(*left, name) {
                lemma_value_unbound(*left, bindings, name);
            } else {
                lemma_value_unbound(*right, bindings, name);
            }
        },
        ValueExpression::VectorSimilarity { left, right, .. } => {
            if value_mentions(*left, name) {
                lemma_value_unbound(*left, bindings, name);
            } else {
                lemma_value_unbound(*right, bindings, name);
            }
        },
        _ => {},
    }
}

proof fn lemma_values_unbound(items: Seq<ValueExpression>, bindings: Map<Seq<char>, serde_json::Value>, name: Seq<char>)
    requires
        values_mention(items, name),
        !bindings.contains_key(name),
    ensures
        first_failure(value_outcomes(items, bindings)) is Some,
{
    let i = choose|i: int| 0 <= i < items.len() && value_mentions(#[trigger] items[i], name);
    lemma_value_unbound(items[i], bindings, name);
    lemma_first_failure_none(value_outcomes(items, bindings));
    assert(value_outcomes(items, bindings)[i] is Some);
}

proof fn lemma_boolean_unbound(expr: BooleanExpression, bindings: Map<Seq<char>, serde_json::Value>, name: Seq<char>)
    requires
        boolean_mentions(expr, name),
        !bindings.contains_key(name),
    ensures
        boolean_failure(expr, bindings) is Some,
    decreases expr,
{
    match expr {
        BooleanExpression::Comparison { left, right, .. } => {
            if value_mentions(left, name) {
                lemma_value_unbound(left, bindings, name);
            } else {
                lemma_value_unbound(right, bindings, name);
            }
        },
        BooleanExpression::And(left, right) => {
            if boolean_mentions(*left, name) {
                lemma_boolean_unbound(*left, bindings, name);
            } else {
                lemma_boolean_unbound(*right, bindings, name);
            }
        },
        BooleanExpression::Or(left, right) => {
            if boolean_mentions(*left, name) {
                lemma_boolean_unbound(*left, bindings, name);
            } else {
                lemma_boolean_unbound(*right, bindings, name);
            }
        },
        BooleanExpression::Not(inner) => {
            lemma_boolean_unbound(*inner, bindings, name);
        },
        BooleanExpression::Exists(_) => {},
        BooleanExpression::In { expression, list } => {
            if value_mentions(expression, name) {
                lemma_value_unbound(expression, bindings, name);
            } else {
                lemma_values_unbound(list@, bindings, name);
            }
        },
        BooleanExpression::Like { expression, .. } => {
            lemma_value_unbound(expression, bindings, name);
        },
        BooleanExpression::ILike { expression, .. } => {
            lemma_value_unbound(expression, bindings, name);
        },
        BooleanExpression::Contains { expression, .. } => {
            lemma_value_unbound(expression, bindings, name);
        },
        BooleanExpression::StartsWith { expression, .. } => {
            lemma_value_unbound(expression, bindings, name);
        },
        BooleanExpression::EndsWith { expression, .. } => {
            lemma_value_unbound(expression, bindings, name);
        },
        BooleanExpression::IsNull(expression) => {
            lemma_value_unbound(expression, bindings, name);
        },
        BooleanExpression::IsNotNull(expression) => {
            lemma_value_unbound(expression, bindings, name);
        },
    }
}

proof fn lemma_segment_unbound(segment: PathSegment, bindings: Map<Seq<char>, serde_json::Value>, name: Seq<char>)
    requires
        segment_mentions(segment, name),
        !bindings.contains_key(name),
    ensures
        segment_failure(segment, bindings) is Some,
{
    if properties_mention(segment.relationship.properties@, name) {
        lemma_properties_unbound(segment.relationship.properties@, bindings, name);
    } else {
        lemma_properties_unbound(segment.end_node.properties@, bindings, name);
    }
}

proof fn lemma_segments_unbound(items: Seq<PathSegment>, bindings: Map<Seq<char>, serde_json::Value>, name: Seq<char>)
    requires
        segments_mention(items, name),
        !bindings.contains_key(name),
    ensures
        first_failure(segment_outcomes(items, bindings)) is Some,
{
    let i = choose|i: int| 0 <= i < items.len() && segment_mentions(#[trigger] items[i], name);
    lemma_segment_unbound(items[i], bindings, name);
    lemma_first_failure_none(segment_outcomes(items, bindings));
    assert(segment_outcomes(items, bindings)[i] is Some);
}

/// A pattern that refers to a name that the map does not bind makes
/// substitution fail.
pub proof fn lemma_pattern_unbound(pattern: GraphPattern, bindings: Map<Seq<char>, serde_json::Value>, name: Seq<char>)
    requires
        pattern_mentions(pattern, name),
        !bindings.contains_key(name),
    ensures
        pattern_failure(pattern, bindings) is Some,
{
    match pattern {
        GraphPattern::Node(node) => {
            lemma_properties_unbound(node.properties@, bindings, name);
        },
        GraphPattern::Path(path) => {
            if properties_mention(path.start_node.properties@, name) {
                lemma_properties_unbound(path.start_node.properties@, bindings, name);
            } else {
                lemma_segments_unbound(path.segments@, bindings, name);
            }
        },
    }
}

proof fn lemma_patterns_unbound(items: Seq<GraphPattern>, bindings: Map<Seq<char>, serde_json::Value>, name: Seq<char>)
    requires
        patterns_mention(items, name),
        !bindings.contains_key(name),
    ensures
        first_failure(pattern_outcomes(items, bindings)) is Some,
{
    let i = choose|i: int| 0 <= i < items.len() && pattern_mentions(#[trigger] items[i], name);
    lemma_pattern_unbound(items[i], bindings, name);
    lemma_first_failure_none(pattern_outcomes(items, bindings));
    assert(pattern_outcomes(items, bindings)[i] is Some);
}

proof fn lemma_reading_unbound(clause: ReadingClause, bindings: Map<Seq<char>, serde_json::Value>, name: Seq<char>)
    requires
        reading_mentions(clause, name),
        !bindings.contains_key(name),
    ensures
        reading_failure(clause, bindings) is Some,
{
    match clause {
        ReadingClause::Match(clause) => {
            lemma_patterns_unbound(clause.patterns@, bindings, name);
        },
        ReadingClause::Unwind(clause) => {
            lemma_value_unbound(clause.expression, bindings, name);
        },
    }
}

proof fn lemma_readings_unbound(items: Seq<ReadingClause>, bindings: Map<Seq<char>, serde_json::Value>, name: Seq<char>)
    requires
        readings_mention(items, name),
        !bindings.contains_key(name),
    ensures
        first_failure(reading_outcomes(items, bindings)) is Some,
{
    let i = choose|i: int| 0 <= i < items.len() && reading_mentions(#[trigger] items[i], name);
    lemma_reading_unbound(items[i], bindings, name);
    lemma_first_failure_none(reading_outcomes(items, bindings));
    assert(reading_outcomes(items, bindings)[i] is Some);
}

proof fn lemma_items_unbound(items: Seq<ReturnItem>, bindings: Map<Seq<char>, serde_json::Value>, name: Seq<char>)
    requires
        items_mention(items, name),
        !bindings.contains_key(name),
    ensures
        first_failure(item_outcomes(items, bindings)) is Some,
{
    let i = choose|i: int|
        0 <= i < items.len() && value_mentions((#[trigger] items[i]).expression, name);
    lemma_value_unbound(items[i].expression, bindings, name);
    lemma_first_failure_none(item_outcomes(items, bindings));
    assert(item_outcomes(items, bindings)[i] is Some);
}

proof fn lemma_order_unbound(clause: Option<OrderByClause>, bindings: Map<Seq<char>, serde_json::Value>, name: Seq<char>)
    requires
        optional_order_mentions(clause, name),
        !bindings.contains_key(name),
    ensures
        optional_order_failure(clause, bindings) is Some,
{
    let inner = clause.unwrap();
    let i = choose|i: int|
        0 <= i < inner.items.len() && value_mentions((#[trigger] inner.items[i]).expression, name);
    lemma_value_unbound(inner.items[i].expression, bindings, name);
    lemma_first_failure_none(order_outcomes(inner.items@, bindings));
    assert(order_outcomes(inner.items@, bindings)[i] is Some);
}

/// Missing-parameter detection: a query that refers to a name that the map
/// does not bind makes substitution fail.
pub proof fn law_unbound_reference_fails(query: CypherQuery, bindings: Map<Seq<char>, serde_json::Value>, name: Seq<char>)
    requires
        query_mentions(query, name),
        !bindings.contains_key(name),
    ensures
        query_failure(query, bindings) is Some,
{
    if readings_mention(query.reading_clauses@, name) {
        lemma_readings_unbound(query.reading_clauses@, bindings, name);
    } else if optional_where_mentions(query.where_clause, name) {
        lemma_boolean_unbound(query.where_clause.unwrap().expression, bindings, name);
    } else if optional_with_mentions(query.with_clause, name) {
        let clause = query.with_clause.unwrap();
        if items_mention(clause.items@, name) {
            lemma_items_unbound(clause.items@, bindings, name);
        } else {
            lemma_order_unbound(clause.order_by, bindings, name);
        }
    } else if readings_mention(query.post_with_reading_clauses@, name) {
        lemma_readings_unbound(query.post_with_reading_clauses@, bindings, name);
    } else if optional_where_mentions(query.post_with_where_clause, name) {
        lemma_boolean_unbound(query.post_with_where_clause.unwrap().expression, bindings, name);
    } else if items_mention(query.return_clause.items@, name) {
        lemma_items_unbound(query.return_clause.items@, bindings, name);
    } else {
        lemma_order_unbound(query.order_by, bindings, name);
    }
}

/// A lone reference to a name that the map does not bind fails as a missing
/// parameter of that name, in an expression and in a property alike.
pub proof fn law_missing_parameter_is_named(name: Seq<char>, bindings: Map<Seq<char>, serde_json::Value>)
    requires
        !bindings.contains_key(name),
    ensures
        parameter_failure(name, bindings) == Some(
            Failure { kind: ErrorKind::MissingParameter, parameter: name },
        ),
        scalar_parameter_failure(name, bindings) == Some(
            Failure { kind: ErrorKind::MissingParameter, parameter: name },
        ),
{
}

/// Totality for a single pattern: where the map binds every parameter that
/// the pattern refers to to a scalar, substitution reports no failure, and
/// what it makes of the pattern refers to no parameter.
pub proof fn law_pattern_totality(before: GraphPattern, after: GraphPattern, bindings: Map<Seq<char>, serde_json::Value>)
    requires
        forall|name: Seq<char>| pattern_mentions(before, name) ==> scalar_bound(name, bindings),
    ensures
        pattern_failure(before, bindings) is None,
        pattern_substituted(before, after, bindings) ==> forall|name: Seq<char>|
            !pattern_mentions(after, name),
{
    lemma_pattern_blame(before, bindings);
    if pattern_substituted(before, after, bindings) {
        assert forall|name: Seq<char>| !pattern_mentions(after, name) by {
            lemma_pattern_resolved(before, after, bindings, name);
        }
    }
}

/// Fail-fast across clauses: where the reading clauses succeed and the filter
/// fails, the filter's failure is the one reported, whatever the later clauses
/// hold.
pub proof fn law_filter_fails_before_later_clauses(query: CypherQuery, bindings: Map<Seq<char>, serde_json::Value>)
    requires
        first_failure(reading_outcomes(query.reading_clauses@, bindings)) is None,
        optional_where_failure(query.where_clause, bindings) is Some,
    ensures
        query_failure(query, bindings) == optional_where_failure(query.where_clause, bindings),
{
}

/// Fail-fast within a list: where the expressions before `i` succeed and the
/// one at `i` fails, its failure is the one reported, whatever the later ones
/// hold.
pub proof fn law_first_failing_expression_is_reported(
    items: Seq<ValueExpression>,
    i: int,
    bindings: Map<Seq<char>, serde_json::Value>,
)
    requires
        0 <= i < items.len(),
        forall|j: int| 0 <= j < i ==> value_failure(items[j], bindings) is None,
        value_failure(items[i], bindings) is Some,
    ensures
        first_failure(value_outcomes(items, bindings)) == value_failure(items[i], bindings),
{
    lemma_first_failure_at(value_outcomes(items, bindings), i);
}

/// Whether substitution succeeds or stops at a failure, no clause is added,
/// dropped or moved: the lists of clauses and of projected expressions keep
/// their lengths, and each optional clause is present exactly when it was.
pub proof fn law_clauses_are_kept(
    before: CypherQuery,
    after: CypherQuery,
    bindings: Map<Seq<char>, serde_json::Value>,
)
    requires
        query_substituted(before, after, bindings) || (query_failure(before, bindings) is Some
            && query_interrupted(before, after, bindings)),
    ensures
        after.reading_clauses@.len() == before.reading_clauses@.len(),
        after.post_with_reading_clauses@.len() == before.post_with_reading_clauses@.len(),
        after.return_clause.items@.len() == before.return_clause.items@.len(),
        after.where_clause is Some <==> before.where_clause is Some,
        after.with_clause is Some <==> before.with_clause is Some,
        after.post_with_where_clause is Some <==> before.post_with_where_clause is Some,
        after.order_by is Some <==> before.order_by is Some,
        after.limit == before.limit,
        after.skip == before.skip,
{
}

} // verus!
