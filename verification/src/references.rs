//! Where a tree refers to a parameter.
//!
//! A reference is a property value or a value expression that names a
//! parameter, in a position that substitution visits. A literal is a leaf of
//! an expression: what it holds is not visited.

use vstd::prelude::*;
use crate::ast::{
    BooleanExpression, CypherQuery, GraphPattern, NodePattern, OrderByClause, PathPattern,
    PathSegment, Property, PropertyValue, ReadingClause, RelationshipPattern, ReturnItem,
    ValueExpression, WhereClause, WithClause,
};

verus! {

pub open spec fn property_mentions(value: PropertyValue, name: Seq<char>) -> bool {
    match value {
        PropertyValue::Parameter(n) => n@ == name,
        _ => false,
    }
}

pub open spec fn properties_mention(properties: Seq<Property>, name: Seq<char>) -> bool {
    exists|i: int|
        0 <= i < properties.len() && property_mentions((#[trigger] properties[i]).value, name)
}

pub open spec fn value_mentions(expr: ValueExpression, name: Seq<char>) -> bool
    decreases expr,
{
    match expr {
        ValueExpression::Parameter(n) => n@ == name,
        ValueExpression::ScalarFunction { args, .. } => exists|i: int|
            0 <= i < args.len() && value_mentions(#[trigger] args[i], name),
        ValueExpression::AggregateFunction { args, .. } => exists|i: int|
            0 <= i < args.len() && value_mentions(#[trigger] args[i], name),
        ValueExpression::Arithmetic { left, right, .. } => value_mentions(*left, name)
            || value_mentions(*right, name),
        ValueExpression::VectorDistance { left, right, .. } => value_mentions(*left, name)
            || value_mentions(*right, name),
        ValueExpression::VectorSimilarity { left, right, .. } => value_mentions(*left, name)
            || value_mentions(*right, name),
        _ => false,
    }
}

pub open spec fn values_mention(items: Seq<ValueExpression>, name: Seq<char>) -> bool {
    exists|i: int| 0 <= i < items.len() && value_mentions(#[trigger] items[i], name)
}

pub open spec fn boolean_mentions(expr: BooleanExpression, name: Seq<char>) -> bool
    decreases expr,
{
    match expr {
        BooleanExpression::Comparison { left, right, .. } => value_mentions(left, name)
            || value_mentions(right, name),
        BooleanExpression::And(left, right) => boolean_mentions(*left, name) || boolean_mentions(
            *right,
            name,
        ),
        BooleanExpression::Or(left, right) => boolean_mentions(*left, name) || boolean_mentions(
            *right,
            name,
        ),
        BooleanExpression::Not(inner) => boolean_mentions(*inner, name),
        BooleanExpression::Exists(_) => false,
        BooleanExpression::In { expression, list } => value_mentions(expression, name)
            || values_mention(list@, name),
        BooleanExpression::Like { expression, .. } => value_mentions(expression, name),
        BooleanExpression::ILike { expression, .. } => value_mentions(expression, name),
        BooleanExpression::Contains { expression, .. } => value_mentions(expression, name),
        BooleanExpression::StartsWith { expression, .. } => value_mentions(expression, name),
        BooleanExpression::EndsWith { expression, .. } => value_mentions(expression, name),
        BooleanExpression::IsNull(expression) => value_mentions(expression, name),
        BooleanExpression::IsNotNull(expression) => value_mentions(expression, name),
    }
}

pub open spec fn node_mentions(node: NodePattern, name: Seq<char>) -> bool {
    properties_mention(node.properties@, name)
}

pub open spec fn relationship_mentions(relationship: RelationshipPattern, name: Seq<char>) -> bool {
    properties_mention(relationship.properties@, name)
}

pub open spec fn segment_mentions(segment: PathSegment, name: Seq<char>) -> bool {
    relationship_mentions(segment.relationship, name) || node_mentions(segment.end_node, name)
}

pub open spec fn segments_mention(segments: Seq<PathSegment>, name: Seq<char>) -> bool {
    exists|i: int| 0 <= i < segments.len() && segment_mentions(#[trigger] segments[i], name)
}

pub open spec fn path_mentions(path: PathPattern, name: Seq<char>) -> bool {
    node_mentions(path.start_node, name) || segments_mention(path.segments@, name)
}

pub open spec fn pattern_mentions(pattern: GraphPattern, name: Seq<char>) -> bool {
    match pattern {
        GraphPattern::Node(node) => node_mentions(node, name),
        GraphPattern::Path(path) => path_mentions(path, name),
    }
}

pub open spec fn patterns_mention(patterns: Seq<GraphPattern>, name: Seq<char>) -> bool {
    exists|i: int| 0 <= i < patterns.len() && pattern_mentions(#[trigger] patterns[i], name)
}

pub open spec fn reading_mentions(clause: ReadingClause, name: Seq<char>) -> bool {
    match clause {
        ReadingClause::Match(clause) => patterns_mention(clause.patterns@, name),
        ReadingClause::Unwind(clause) => value_mentions(clause.expression, name),
    }
}

pub open spec fn readings_mention(clauses: Seq<ReadingClause>, name: Seq<char>) -> bool {
    exists|i: int| 0 <= i < clauses.len() && reading_mentions(#[trigger] clauses[i], name)
}

pub open spec fn optional_where_mentions(clause: Option<WhereClause>, name: Seq<char>) -> bool {
    match clause {
        Some(clause) => boolean_mentions(clause.expression, name),
        None => false,
    }
}

pub open spec fn items_mention(items: Seq<ReturnItem>, name: Seq<char>) -> bool {
    exists|i: int| 0 <= i < items.len() && value_mentions((#[trigger] items[i]).expression, name)
}

pub open spec fn order_mentions(clause: OrderByClause, name: Seq<char>) -> bool {
    exists|i: int|
        0 <= i < clause.items.len() && value_mentions((#[trigger] clause.items[i]).expression, name)
}

pub open spec fn optional_order_mentions(clause: Option<OrderByClause>, name: Seq<char>) -> bool {
    match clause {
        Some(clause) => order_mentions(clause, name),
        None => false,
    }
}

pub open spec fn with_mentions(clause: WithClause, name: Seq<char>) -> bool {
    items_mention(clause.items@, name) || optional_order_mentions(clause.order_by, name)
}

pub open spec fn optional_with_mentions(clause: Option<WithClause>, name: Seq<char>) -> bool {
    match clause {
        Some(clause) => with_mentions(clause, name),
        None => false,
    }
}

/// Whether some clause of the query refers to the parameter `name`.
pub open spec fn query_mentions(query: CypherQuery, name: Seq<char>) -> bool {
    ||| readings_mention(query.reading_clauses@, name)
    ||| optional_where_mentions(query.where_clause, name)
    ||| optional_with_mentions(query.with_clause, name)
    ||| readings_mention(query.post_with_reading_clauses@, name)
    ||| optional_where_mentions(query.post_with_where_clause, name)
    ||| items_mention(query.return_clause.items@, name)
    ||| optional_order_mentions(query.order_by, name)
}

/// Whether the query refers to no parameter at all.
pub open spec fn query_parameter_free(query: CypherQuery) -> bool {
    forall|name: Seq<char>| !query_mentions(query, name)
}

} // verus!
