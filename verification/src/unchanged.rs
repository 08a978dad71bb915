//! When two trees are the same tree.
//!
//! Two vectors with the same elements may still differ in what they have
//! allocated, so sameness is stated node by node: the same variant, the same
//! names and operators, and the same children in the same order.

use vstd::prelude::*;
use crate::ast::{
    BooleanExpression, CypherQuery, GraphPattern, NodePattern, OrderByClause, PathPattern,
    PathSegment, Property, ReadingClause, RelationshipPattern, ReturnClause, ReturnItem,
    ValueExpression, WhereClause, WithClause,
};

verus! {

/// Whether two value expressions are the same tree: the same operators,
/// functions and leaves, the arguments in the same order.
pub open spec fn value_unchanged(before: ValueExpression, after: ValueExpression) -> bool
    decreases before,
{
    match before {
        ValueExpression::ScalarFunction { name, args } => match after {
            ValueExpression::ScalarFunction { name: name2, args: args2 } => name2 == name
                && args2.len() == args.len() && forall|i: int|
                0 <= i < args.len() ==> value_unchanged(args[i], #[trigger] args2[i]),
            _ => false,
        },
        ValueExpression::AggregateFunction { name, args, distinct } => match after {
            ValueExpression::AggregateFunction { name: name2, args: args2, distinct: distinct2 } => name2
                == name && distinct2 == distinct && args2.len() == args.len() && forall|i: int|
                0 <= i < args.len() ==> value_unchanged(args[i], #[trigger] args2[i]),
            _ => false,
        },
        ValueExpression::Arithmetic { left, operator, right } => match after {
            ValueExpression::Arithmetic { left: left2, operator: operator2, right: right2 } => operator2
                == operator && value_unchanged(*left, *left2) && value_unchanged(*right, *right2),
            _ => false,
        },
        ValueExpression::VectorDistance { left, right, metric } => match after {
            ValueExpression::VectorDistance { left: left2, right: right2, metric: metric2 } => metric2
                == metric && value_unchanged(*left, *left2) && value_unchanged(*right, *right2),
            _ => false,
        },
        ValueExpression::VectorSimilarity { left, right, metric } => match after {
            ValueExpression::VectorSimilarity { left: left2, right: right2, metric: metric2 } => metric2
                == metric && value_unchanged(*left, *left2) && value_unchanged(*right, *right2),
            _ => false,
        },
        _ => after == before,
    }
}

/// Whether two lists hold the same expressions in the same order.
pub open spec fn values_unchanged(before: Seq<ValueExpression>, after: Seq<ValueExpression>) -> bool {
    after.len() == before.len() && forall|i: int|
        0 <= i < before.len() ==> value_unchanged(before[i], #[trigger] after[i])
}

/// Whether two boolean expressions are the same tree.
pub open spec fn boolean_unchanged(before: BooleanExpression, after: BooleanExpression) -> bool
    decreases before,
{
    match before {
        BooleanExpression::Comparison { left, operator, right } => match after {
            BooleanExpression::Comparison { left: left2, operator: operator2, right: right2 } => operator2
                == operator && value_unchanged(left, left2) && value_unchanged(right, right2),
            _ => false,
        },
        BooleanExpression::And(left, right) => match after {
            BooleanExpression::And(left2, right2) => boolean_unchanged(*left, *left2)
                && boolean_unchanged(*right, *right2),
            _ => false,
        },
        BooleanExpression::Or(left, right) => match after {
            BooleanExpression::Or(left2, right2) => boolean_unchanged(*left, *left2)
                && boolean_unchanged(*right, *right2),
            _ => false,
        },
        BooleanExpression::Not(inner) => match after {
            BooleanExpression::Not(inner2) => boolean_unchanged(*inner, *inner2),
            _ => false,
        },
        BooleanExpression::Exists(_) => after == before,
        BooleanExpression::In { expression, list } => match after {
            BooleanExpression::In { expression: expression2, list: list2 } => value_unchanged(expression, expression2) && values_unchanged(list@, list2@),
            _ => false,
        },
        BooleanExpression::Like { expression, pattern } => match after {
            BooleanExpression::Like { expression: expression2, pattern: pattern2 } => pattern2
                == pattern && value_unchanged(expression, expression2),
            _ => false,
        },
        BooleanExpression::ILike { expression, pattern } => match after {
            BooleanExpression::ILike { expression: expression2, pattern: pattern2 } => pattern2
                == pattern && value_unchanged(expression, expression2),
            _ => false,
        },
        BooleanExpression::Contains { expression, substring } => match after {
            BooleanExpression::Contains { expression: expression2, substring: substring2 } => substring2
                == substring && value_unchanged(expression, expression2),
            _ => false,
        },
        BooleanExpression::StartsWith { expression, prefix } => match after {
            BooleanExpression::StartsWith { expression: expression2, prefix: prefix2 } => prefix2
                == prefix && value_unchanged(expression, expression2),
            _ => false,
        },
        BooleanExpression::EndsWith { expression, suffix } => match after {
            BooleanExpression::EndsWith { expression: expression2, suffix: suffix2 } => suffix2
                == suffix && value_unchanged(expression, expression2),
            _ => false,
        },
        BooleanExpression::IsNull(expression) => match after {
            BooleanExpression::IsNull(expression2) => value_unchanged(expression, expression2),
            _ => false,
        },
        BooleanExpression::IsNotNull(expression) => match after {
            BooleanExpression::IsNotNull(expression2) => value_unchanged(expression, expression2),
            _ => false,
        },
    }
}

/// Whether two property mappings hold the same keys with the same values, in
/// the same order.
pub open spec fn properties_unchanged(before: Seq<Property>, after: Seq<Property>) -> bool {
    after.len() == before.len() && forall|i: int|
        0 <= i < before.len() ==> (#[trigger] after[i]).key == before[i].key
            && after[i].value == before[i].value
}

pub open spec fn node_unchanged(before: NodePattern, after: NodePattern) -> bool {
    after.variable == before.variable && after.labels == before.labels
        && properties_unchanged(before.properties@, after.properties@)
}

pub open spec fn relationship_unchanged(before: RelationshipPattern, after: RelationshipPattern) -> bool {
    after.variable == before.variable && after.types == before.types && after.direction
        == before.direction && properties_unchanged(before.properties@, after.properties@)
}

pub open spec fn segment_unchanged(before: PathSegment, after: PathSegment) -> bool {
    relationship_unchanged(before.relationship, after.relationship)
        && node_unchanged(before.end_node, after.end_node)
}

pub open spec fn segments_unchanged(before: Seq<PathSegment>, after: Seq<PathSegment>) -> bool {
    after.len() == before.len() && forall|i: int|
        0 <= i < before.len() ==> segment_unchanged(before[i], #[trigger] after[i])
}

pub open spec fn path_unchanged(before: PathPattern, after: PathPattern) -> bool {
    node_unchanged(before.start_node, after.start_node)
        && segments_unchanged(before.segments@, after.segments@)
}

pub open spec fn pattern_unchanged(before: GraphPattern, after: GraphPattern) -> bool {
    match before {
        GraphPattern::Node(node) => match after {
            GraphPattern::Node(node2) => node_unchanged(node, node2),
            _ => false,
        },
        GraphPattern::Path(path) => match after {
            GraphPattern::Path(path2) => path_unchanged(path, path2),
            _ => false,
        },
    }
}

pub open spec fn patterns_unchanged(before: Seq<GraphPattern>, after: Seq<GraphPattern>) -> bool {
    after.len() == before.len() && forall|i: int|
        0 <= i < before.len() ==> pattern_unchanged(before[i], #[trigger] after[i])
}

pub open spec fn reading_unchanged(before: ReadingClause, after: ReadingClause) -> bool {
    match before {
        ReadingClause::Match(clause) => match after {
            ReadingClause::Match(clause2) => patterns_unchanged(clause.patterns@, clause2.patterns@),
            _ => false,
        },
        ReadingClause::Unwind(clause) => match after {
            ReadingClause::Unwind(clause2) => clause2.alias == clause.alias
                && value_unchanged(clause.expression, clause2.expression),
            _ => false,
        },
    }
}

pub open spec fn readings_unchanged(before: Seq<ReadingClause>, after: Seq<ReadingClause>) -> bool {
    after.len() == before.len() && forall|i: int|
        0 <= i < before.len() ==> reading_unchanged(before[i], #[trigger] after[i])
}

pub open spec fn where_unchanged(before: WhereClause, after: WhereClause) -> bool {
    boolean_unchanged(before.expression, after.expression)
}

pub open spec fn optional_where_unchanged(before: Option<WhereClause>, after: Option<WhereClause>) -> bool {
    match before {
        Some(clause) => after is Some && where_unchanged(clause, after.unwrap()),
        None => after is None,
    }
}

pub open spec fn items_unchanged(before: Seq<ReturnItem>, after: Seq<ReturnItem>) -> bool {
    after.len() == before.len() && forall|i: int|
        0 <= i < before.len() ==> (#[trigger] after[i]).alias == before[i].alias
            && value_unchanged(before[i].expression, after[i].expression)
}

pub open spec fn order_unchanged(before: OrderByClause, after: OrderByClause) -> bool {
    after.items.len() == before.items.len() && forall|i: int|
        0 <= i < before.items.len() ==> (#[trigger] after.items[i]).direction
            == before.items[i].direction
                && value_unchanged(before.items[i].expression, after.items[i].expression)
}

pub open spec fn optional_order_unchanged(before: Option<OrderByClause>, after: Option<OrderByClause>) -> bool {
    match before {
        Some(clause) => after is Some && order_unchanged(clause, after.unwrap()),
        None => after is None,
    }
}

pub open spec fn return_unchanged(before: ReturnClause, after: ReturnClause) -> bool {
    after.distinct == before.distinct && items_unchanged(before.items@, after.items@)
}

pub open spec fn with_unchanged(before: WithClause, after: WithClause) -> bool {
    after.limit == before.limit && items_unchanged(before.items@, after.items@)
        && optional_order_unchanged(before.order_by, after.order_by)
}

pub open spec fn optional_with_unchanged(before: Option<WithClause>, after: Option<WithClause>) -> bool {
    match before {
        Some(clause) => after is Some && with_unchanged(clause, after.unwrap()),
        None => after is None,
    }
}

/// Whether two queries are the same tree: the same clauses in the same order,
/// each holding the same patterns and expressions.
pub open spec fn query_unchanged(before: CypherQuery, after: CypherQuery) -> bool {
    &&& readings_unchanged(before.reading_clauses@, after.reading_clauses@)
    &&& optional_where_unchanged(before.where_clause, after.where_clause)
    &&& optional_with_unchanged(before.with_clause, after.with_clause)
    &&& readings_unchanged(before.post_with_reading_clauses@, after.post_with_reading_clauses@)
    &&& optional_where_unchanged(before.post_with_where_clause, after.post_with_where_clause)
    &&& return_unchanged(before.return_clause, after.return_clause)
    &&& optional_order_unchanged(before.order_by, after.order_by)
    &&& after.limit == before.limit
    &&& after.skip == before.skip
}

} // verus!
