//! What substitution means for patterns, clauses and whole queries.

use vstd::prelude::*;
use crate::ast::{
    CypherQuery, GraphPattern, NodePattern, OrderByClause, OrderByItem, PathPattern, PathSegment,
    Property, ReadingClause, RelationshipPattern, ReturnClause, ReturnItem, WhereClause, WithClause,
};
use crate::error::Failure;
use crate::model::{
    boolean_failure, boolean_interrupted, boolean_substituted, first_failure, property_failure,
    property_interrupted, property_substituted, then_failure, value_failure, value_interrupted,
    value_substituted,
};

verus! {

/// Whether the keys of a property mapping are pairwise distinct.
pub open spec fn keys_distinct(properties: Seq<Property>) -> bool {
    forall|i: int, j: int|
        0 <= i < j < properties.len() ==> (#[trigger] properties[i]).key@ != (
        #[trigger] properties[j]).key@
}

pub open spec fn property_outcomes(
    properties: Seq<Property>,
    bindings: Map<Seq<char>, serde_json::Value>,
) -> Seq<Option<Failure>> {
    Seq::new(properties.len(), |i: int| property_failure(properties[i].value, bindings))
}

/// Whether `after` holds the keys of `before`, in the same order, each with
/// the value that substitution makes of its value.
pub open spec fn properties_substituted(
    before: Seq<Property>,
    after: Seq<Property>,
    bindings: Map<Seq<char>, serde_json::Value>,
) -> bool {
    after.len() == before.len() && forall|i: int|
        0 <= i < before.len() ==> (#[trigger] after[i]).key == before[i].key && property_substituted(
            before[i].value,
            after[i].value,
            bindings,
        )
}

pub open spec fn node_failure(
    node: NodePattern,
    bindings: Map<Seq<char>, serde_json::Value>,
) -> Option<Failure> {
    first_failure(property_outcomes(node.properties@, bindings))
}

pub open spec fn node_substituted(
    before: NodePattern,
    after: NodePattern,
    bindings: Map<Seq<char>, serde_json::Value>,
) -> bool {
    after.variable == before.variable && after.labels == before.labels && properties_substituted(
        before.properties@,
        after.properties@,
        bindings,
    )
}

pub open spec fn relationship_failure(
    relationship: RelationshipPattern,
    bindings: Map<Seq<char>, serde_json::Value>,
) -> Option<Failure> {
    first_failure(property_outcomes(relationship.properties@, bindings))
}

pub open spec fn relationship_substituted(
    before: RelationshipPattern,
    after: RelationshipPattern,
    bindings: Map<Seq<char>, serde_json::Value>,
) -> bool {
    after.variable == before.variable && after.types == before.types && after.direction
        == before.direction && properties_substituted(
        before.properties@,
        after.properties@,
        bindings,
    )
}

/// A segment's relationship is visited before its end node.
pub open spec fn segment_failure(
    segment: PathSegment,
    bindings: Map<Seq<char>, serde_json::Value>,
) -> Option<Failure> {
    then_failure(
        relationship_failure(segment.relationship, bindings),
        node_failure(segment.end_node, bindings),
    )
}

pub open spec fn segment_substituted(
    before: PathSegment,
    after: PathSegment,
    bindings: Map<Seq<char>, serde_json::Value>,
) -> bool {
    relationship_substituted(before.relationship, after.relationship, bindings) && node_substituted(
        before.end_node,
        after.end_node,
        bindings,
    )
}

pub open spec fn segment_outcomes(
    segments: Seq<PathSegment>,
    bindings: Map<Seq<char>, serde_json::Value>,
) -> Seq<Option<Failure>> {
    Seq::new(segments.len(), |i: int| segment_failure(segments[i], bindings))
}

pub open spec fn segments_substituted(
    before: Seq<PathSegment>,
    after: Seq<PathSegment>,
    bindings: Map<Seq<char>, serde_json::Value>,
) -> bool {
    after.len() == before.len() && forall|i: int|
        0 <= i < before.len() ==> segment_substituted(before[i], #[trigger] after[i], bindings)
}

/// A path's start node is visited before its segments.
pub open spec fn path_failure(
    path: PathPattern,
    bindings: Map<Seq<char>, serde_json::Value>,
) -> Option<Failure> {
    then_failure(
        node_failure(path.start_node, bindings),
        first_failure(segment_outcomes(path.segments@, bindings)),
    )
}

pub open spec fn path_substituted(
    before: PathPattern,
    after: PathPattern,
    bindings: Map<Seq<char>, serde_json::Value>,
) -> bool {
    node_substituted(before.start_node, after.start_node, bindings) && segments_substituted(
        before.segments@,
        after.segments@,
        bindings,
    )
}

pub open spec fn pattern_failure(
    pattern: GraphPattern,
    bindings: Map<Seq<char>, serde_json::Value>,
) -> Option<Failure> {
    match pattern {
        GraphPattern::Node(node) => node_failure(node, bindings),
        GraphPattern::Path(path) => path_failure(path, bindings),
    }
}

pub open spec fn pattern_substituted(
    before: GraphPattern,
    after: GraphPattern,
    bindings: Map<Seq<char>, serde_json::Value>,
) -> bool {
    match before {
        GraphPattern::Node(node) => match after {
            GraphPattern::Node(node2) => node_substituted(node, node2, bindings),
            _ => false,
        },
        GraphPattern::Path(path) => match after {
            GraphPattern::Path(path2) => path_substituted(path, path2, bindings),
            _ => false,
        },
    }
}

pub open spec fn pattern_outcomes(
    patterns: Seq<GraphPattern>,
    bindings: Map<Seq<char>, serde_json::Value>,
) -> Seq<Option<Failure>> {
    Seq::new(patterns.len(), |i: int| pattern_failure(patterns[i], bindings))
}

pub open spec fn patterns_substituted(
    before: Seq<GraphPattern>,
    after: Seq<GraphPattern>,
    bindings: Map<Seq<char>, serde_json::Value>,
) -> bool {
    after.len() == before.len() && forall|i: int|
        0 <= i < before.len() ==> pattern_substituted(before[i], #[trigger] after[i], bindings)
}

pub open spec fn reading_failure(
    clause: ReadingClause,
    bindings: Map<Seq<char>, serde_json::Value>,
) -> Option<Failure> {
    match clause {
        ReadingClause::Match(clause) => first_failure(pattern_outcomes(clause.patterns@, bindings)),
        ReadingClause::Unwind(clause) => value_failure(clause.expression, bindings),
    }
}

pub open spec fn reading_substituted(
    before: ReadingClause,
    after: ReadingClause,
    bindings: Map<Seq<char>, serde_json::Value>,
) -> bool {
    match before {
        ReadingClause::Match(clause) => match after {
            ReadingClause::Match(clause2) => patterns_substituted(
                clause.patterns@,
                clause2.patterns@,
                bindings,
            ),
            _ => false,
        },
        ReadingClause::Unwind(clause) => match after {
            ReadingClause::Unwind(clause2) => clause2.alias == clause.alias && value_substituted(
                clause.expression,
                clause2.expression,
                bindings,
            ),
            _ => false,
        },
    }
}

pub open spec fn reading_outcomes(
    clauses: Seq<ReadingClause>,
    bindings: Map<Seq<char>, serde_json::Value>,
) -> Seq<Option<Failure>> {
    Seq::new(clauses.len(), |i: int| reading_failure(clauses[i], bindings))
}

pub open spec fn readings_substituted(
    before: Seq<ReadingClause>,
    after: Seq<ReadingClause>,
    bindings: Map<Seq<char>, serde_json::Value>,
) -> bool {
    after.len() == before.len() && forall|i: int|
        0 <= i < before.len() ==> reading_substituted(before[i], #[trigger] after[i], bindings)
}

pub open spec fn where_failure(
    clause: WhereClause,
    bindings: Map<Seq<char>, serde_json::Value>,
) -> Option<Failure> {
    boolean_failure(clause.expression, bindings)
}

pub open spec fn where_substituted(
    before: WhereClause,
    after: WhereClause,
    bindings: Map<Seq<char>, serde_json::Value>,
) -> bool {
    boolean_substituted(before.expression, after.expression, bindings)
}

pub open spec fn optional_where_failure(
    clause: Option<WhereClause>,
    bindings: Map<Seq<char>, serde_json::Value>,
) -> Option<Failure> {
    match clause {
        Some(clause) => where_failure(clause, bindings),
        None => None,
    }
}

pub open spec fn optional_where_substituted(
    before: Option<WhereClause>,
    after: Option<WhereClause>,
    bindings: Map<Seq<char>, serde_json::Value>,
) -> bool {
    match before {
        Some(clause) => after is Some && where_substituted(clause, after.unwrap(), bindings),
        None => after is None,
    }
}

pub open spec fn item_outcomes(
    items: Seq<ReturnItem>,
    bindings: Map<Seq<char>, serde_json::Value>,
) -> Seq<Option<Failure>> {
    Seq::new(items.len(), |i: int| value_failure(items[i].expression, bindings))
}

/// Whether `after` holds, in the same order and under the same aliases, what
/// substitution makes of the projected expressions of `before`.
pub open spec fn items_substituted(
    before: Seq<ReturnItem>,
    after: Seq<ReturnItem>,
    bindings: Map<Seq<char>, serde_json::Value>,
) -> bool {
    after.len() == before.len() && forall|i: int|
        0 <= i < before.len() ==> (#[trigger] after[i]).alias == before[i].alias && value_substituted(
            before[i].expression,
            after[i].expression,
            bindings,
        )
}

pub open spec fn order_outcomes(
    items: Seq<OrderByItem>,
    bindings: Map<Seq<char>, serde_json::Value>,
) -> Seq<Option<Failure>> {
    Seq::new(items.len(), |i: int| value_failure(items[i].expression, bindings))
}

pub open spec fn order_failure(
    clause: OrderByClause,
    bindings: Map<Seq<char>, serde_json::Value>,
) -> Option<Failure> {
    first_failure(order_outcomes(clause.items@, bindings))
}

pub open spec fn order_substituted(
    before: OrderByClause,
    after: OrderByClause,
    bindings: Map<Seq<char>, serde_json::Value>,
) -> bool {
    after.items.len() == before.items.len() && forall|i: int|
        0 <= i < before.items.len() ==> (#[trigger] after.items[i]).direction
            == before.items[i].direction && value_substituted(
            before.items[i].expression,
            after.items[i].expression,
            bindings,
        )
}

pub open spec fn optional_order_failure(
    clause: Option<OrderByClause>,
    bindings: Map<Seq<char>, serde_json::Value>,
) -> Option<Failure> {
    match clause {
        Some(clause) => order_failure(clause, bindings),
        None => None,
    }
}

pub open spec fn optional_order_substituted(
    before: Option<OrderByClause>,
    after: Option<OrderByClause>,
    bindings: Map<Seq<char>, serde_json::Value>,
) -> bool {
    match before {
        Some(clause) => after is Some && order_substituted(clause, after.unwrap(), bindings),
        None => after is None,
    }
}

pub open spec fn return_failure(
    clause: ReturnClause,
    bindings: Map<Seq<char>, serde_json::Value>,
) -> Option<Failure> {
    first_failure(item_outcomes(clause.items@, bindings))
}

pub open spec fn return_substituted(
    before: ReturnClause,
    after: ReturnClause,
    bindings: Map<Seq<char>, serde_json::Value>,
) -> bool {
    after.distinct == before.distinct && items_substituted(before.items@, after.items@, bindings)
}

/// The projected expressions are visited before the ordering.
pub open spec fn with_failure(
    clause: WithClause,
    bindings: Map<Seq<char>, serde_json::Value>,
) -> Option<Failure> {
    then_failure(
        first_failure(item_outcomes(clause.items@, bindings)),
        optional_order_failure(clause.order_by, bindings),
    )
}

pub open spec fn with_substituted(
    before: WithClause,
    after: WithClause,
    bindings: Map<Seq<char>, serde_json::Value>,
) -> bool {
    after.limit == before.limit && items_substituted(before.items@, after.items@, bindings)
        && optional_order_substituted(before.order_by, after.order_by, bindings)
}

pub open spec fn optional_with_failure(
    clause: Option<WithClause>,
    bindings: Map<Seq<char>, serde_json::Value>,
) -> Option<Failure> {
    match clause {
        Some(clause) => with_failure(clause, bindings),
        None => None,
    }
}

pub open spec fn optional_with_substituted(
    before: Option<WithClause>,
    after: Option<WithClause>,
    bindings: Map<Seq<char>, serde_json::Value>,
) -> bool {
    match before {
        Some(clause) => after is Some && with_substituted(clause, after.unwrap(), bindings),
        None => after is None,
    }
}

/// The failure that substitution in a query reports, if any. The clauses are
/// visited in this order: the reading clauses, the filter, the intermediate
/// projection, the reading clauses after it, their filter, the final
/// projection, the final ordering.
pub open spec fn query_failure(
    query: CypherQuery,
    bindings: Map<Seq<char>, serde_json::Value>,
) -> Option<Failure> {
    then_failure(
        first_failure(reading_outcomes(query.reading_clauses@, bindings)),
        then_failure(
            optional_where_failure(query.where_clause, bindings),
            then_failure(
                optional_with_failure(query.with_clause, bindings),
                then_failure(
                    first_failure(reading_outcomes(query.post_with_reading_clauses@, bindings)),
                    then_failure(
                        optional_where_failure(query.post_with_where_clause, bindings),
                        then_failure(
                            return_failure(query.return_clause, bindings),
                            optional_order_failure(query.order_by, bindings),
                        ),
                    ),
                ),
            ),
        ),
    )
}

/// Whether `after` is what substitution makes of the query `before`: the same
/// clauses in the same order, every parameter reference replaced.
pub open spec fn query_substituted(
    before: CypherQuery,
    after: CypherQuery,
    bindings: Map<Seq<char>, serde_json::Value>,
) -> bool {
    &&& readings_substituted(before.reading_clauses@, after.reading_clauses@, bindings)
    &&& optional_where_substituted(before.where_clause, after.where_clause, bindings)
    &&& optional_with_substituted(before.with_clause, after.with_clause, bindings)
    &&& readings_substituted(
        before.post_with_reading_clauses@,
        after.post_with_reading_clauses@,
        bindings,
    )
    &&& optional_where_substituted(
        before.post_with_where_clause,
        after.post_with_where_clause,
        bindings,
    )
    &&& return_substituted(before.return_clause, after.return_clause, bindings)
    &&& optional_order_substituted(before.order_by, after.order_by, bindings)
    &&& after.limit == before.limit
    &&& after.skip == before.skip
}

/// Whether `after` is the property mapping `before` after a substitution that
/// stopped at its first failure: the values before the failing one are
/// substituted, that one and those after it are as they were, the keys are kept.
pub open spec fn properties_interrupted(
    before: Seq<Property>,
    after: Seq<Property>,
    bindings: Map<Seq<char>, serde_json::Value>,
) -> bool {
    after.len() == before.len() && exists|i: int|
        0 <= i < before.len() && (#[trigger] after[i]).key == before[i].key && property_interrupted(
            before[i].value,
            after[i].value,
            bindings,
        ) && (
        forall|j: int| 0 <= j < i ==> (#[trigger] after[j]).key == before[j].key && property_substituted(
                before[j].value,
                after[j].value,
                bindings,
            ))
            && (forall|j: int| i < j < before.len() ==> #[trigger] after[j] == before[j])
}

pub open spec fn node_interrupted(
    before: NodePattern,
    after: NodePattern,
    bindings: Map<Seq<char>, serde_json::Value>,
) -> bool {
    after.variable == before.variable && after.labels == before.labels && properties_interrupted(
        before.properties@,
        after.properties@,
        bindings,
    )
}

pub open spec fn relationship_interrupted(
    before: RelationshipPattern,
    after: RelationshipPattern,
    bindings: Map<Seq<char>, serde_json::Value>,
) -> bool {
    after.variable == before.variable && after.types == before.types && after.direction
        == before.direction && properties_interrupted(
        before.properties@,
        after.properties@,
        bindings,
    )
}

/// Where the relationship fails, the end node is as it was; else the
/// relationship is substituted and the end node is interrupted.
pub open spec fn segment_interrupted(
    before: PathSegment,
    after: PathSegment,
    bindings: Map<Seq<char>, serde_json::Value>,
) -> bool {
    if relationship_failure(before.relationship, bindings) is Some {
        relationship_interrupted(before.relationship, after.relationship, bindings)
            && after.end_node == before.end_node
    } else {
        relationship_substituted(before.relationship, after.relationship, bindings)
            && node_interrupted(before.end_node, after.end_node, bindings)
    }
}

pub open spec fn segments_interrupted(
    before: Seq<PathSegment>,
    after: Seq<PathSegment>,
    bindings: Map<Seq<char>, serde_json::Value>,
) -> bool {
    after.len() == before.len() && exists|i: int|
        0 <= i < before.len() && segment_interrupted(before[i], #[trigger] after[i], bindings) && (
        forall|j: int| 0 <= j < i ==> segment_substituted(before[j], #[trigger] after[j], bindings))
            && (forall|j: int| i < j < before.len() ==> #[trigger] after[j] == before[j])
}

/// Where the start node fails, the segments are as they were; else the start
/// node is substituted and the segments are interrupted.
pub open spec fn path_interrupted(
    before: PathPattern,
    after: PathPattern,
    bindings: Map<Seq<char>, serde_json::Value>,
) -> bool {
    if node_failure(before.start_node, bindings) is Some {
        node_interrupted(before.start_node, after.start_node, bindings) && after.segments
            == before.segments
    } else {
        node_substituted(before.start_node, after.start_node, bindings) && segments_interrupted(
            before.segments@,
            after.segments@,
            bindings,
        )
    }
}

pub open spec fn pattern_interrupted(
    before: GraphPattern,
    after: GraphPattern,
    bindings: Map<Seq<char>, serde_json::Value>,
) -> bool {
    match before {
        GraphPattern::Node(node) => match after {
            GraphPattern::Node(node2) => node_interrupted(node, node2, bindings),
            _ => false,
        },
        GraphPattern::Path(path) => match after {
            GraphPattern::Path(path2) => path_interrupted(path, path2, bindings),
            _ => false,
        },
    }
}

pub open spec fn patterns_interrupted(
    before: Seq<GraphPattern>,
    after: Seq<GraphPattern>,
    bindings: Map<Seq<char>, serde_json::Value>,
) -> bool {
    after.len() == before.len() && exists|i: int|
        0 <= i < before.len() && pattern_interrupted(before[i], #[trigger] after[i], bindings) && (
        forall|j: int| 0 <= j < i ==> pattern_substituted(before[j], #[trigger] after[j], bindings))
            && (forall|j: int| i < j < before.len() ==> #[trigger] after[j] == before[j])
}

pub open spec fn reading_interrupted(
    before: ReadingClause,
    after: ReadingClause,
    bindings: Map<Seq<char>, serde_json::Value>,
) -> bool {
    match before {
        ReadingClause::Match(clause) => match after {
            ReadingClause::Match(clause2) => patterns_interrupted(
                clause.patterns@,
                clause2.patterns@,
                bindings,
            ),
            _ => false,
        },
        ReadingClause::Unwind(clause) => match after {
            ReadingClause::Unwind(clause2) => clause2.alias == clause.alias && value_interrupted(
                clause.expression,
                clause2.expression,
                bindings,
            ),
            _ => false,
        },
    }
}

pub open spec fn readings_interrupted(
    before: Seq<ReadingClause>,
    after: Seq<ReadingClause>,
    bindings: Map<Seq<char>, serde_json::Value>,
) -> bool {
    after.len() == before.len() && exists|i: int|
        0 <= i < before.len() && reading_interrupted(before[i], #[trigger] after[i], bindings) && (
        forall|j: int| 0 <= j < i ==> reading_substituted(before[j], #[trigger] after[j], bindings))
            && (forall|j: int| i < j < before.len() ==> #[trigger] after[j] == before[j])
}

pub open spec fn where_interrupted(
    before: WhereClause,
    after: WhereClause,
    bindings: Map<Seq<char>, serde_json::Value>,
) -> bool {
    boolean_interrupted(before.expression, after.expression, bindings)
}

pub open spec fn optional_where_interrupted(
    before: Option<WhereClause>,
    after: Option<WhereClause>,
    bindings: Map<Seq<char>, serde_json::Value>,
) -> bool {
    match before {
        Some(clause) => after is Some && where_interrupted(clause, after.unwrap(), bindings),
        None => false,
    }
}

/// Whether `after` holds the projected expressions of `before` after a
/// substitution that stopped at its first failure; the aliases are kept.
pub open spec fn items_interrupted(
    before: Seq<ReturnItem>,
    after: Seq<ReturnItem>,
    bindings: Map<Seq<char>, serde_json::Value>,
) -> bool {
    after.len() == before.len() && exists|i: int|
        0 <= i < before.len() && (#[trigger] after[i]).alias == before[i].alias && value_interrupted(
            before[i].expression,
            after[i].expression,
            bindings,
        ) && (
        forall|j: int| 0 <= j < i ==> (#[trigger] after[j]).alias == before[j].alias && value_substituted(
                before[j].expression,
                after[j].expression,
                bindings,
            ))
            && (forall|j: int| i < j < before.len() ==> #[trigger] after[j] == before[j])
}

pub open spec fn order_items_interrupted(
    before: Seq<OrderByItem>,
    after: Seq<OrderByItem>,
    bindings: Map<Seq<char>, serde_json::Value>,
) -> bool {
    after.len() == before.len() && exists|i: int|
        0 <= i < before.len() && (#[trigger] after[i]).direction == before[i].direction && value_interrupted(
            before[i].expression,
            after[i].expression,
            bindings,
        ) && (
        forall|j: int| 0 <= j < i ==> (#[trigger] after[j]).direction == before[j].direction && value_substituted(
                before[j].expression,
                after[j].expression,
                bindings,
            ))
            && (forall|j: int| i < j < before.len() ==> #[trigger] after[j] == before[j])
}

pub open spec fn order_interrupted(
    before: OrderByClause,
    after: OrderByClause,
    bindings: Map<Seq<char>, serde_json::Value>,
) -> bool {
    order_items_interrupted(before.items@, after.items@, bindings)
}

pub open spec fn optional_order_interrupted(
    before: Option<OrderByClause>,
    after: Option<OrderByClause>,
    bindings: Map<Seq<char>, serde_json::Value>,
) -> bool {
    match before {
        Some(clause) => after is Some && order_interrupted(clause, after.unwrap(), bindings),
        None => false,
    }
}

pub open spec fn return_interrupted(
    before: ReturnClause,
    after: ReturnClause,
    bindings: Map<Seq<char>, serde_json::Value>,
) -> bool {
    after.distinct == before.distinct && items_interrupted(before.items@, after.items@, bindings)
}

/// Where an item fails, the ordering is as it was; else the items are
/// substituted and the ordering is interrupted.
pub open spec fn with_interrupted(
    before: WithClause,
    after: WithClause,
    bindings: Map<Seq<char>, serde_json::Value>,
) -> bool {
    after.limit == before.limit && if first_failure(item_outcomes(before.items@, bindings)) is Some {
        items_interrupted(before.items@, after.items@, bindings) && after.order_by
            == before.order_by
    } else {
        items_substituted(before.items@, after.items@, bindings) && optional_order_interrupted(
            before.order_by,
            after.order_by,
            bindings,
        )
    }
}

pub open spec fn optional_with_interrupted(
    before: Option<WithClause>,
    after: Option<WithClause>,
    bindings: Map<Seq<char>, serde_json::Value>,
) -> bool {
    match before {
        Some(clause) => after is Some && with_interrupted(clause, after.unwrap(), bindings),
        None => false,
    }
}

/// Whether `after` is the query `before` after a substitution that stopped at
/// its first failure: the clauses before the failing one are substituted, the
/// failing clause is interrupted, and the clauses after it are as they were.
/// No clause is added, dropped or moved.
pub open spec fn query_interrupted(
    before: CypherQuery,
    after: CypherQuery,
    bindings: Map<Seq<char>, serde_json::Value>,
) -> bool {
    &&& after.limit == before.limit
    &&& after.skip == before.skip
    &&& if first_failure(reading_outcomes(before.reading_clauses@, bindings)) is Some {
        &&& readings_interrupted(before.reading_clauses@, after.reading_clauses@, bindings)
        &&& after.where_clause == before.where_clause
        &&& after.with_clause == before.with_clause
        &&& after.post_with_reading_clauses == before.post_with_reading_clauses
        &&& after.post_with_where_clause == before.post_with_where_clause
        &&& after.return_clause == before.return_clause
        &&& after.order_by == before.order_by
    } else if optional_where_failure(before.where_clause, bindings) is Some {
        &&& readings_substituted(before.reading_clauses@, after.reading_clauses@, bindings)
        &&& optional_where_interrupted(before.where_clause, after.where_clause, bindings)
        &&& after.with_clause == before.with_clause
        &&& after.post_with_reading_clauses == before.post_with_reading_clauses
        &&& after.post_with_where_clause == before.post_with_where_clause
        &&& after.return_clause == before.return_clause
        &&& after.order_by == before.order_by
    } else if optional_with_failure(before.with_clause, bindings) is Some {
        &&& readings_substituted(before.reading_clauses@, after.reading_clauses@, bindings)
        &&& optional_where_substituted(before.where_clause, after.where_clause, bindings)
        &&& optional_with_interrupted(before.with_clause, after.with_clause, bindings)
        &&& after.post_with_reading_clauses == before.post_with_reading_clauses
        &&& after.post_with_where_clause == before.post_with_where_clause
        &&& after.return_clause == before.return_clause
        &&& after.order_by == before.order_by
    } else if first_failure(reading_outcomes(before.post_with_reading_clauses@, bindings)) is Some {
        &&& readings_substituted(before.reading_clauses@, after.reading_clauses@, bindings)
        &&& optional_where_substituted(before.where_clause, after.where_clause, bindings)
        &&& optional_with_substituted(before.with_clause, after.with_clause, bindings)
        &&& readings_interrupted(
            before.post_with_reading_clauses@,
            after.post_with_reading_clauses@,
            bindings,
        )
        &&& after.post_with_where_clause == before.post_with_where_clause
        &&& after.return_clause == before.return_clause
        &&& after.order_by == before.order_by
    } else if optional_where_failure(before.post_with_where_clause, bindings) is Some {
        &&& readings_substituted(before.reading_clauses@, after.reading_clauses@, bindings)
        &&& optional_where_substituted(before.where_clause, after.where_clause, bindings)
        &&& optional_with_substituted(before.with_clause, after.with_clause, bindings)
        &&& readings_substituted(
            before.post_with_reading_clauses@,
            after.post_with_reading_clauses@,
            bindings,
        )
        &&& optional_where_interrupted(
            before.post_with_where_clause,
            after.post_with_where_clause,
            bindings,
        )
        &&& after.return_clause == before.return_clause
        &&& after.order_by == before.order_by
    } else if return_failure(before.return_clause, bindings) is Some {
        &&& readings_substituted(before.reading_clauses@, after.reading_clauses@, bindings)
        &&& optional_where_substituted(before.where_clause, after.where_clause, bindings)
        &&& optional_with_substituted(before.with_clause, after.with_clause, bindings)
        &&& readings_substituted(
            before.post_with_reading_clauses@,
            after.post_with_reading_clauses@,
            bindings,
        )
        &&& optional_where_substituted(
            before.post_with_where_clause,
            after.post_with_where_clause,
            bindings,
        )
        &&& return_interrupted(before.return_clause, after.return_clause, bindings)
        &&& after.order_by == before.order_by
    } else {
        &&& readings_substituted(before.reading_clauses@, after.reading_clauses@, bindings)
        &&& optional_where_substituted(before.where_clause, after.where_clause, bindings)
        &&& optional_with_substituted(before.with_clause, after.with_clause, bindings)
        &&& readings_substituted(
            before.post_with_reading_clauses@,
            after.post_with_reading_clauses@,
            bindings,
        )
        &&& optional_where_substituted(
            before.post_with_where_clause,
            after.post_with_where_clause,
            bindings,
        )
        &&& return_substituted(before.return_clause, after.return_clause, bindings)
        &&& optional_order_interrupted(before.order_by, after.order_by, bindings)
    }
}

} // verus!
