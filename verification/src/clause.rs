//! The clause walker: substitution in patterns, clauses and whole queries.

use vstd::prelude::*;
use crate::ast::{
    CypherQuery, GraphPattern, NodePattern, OrderByClause, PathSegment, Property, PropertyValue,
    ReadingClause, RelationshipPattern, ReturnClause, ReturnItem, WhereClause, WithClause,
};
use crate::coerce::resolve_property_parameter;
use crate::error::SubstitutionError;
use crate::expression::{substitute_in_boolean_expression, substitute_in_value_expression};
use crate::laws::{
    law_parameter_free_query_is_unchanged, lemma_failure_names_unresolved_reference,
    lemma_result_is_parameter_free, scalar_bound,
};
use crate::model::{
    first_failure, lemma_first_failure_at, lemma_first_failure_none, property_failure,
    property_interrupted, property_substituted, value_substituted,
};
use crate::params::ParameterMap;
use crate::references::{query_mentions, query_parameter_free};
use crate::unchanged::query_unchanged;
use crate::query_model::{
    item_outcomes, items_interrupted, items_substituted, keys_distinct, node_failure,
    node_interrupted, node_substituted, order_failure, order_interrupted, order_outcomes,
    order_substituted, pattern_failure, pattern_interrupted, pattern_outcomes, pattern_substituted,
    patterns_interrupted, patterns_substituted, properties_interrupted, properties_substituted,
    property_outcomes, query_failure, query_interrupted, query_substituted, reading_failure,
    reading_interrupted, reading_outcomes, reading_substituted, readings_interrupted,
    readings_substituted, relationship_failure, relationship_interrupted, relationship_substituted,
    return_failure, return_interrupted, return_substituted, segment_failure, segment_interrupted,
    segment_outcomes, segment_substituted, segments_interrupted, segments_substituted,
    where_failure, where_interrupted, where_substituted, with_failure, with_interrupted,
    with_substituted,
};

verus! {

/// Replaces a parameter reference by the scalar literal bound to its name; any
/// other property value stays as it is.
pub fn substitute_in_property_value(value: &mut PropertyValue, parameters: &ParameterMap) -> (r:
    Result<(), SubstitutionError>)
    ensures
        match r {
            Ok(()) => property_failure(*old(value), parameters@) is None && property_substituted(
                *old(value),
                *final(value),
                parameters@,
            ),
            Err(e) => property_failure(*old(value), parameters@) == Some(e@) && property_interrupted(
                *old(value),
                *final(value),
                parameters@,
            ),
        },
{
    if let PropertyValue::Parameter(name) = value {
        match resolve_property_parameter(name.as_str(), parameters) {
            Ok(literal) => {
                *value = literal;
            },
            Err(e) => {
                return Err(e);
            },
        }
    }
    Ok(())
}

/// Substitutes in each value of a property mapping, in order, and stops at the
/// first failure. The keys stay as they are.
pub fn substitute_in_properties(items: &mut Vec<Property>, parameters: &ParameterMap) -> (r:
    Result<(), SubstitutionError>)
    ensures
        match r {
            Ok(()) => first_failure(property_outcomes(old(items)@, parameters@)) is None
                && properties_substituted(old(items)@, final(items)@, parameters@),
            Err(e) => first_failure(property_outcomes(old(items)@, parameters@)) == Some(e@)
                && properties_interrupted(old(items)@, final(items)@, parameters@),
        },
        keys_distinct(old(items)@) ==> keys_distinct(final(items)@),
{
    let ghost outcomes = property_outcomes(old(items)@, parameters@);
    let mut i: usize = 0;
    while i < items.len()
        invariant
            i <= items.len(),
            items.len() == old(items).len(),
            outcomes == property_outcomes(old(items)@, parameters@),
            forall|j: int| 0 <= j < i ==> outcomes[j] is None,
            forall|j: int|
                0 <= j < i ==> (#[trigger] items@[j]).key == old(items)@[j].key
                    && property_substituted(old(items)@[j].value, items@[j].value, parameters@),
            forall|j: int| i <= j < items.len() ==> items@[j] == old(items)@[j],
        decreases items.len() - i,
    {
        match substitute_in_property_value(&mut items[i].value, parameters) {
            Ok(()) => {},
            Err(e) => {
                proof {
                    lemma_first_failure_at(outcomes, i as int);
                }
                return Err(e);
            },
        }
        i += 1;
    }
    proof {
        lemma_first_failure_none(outcomes);
    }
    Ok(())
}

/// Substitutes in every property value of a node.
pub fn substitute_in_node_pattern(node: &mut NodePattern, parameters: &ParameterMap) -> (r:
    Result<(), SubstitutionError>)
    ensures
        match r {
            Ok(()) => node_failure(*old(node), parameters@) is None && node_substituted(
                *old(node),
                *final(node),
                parameters@,
            ),
            Err(e) => node_failure(*old(node), parameters@) == Some(e@) && node_interrupted(
                *old(node),
                *final(node),
                parameters@,
            ),
        },
        keys_distinct(old(node).properties@) ==> keys_distinct(final(node).properties@),
{
    substitute_in_properties(&mut node.properties, parameters)
}

/// Substitutes in every property value of a relationship.
pub fn substitute_in_relationship_pattern(
    rel: &mut RelationshipPattern,
    parameters: &ParameterMap,
) -> (r: Result<(), SubstitutionError>)
    ensures
        match r {
            Ok(()) => relationship_failure(*old(rel), parameters@) is None
                && relationship_substituted(*old(rel), *final(rel), parameters@),
            Err(e) => relationship_failure(*old(rel), parameters@) == Some(e@)
                && relationship_interrupted(*old(rel), *final(rel), parameters@),
        },
        keys_distinct(old(rel).properties@) ==> keys_distinct(final(rel).properties@),
{
    substitute_in_properties(&mut rel.properties, parameters)
}

/// Substitutes in a segment: its relationship, then its end node.
pub fn substitute_in_path_segment(segment: &mut PathSegment, parameters: &ParameterMap) -> (r:
    Result<(), SubstitutionError>)
    ensures
        match r {
            Ok(()) => segment_failure(*old(segment), parameters@) is None && segment_substituted(
                *old(segment),
                *final(segment),
                parameters@,
            ),
            Err(e) => segment_failure(*old(segment), parameters@) == Some(e@) && segment_interrupted(
                *old(segment),
                *final(segment),
                parameters@,
            ),
        },
{
    if let Err(e) = substitute_in_relationship_pattern(&mut segment.relationship, parameters) {
        return Err(e);
    }
    substitute_in_node_pattern(&mut segment.end_node, parameters)
}

/// Substitutes in each segment of a path, in order, and stops at the first
/// failure.
pub fn substitute_in_path_segments(items: &mut Vec<PathSegment>, parameters: &ParameterMap) -> (r:
    Result<(), SubstitutionError>)
    ensures
        match r {
            Ok(()) => first_failure(segment_outcomes(old(items)@, parameters@)) is None
                && segments_substituted(old(items)@, final(items)@, parameters@),
            Err(e) => first_failure(segment_outcomes(old(items)@, parameters@)) == Some(e@)
                && segments_interrupted(old(items)@, final(items)@, parameters@),
        },
{
    let ghost outcomes = segment_outcomes(old(items)@, parameters@);
    let mut i: usize = 0;
    while i < items.len()
        invariant
            i <= items.len(),
            items.len() == old(items).len(),
            outcomes == segment_outcomes(old(items)@, parameters@),
            forall|j: int| 0 <= j < i ==> outcomes[j] is None,
            forall|j: int|
                0 <= j < i ==> segment_substituted(old(items)@[j], #[trigger] items@[j], parameters@),
            forall|j: int| i <= j < items.len() ==> items@[j] == old(items)@[j],
        decreases items.len() - i,
    {
        match substitute_in_path_segment(&mut items[i], parameters) {
            Ok(()) => {},
            Err(e) => {
                proof {
                    lemma_first_failure_at(outcomes, i as int);
                }
                return Err(e);
            },
        }
        i += 1;
    }
    proof {
        lemma_first_failure_none(outcomes);
    }
    Ok(())
}

/// Substitutes in a pattern: in a single node, or in a path's start node and
/// then its segments in order.
pub fn substitute_in_graph_pattern(pattern: &mut GraphPattern, parameters: &ParameterMap) -> (r:
    Result<(), SubstitutionError>)
    ensures
        match r {
            Ok(()) => pattern_failure(*old(pattern), parameters@) is None && pattern_substituted(
                *old(pattern),
                *final(pattern),
                parameters@,
            ),
            Err(e) => pattern_failure(*old(pattern), parameters@) == Some(e@) && pattern_interrupted(
                *old(pattern),
                *final(pattern),
                parameters@,
            ),
        },
{
    match pattern {
        GraphPattern::Node(node) => substitute_in_node_pattern(node, parameters),
        GraphPattern::Path(path) => {
            if let Err(e) = substitute_in_node_pattern(&mut path.start_node, parameters) {
                return Err(e);
            }
            substitute_in_path_segments(&mut path.segments, parameters)
        },
    }
}

/// Substitutes in each pattern of a list, in order, and stops at the first
/// failure.
pub fn substitute_in_graph_patterns(items: &mut Vec<GraphPattern>, parameters: &ParameterMap) -> (r:
    Result<(), SubstitutionError>)
    ensures
        match r {
            Ok(()) => first_failure(pattern_outcomes(old(items)@, parameters@)) is None
                && patterns_substituted(old(items)@, final(items)@, parameters@),
            Err(e) => first_failure(pattern_outcomes(old(items)@, parameters@)) == Some(e@)
                && patterns_interrupted(old(items)@, final(items)@, parameters@),
        },
{
    let ghost outcomes = pattern_outcomes(old(items)@, parameters@);
    let mut i: usize = 0;
    while i < items.len()
        invariant
            i <= items.len(),
            items.len() == old(items).len(),
            outcomes == pattern_outcomes(old(items)@, parameters@),
            forall|j: int| 0 <= j < i ==> outcomes[j] is None,
            forall|j: int|
                0 <= j < i ==> pattern_substituted(old(items)@[j], #[trigger] items@[j], parameters@),
            forall|j: int| i <= j < items.len() ==> items@[j] == old(items)@[j],
        decreases items.len() - i,
    {
        match substitute_in_graph_pattern(&mut items[i], parameters) {
            Ok(()) => {},
            Err(e) => {
                proof {
                    lemma_first_failure_at(outcomes, i as int);
                }
                return Err(e);
            },
        }
        i += 1;
    }
    proof {
        lemma_first_failure_none(outcomes);
    }
    Ok(())
}

/// Substitutes in a reading clause: in each pattern of a match, or in the
/// expression that is unwound.
pub fn substitute_in_reading_clause(clause: &mut ReadingClause, parameters: &ParameterMap) -> (r:
    Result<(), SubstitutionError>)
    ensures
        match r {
            Ok(()) => reading_failure(*old(clause), parameters@) is None && reading_substituted(
                *old(clause),
                *final(clause),
                parameters@,
            ),
            Err(e) => reading_failure(*old(clause), parameters@) == Some(e@) && reading_interrupted(
                *old(clause),
                *final(clause),
                parameters@,
            ),
        },
{
    match clause {
        ReadingClause::Match(match_clause) => substitute_in_graph_patterns(
            &mut match_clause.patterns,
            parameters,
        ),
        ReadingClause::Unwind(unwind_clause) => substitute_in_value_expression(
            &mut unwind_clause.expression,
            parameters,
        ),
    }
}

/// Substitutes in each reading clause of a list, in order, and stops at the
/// first failure.
pub fn substitute_in_reading_clauses(items: &mut Vec<ReadingClause>, parameters: &ParameterMap) -> (r:
    Result<(), SubstitutionError>)
    ensures
        match r {
            Ok(()) => first_failure(reading_outcomes(old(items)@, parameters@)) is None
                && readings_substituted(old(items)@, final(items)@, parameters@),
            Err(e) => first_failure(reading_outcomes(old(items)@, parameters@)) == Some(e@)
                && readings_interrupted(old(items)@, final(items)@, parameters@),
        },
{
    let ghost outcomes = reading_outcomes(old(items)@, parameters@);
    let mut i: usize = 0;
    while i < items.len()
        invariant
            i <= items.len(),
            items.len() == old(items).len(),
            outcomes == reading_outcomes(old(items)@, parameters@),
            forall|j: int| 0 <= j < i ==> outcomes[j] is None,
            forall|j: int|
                0 <= j < i ==> reading_substituted(old(items)@[j], #[trigger] items@[j], parameters@),
            forall|j: int| i <= j < items.len() ==> items@[j] == old(items)@[j],
        decreases items.len() - i,
    {
        match substitute_in_reading_clause(&mut items[i], parameters) {
            Ok(()) => {},
            Err(e) => {
                proof {
                    lemma_first_failure_at(outcomes, i as int);
                }
                return Err(e);
            },
        }
        i += 1;
    }
    proof {
        lemma_first_failure_none(outcomes);
    }
    Ok(())
}

/// Substitutes in the condition of a filter.
pub fn substitute_in_where_clause(where_clause: &mut WhereClause, parameters: &ParameterMap) -> (r:
    Result<(), SubstitutionError>)
    ensures
        match r {
            Ok(()) => where_failure(*old(where_clause), parameters@) is None && where_substituted(
                *old(where_clause),
                *final(where_clause),
                parameters@,
            ),
            Err(e) => where_failure(*old(where_clause), parameters@) == Some(e@) && where_interrupted(
                *old(where_clause),
                *final(where_clause),
                parameters@,
            ),
        },
{
    substitute_in_boolean_expression(&mut where_clause.expression, parameters)
}

/// Substitutes in each projected expression, in order, and stops at the first
/// failure. The aliases stay as they are.
pub fn substitute_in_return_items(items: &mut Vec<ReturnItem>, parameters: &ParameterMap) -> (r:
    Result<(), SubstitutionError>)
    ensures
        match r {
            Ok(()) => first_failure(item_outcomes(old(items)@, parameters@)) is None
                && items_substituted(old(items)@, final(items)@, parameters@),
            Err(e) => first_failure(item_outcomes(old(items)@, parameters@)) == Some(e@)
                && items_interrupted(old(items)@, final(items)@, parameters@),
        },
{
    let ghost outcomes = item_outcomes(old(items)@, parameters@);
    let mut i: usize = 0;
    while i < items.len()
        invariant
            i <= items.len(),
            items.len() == old(items).len(),
            outcomes == item_outcomes(old(items)@, parameters@),
            forall|j: int| 0 <= j < i ==> outcomes[j] is None,
            forall|j: int|
                0 <= j < i ==> (#[trigger] items@[j]).alias == old(items)@[j].alias
                    && value_substituted(
                    old(items)@[j].expression,
                    items@[j].expression,
                    parameters@,
                ),
            forall|j: int| i <= j < items.len() ==> items@[j] == old(items)@[j],
        decreases items.len() - i,
    {
        match substitute_in_value_expression(&mut items[i].expression, parameters) {
            Ok(()) => {},
            Err(e) => {
                proof {
                    lemma_first_failure_at(outcomes, i as int);
                }
                return Err(e);
            },
        }
        i += 1;
    }
    proof {
        lemma_first_failure_none(outcomes);
    }
    Ok(())
}

/// Substitutes in each ordering expression, in order, and stops at the first
/// failure. The directions stay as they are.
pub fn substitute_in_order_by_clause(order_by: &mut OrderByClause, parameters: &ParameterMap) -> (r:
    Result<(), SubstitutionError>)
    ensures
        match r {
            Ok(()) => order_failure(*old(order_by), parameters@) is None && order_substituted(
                *old(order_by),
                *final(order_by),
                parameters@,
            ),
            Err(e) => order_failure(*old(order_by), parameters@) == Some(e@) && order_interrupted(
                *old(order_by),
                *final(order_by),
                parameters@,
            ),
        },
{
    let ghost outcomes = order_outcomes(old(order_by).items@, parameters@);
    let mut i: usize = 0;
    while i < order_by.items.len()
        invariant
            i <= order_by.items.len(),
            order_by.items.len() == old(order_by).items.len(),
            outcomes == order_outcomes(old(order_by).items@, parameters@),
            forall|j: int| 0 <= j < i ==> outcomes[j] is None,
            forall|j: int|
                0 <= j < i ==> (#[trigger] order_by.items[j]).direction == old(
                    order_by,
                ).items[j].direction && value_substituted(
                    old(order_by).items[j].expression,
                    order_by.items[j].expression,
                    parameters@,
                ),
            forall|j: int| i <= j < order_by.items.len() ==> order_by.items[j] == old(order_by).items[j],
        decreases order_by.items.len() - i,
    {
        match substitute_in_value_expression(&mut order_by.items[i].expression, parameters) {
            Ok(()) => {},
            Err(e) => {
                proof {
                    lemma_first_failure_at(outcomes, i as int);
                }
                return Err(e);
            },
        }
        i += 1;
    }
    proof {
        lemma_first_failure_none(outcomes);
    }
    Ok(())
}

/// Substitutes in the intermediate projection: its expressions, then its
/// ordering if it has one.
pub fn substitute_in_with_clause(with_clause: &mut WithClause, parameters: &ParameterMap) -> (r:
    Result<(), SubstitutionError>)
    ensures
        match r {
            Ok(()) => with_failure(*old(with_clause), parameters@) is None && with_substituted(
                *old(with_clause),
                *final(with_clause),
                parameters@,
            ),
            Err(e) => with_failure(*old(with_clause), parameters@) == Some(e@) && with_interrupted(
                *old(with_clause),
                *final(with_clause),
                parameters@,
            ),
        },
{
    if let Err(e) = substitute_in_return_items(&mut with_clause.items, parameters) {
        return Err(e);
    }
    if let Some(order_by) = &mut with_clause.order_by {
        if let Err(e) = substitute_in_order_by_clause(order_by, parameters) {
            return Err(e);
        }
    }
    Ok(())
}

/// Substitutes in each expression of the final projection, in order.
pub fn substitute_in_return_clause(return_clause: &mut ReturnClause, parameters: &ParameterMap) -> (r:
    Result<(), SubstitutionError>)
    ensures
        match r {
            Ok(()) => return_failure(*old(return_clause), parameters@) is None && return_substituted(
                *old(return_clause),
                *final(return_clause),
                parameters@,
            ),
            Err(e) => return_failure(*old(return_clause), parameters@) == Some(e@) && return_interrupted(
                *old(return_clause),
                *final(return_clause),
                parameters@,
            ),
        },
{
    substitute_in_return_items(&mut return_clause.items, parameters)
}

/// Replaces every parameter reference of `query` by the literal or vector that
/// `parameters` binds to its name.
///
/// The clauses are visited in the order in which they are evaluated. On
/// success no clause was added, dropped or moved, and every reference is
/// replaced. On failure the first failure in that order is returned, and the
/// query is left where the walk stopped: what was visited before the failing
/// reference is substituted, that reference and all that follows it are as
/// they were.
///
/// Substitution succeeds where the map binds every parameter that the query
/// refers to to a scalar, and a query that refers to no parameter comes out
/// unchanged.
pub fn substitute_parameters(query: &mut CypherQuery, parameters: &ParameterMap) -> (r:
    Result<(), SubstitutionError>)
    ensures
        match r {
            Ok(()) => query_failure(*old(query), parameters@) is None && query_substituted(
                *old(query),
                *final(query),
                parameters@,
            ),
            Err(e) => query_failure(*old(query), parameters@) == Some(e@) && query_interrupted(
                *old(query),
                *final(query),
                parameters@,
            ),
        },
        r is Ok ==> query_parameter_free(*final(query)),
        query_parameter_free(*old(query)) ==> r is Ok && query_unchanged(*old(query), *final(query)),
        (forall|name: Seq<char>|
            query_mentions(*old(query), name) ==> scalar_bound(name, parameters@)) ==> r is Ok,
{
    proof {
        lemma_failure_names_unresolved_reference(*old(query), parameters@);
    }
    if let Err(e) = substitute_in_reading_clauses(&mut query.reading_clauses, parameters) {
        return Err(e);
    }
    if let Some(where_clause) = &mut query.where_clause {
        if let Err(e) = substitute_in_where_clause(where_clause, parameters) {
            return Err(e);
        }
    }
    if let Some(with_clause) = &mut query.with_clause {
        if let Err(e) = substitute_in_with_clause(with_clause, parameters) {
            return Err(e);
        }
    }
    if let Err(e) = substitute_in_reading_clauses(&mut query.post_with_reading_clauses, parameters) {
        return Err(e);
    }
    if let Some(post_where) = &mut query.post_with_where_clause {
        if let Err(e) = substitute_in_where_clause(post_where, parameters) {
            return Err(e);
        }
    }
    if let Err(e) = substitute_in_return_clause(&mut query.return_clause, parameters) {
        return Err(e);
    }
    if let Some(order_by) = &mut query.order_by {
        if let Err(e) = substitute_in_order_by_clause(order_by, parameters) {
            return Err(e);
        }
    }
    proof {
        lemma_result_is_parameter_free(*old(query), *query, parameters@);
        if query_parameter_free(*old(query)) {
            law_parameter_free_query_is_unchanged(*old(query), *query, parameters@);
        }
    }
    Ok(())
}

} // verus!
