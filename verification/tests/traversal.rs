use parameter_substitution::ast::{
    ArithmeticOperator, BooleanExpression, ComparisonOperator, CypherQuery, DistanceMetric,
    GraphPattern, MatchClause, NodePattern, OrderByClause, OrderByItem, PathPattern, PathSegment,
    Property, PropertyRef, PropertyValue, ReadingClause, RelationshipDirection,
    RelationshipPattern, ReturnClause, ReturnItem, SortDirection, UnwindClause, ValueExpression,
    WhereClause, WithClause,
};
use parameter_substitution::clause::{
    substitute_in_graph_pattern, substitute_in_node_pattern, substitute_in_order_by_clause,
    substitute_in_reading_clause, substitute_in_relationship_pattern, substitute_in_return_clause,
    substitute_in_where_clause, substitute_in_with_clause, substitute_parameters,
};
use parameter_substitution::error::{ErrorKind, SubstitutionError};
use parameter_substitution::expression::{
    substitute_in_boolean_expression, substitute_in_value_expression, substitute_in_value_list,
};
use parameter_substitution::params::ParameterMap;
use serde_json::Value;

fn param(name: &str) -> ValueExpression {
    ValueExpression::Parameter(name.to_string())
}

fn integer(i: i64) -> ValueExpression {
    ValueExpression::Literal(PropertyValue::Integer(i))
}

fn text(s: &str) -> ValueExpression {
    ValueExpression::Literal(PropertyValue::String(s.to_string()))
}

fn variable(name: &str) -> ValueExpression {
    ValueExpression::Variable(name.to_string())
}

fn property(variable: &str, property: &str) -> ValueExpression {
    ValueExpression::Property(PropertyRef {
        variable: variable.to_string(),
        property: property.to_string(),
    })
}

fn missing(name: &str) -> SubstitutionError {
    SubstitutionError { kind: ErrorKind::MissingParameter, parameter: name.to_string() }
}

fn node(variable: &str, properties: Vec<(&str, PropertyValue)>) -> NodePattern {
    NodePattern {
        variable: Some(variable.to_string()),
        labels: vec!["Person".to_string()],
        properties: properties
            .into_iter()
            .map(|(key, value)| Property { key: key.to_string(), value })
            .collect(),
    }
}

fn relationship(properties: Vec<(&str, PropertyValue)>) -> RelationshipPattern {
    RelationshipPattern {
        variable: None,
        types: vec!["KNOWS".to_string()],
        direction: RelationshipDirection::Outgoing,
        properties: properties
            .into_iter()
            .map(|(key, value)| Property { key: key.to_string(), value })
            .collect(),
    }
}

fn item(expression: ValueExpression) -> ReturnItem {
    ReturnItem { expression, alias: None }
}

fn query_returning(items: Vec<ValueExpression>) -> CypherQuery {
    CypherQuery {
        reading_clauses: vec![],
        where_clause: None,
        with_clause: None,
        post_with_reading_clauses: vec![],
        post_with_where_clause: None,
        return_clause: ReturnClause { distinct: false, items: items.into_iter().map(item).collect() },
        order_by: None,
        limit: None,
        skip: None,
    }
}

fn numbers() -> ParameterMap {
    let mut parameters = ParameterMap::new();
    parameters.insert("a".to_string(), Value::from(1));
    parameters.insert("b".to_string(), Value::from(2));
    parameters.insert("c".to_string(), Value::from(3));
    parameters.insert("name".to_string(), Value::String("Ann".to_string()));
    parameters.insert("v".to_string(), Value::Array(vec![Value::from(0.5), Value::from(1)]));
    parameters.insert("bad".to_string(), Value::Array(vec![Value::Bool(true)]));
    parameters
}

fn full_query() -> CypherQuery {
    CypherQuery {
        reading_clauses: vec![ReadingClause::Match(MatchClause {
            patterns: vec![
                GraphPattern::Node(node("n", vec![("name", PropertyValue::Parameter("name".to_string()))])),
                GraphPattern::Path(PathPattern {
                    start_node: node("x", vec![("rank", PropertyValue::Parameter("a".to_string()))]),
                    segments: vec![PathSegment {
                        relationship: relationship(vec![(
                            "since",
                            PropertyValue::Parameter("b".to_string()),
                        )]),
                        end_node: node("y", vec![("rank", PropertyValue::Parameter("c".to_string()))]),
                    }],
                }),
            ],
        })],
        where_clause: Some(WhereClause {
            expression: BooleanExpression::Comparison {
                left: property("n", "age"),
                operator: ComparisonOperator::GreaterThan,
                right: param("a"),
            },
        }),
        with_clause: Some(WithClause {
            items: vec![ReturnItem { expression: param("b"), alias: Some("two".to_string()) }],
            order_by: Some(OrderByClause {
                items: vec![OrderByItem { expression: param("c"), direction: SortDirection::Descending }],
            }),
            limit: Some(10),
        }),
        post_with_reading_clauses: vec![ReadingClause::Unwind(UnwindClause {
            expression: param("v"),
            alias: "e".to_string(),
        })],
        post_with_where_clause: Some(WhereClause {
            expression: BooleanExpression::IsNotNull(param("name")),
        }),
        return_clause: ReturnClause {
            distinct: true,
            items: vec![item(ValueExpression::VectorDistance {
                left: Box::new(property("n", "embedding")),
                right: Box::new(param("v")),
                metric: DistanceMetric::Cosine,
            })],
        },
        order_by: Some(OrderByClause {
            items: vec![OrderByItem { expression: param("a"), direction: SortDirection::Ascending }],
        }),
        limit: Some(5),
        skip: Some(1),
    }
}

fn full_query_substituted() -> CypherQuery {
    let vector = || ValueExpression::VectorLiteral(vec![0.5f64.to_bits(), 1.0f64.to_bits()]);
    CypherQuery {
        reading_clauses: vec![ReadingClause::Match(MatchClause {
            patterns: vec![
                GraphPattern::Node(node("n", vec![("name", PropertyValue::String("Ann".to_string()))])),
                GraphPattern::Path(PathPattern {
                    start_node: node("x", vec![("rank", PropertyValue::Integer(1))]),
                    segments: vec![PathSegment {
                        relationship: relationship(vec![("since", PropertyValue::Integer(2))]),
                        end_node: node("y", vec![("rank", PropertyValue::Integer(3))]),
                    }],
                }),
            ],
        })],
        where_clause: Some(WhereClause {
            expression: BooleanExpression::Comparison {
                left: property("n", "age"),
                operator: ComparisonOperator::GreaterThan,
                right: integer(1),
            },
        }),
        with_clause: Some(WithClause {
            items: vec![ReturnItem { expression: integer(2), alias: Some("two".to_string()) }],
            order_by: Some(OrderByClause {
                items: vec![OrderByItem { expression: integer(3), direction: SortDirection::Descending }],
            }),
            limit: Some(10),
        }),
        post_with_reading_clauses: vec![ReadingClause::Unwind(UnwindClause {
            expression: vector(),
            alias: "e".to_string(),
        })],
        post_with_where_clause: Some(WhereClause {
            expression: BooleanExpression::IsNotNull(text("Ann")),
        }),
        return_clause: ReturnClause {
            distinct: true,
            items: vec![item(ValueExpression::VectorDistance {
                left: Box::new(property("n", "embedding")),
                right: Box::new(vector()),
                metric: DistanceMetric::Cosine,
            })],
        },
        order_by: Some(OrderByClause {
            items: vec![OrderByItem { expression: integer(1), direction: SortDirection::Ascending }],
        }),
        limit: Some(5),
        skip: Some(1),
    }
}

#[test]
fn every_clause_of_a_query_is_substituted() {
    let mut query = full_query();
    assert_eq!(substitute_parameters(&mut query, &numbers()), Ok(()));
    assert_eq!(query, full_query_substituted());
}

#[test]
fn substituted_query_is_kept_by_a_second_pass() {
    let mut query = full_query_substituted();
    assert_eq!(substitute_parameters(&mut query, &ParameterMap::new()), Ok(()));
    assert_eq!(query, full_query_substituted());
}

#[test]
fn query_without_parameters_is_unchanged() {
    let build = || {
        let mut query = query_returning(vec![property("n", "name"), integer(7), variable("n")]);
        query.where_clause = Some(WhereClause {
            expression: BooleanExpression::Exists(PropertyRef {
                variable: "n".to_string(),
                property: "age".to_string(),
            }),
        });
        query
    };
    let mut query = build();
    assert_eq!(substitute_parameters(&mut query, &numbers()), Ok(()));
    assert_eq!(query, build());
    let mut again = build();
    assert_eq!(substitute_parameters(&mut again, &ParameterMap::new()), Ok(()));
    assert_eq!(again, build());
}

#[test]
fn missing_parameter_in_a_query_is_reported() {
    let mut query = query_returning(vec![param("x")]);
    let mut parameters = ParameterMap::new();
    parameters.insert("y".to_string(), Value::from(1));
    assert_eq!(substitute_parameters(&mut query, &parameters), Err(missing("x")));
}

#[test]
fn first_failure_in_traversal_order_is_reported() {
    let mut query = query_returning(vec![param("bad")]);
    query.where_clause = Some(WhereClause {
        expression: BooleanExpression::Comparison {
            left: param("absent"),
            operator: ComparisonOperator::Equal,
            right: param("bad"),
        },
    });
    assert_eq!(substitute_parameters(&mut query, &numbers()), Err(missing("absent")));
}

#[test]
fn reading_clauses_fail_before_the_filter() {
    let mut query = query_returning(vec![integer(1)]);
    query.reading_clauses = vec![ReadingClause::Match(MatchClause {
        patterns: vec![GraphPattern::Node(node(
            "n",
            vec![("name", PropertyValue::Parameter("first".to_string()))],
        ))],
    })];
    query.where_clause = Some(WhereClause { expression: BooleanExpression::IsNull(param("second")) });
    assert_eq!(substitute_parameters(&mut query, &ParameterMap::new()), Err(missing("first")));
}

#[test]
fn final_projection_fails_before_final_ordering() {
    let mut query = query_returning(vec![param("first")]);
    query.order_by = Some(OrderByClause {
        items: vec![OrderByItem { expression: param("second"), direction: SortDirection::Ascending }],
    });
    assert_eq!(substitute_parameters(&mut query, &ParameterMap::new()), Err(missing("first")));
}

#[test]
fn intermediate_projection_fails_before_later_clauses() {
    let mut query = query_returning(vec![param("last")]);
    query.with_clause = Some(WithClause {
        items: vec![item(integer(1))],
        order_by: Some(OrderByClause {
            items: vec![OrderByItem { expression: param("inner"), direction: SortDirection::Ascending }],
        }),
        limit: None,
    });
    query.post_with_where_clause =
        Some(WhereClause { expression: BooleanExpression::IsNull(param("later")) });
    assert_eq!(substitute_parameters(&mut query, &ParameterMap::new()), Err(missing("inner")));
}

#[test]
fn function_arguments_keep_their_order() {
    let mut expr = ValueExpression::ScalarFunction {
        name: "coalesce".to_string(),
        args: vec![param("c"), variable("n"), param("a"), param("b")],
    };
    assert_eq!(substitute_in_value_expression(&mut expr, &numbers()), Ok(()));
    assert_eq!(
        expr,
        ValueExpression::ScalarFunction {
            name: "coalesce".to_string(),
            args: vec![integer(3), variable("n"), integer(1), integer(2)],
        }
    );
}

#[test]
fn aggregate_arguments_are_substituted() {
    let mut expr = ValueExpression::AggregateFunction {
        name: "count".to_string(),
        args: vec![param("a")],
        distinct: true,
    };
    assert_eq!(substitute_in_value_expression(&mut expr, &numbers()), Ok(()));
    assert_eq!(
        expr,
        ValueExpression::AggregateFunction {
            name: "count".to_string(),
            args: vec![integer(1)],
            distinct: true,
        }
    );
}

#[test]
fn first_failing_argument_is_reported() {
    let mut expr = ValueExpression::ScalarFunction {
        name: "f".to_string(),
        args: vec![param("a"), param("absent"), param("bad")],
    };
    assert_eq!(substitute_in_value_expression(&mut expr, &numbers()), Err(missing("absent")));
}

#[test]
fn arithmetic_operands_are_substituted_left_first() {
    let mut expr = ValueExpression::Arithmetic {
        left: Box::new(param("a")),
        operator: ArithmeticOperator::Add,
        right: Box::new(ValueExpression::Arithmetic {
            left: Box::new(param("b")),
            operator: ArithmeticOperator::Multiply,
            right: Box::new(param("c")),
        }),
    };
    assert_eq!(substitute_in_value_expression(&mut expr, &numbers()), Ok(()));
    assert_eq!(
        expr,
        ValueExpression::Arithmetic {
            left: Box::new(integer(1)),
            operator: ArithmeticOperator::Add,
            right: Box::new(ValueExpression::Arithmetic {
                left: Box::new(integer(2)),
                operator: ArithmeticOperator::Multiply,
                right: Box::new(integer(3)),
            }),
        }
    );
    let mut failing = ValueExpression::Arithmetic {
        left: Box::new(param("p")),
        operator: ArithmeticOperator::Subtract,
        right: Box::new(param("q")),
    };
    assert_eq!(substitute_in_value_expression(&mut failing, &numbers()), Err(missing("p")));
}

#[test]
fn vector_similarity_takes_a_vector_parameter() {
    let mut expr = ValueExpression::VectorSimilarity {
        left: Box::new(param("v")),
        right: Box::new(property("n", "embedding")),
        metric: DistanceMetric::Dot,
    };
    assert_eq!(substitute_in_value_expression(&mut expr, &numbers()), Ok(()));
    assert_eq!(
        expr,
        ValueExpression::VectorSimilarity {
            left: Box::new(ValueExpression::VectorLiteral(vec![0.5f64.to_bits(), 1.0f64.to_bits()])),
            right: Box::new(property("n", "embedding")),
            metric: DistanceMetric::Dot,
        }
    );
}

#[test]
fn value_list_keeps_length_and_order() {
    let mut items = vec![param("b"), integer(9), param("a")];
    assert_eq!(substitute_in_value_list(&mut items, &numbers()), Ok(()));
    assert_eq!(items, vec![integer(2), integer(9), integer(1)]);
    let mut empty: Vec<ValueExpression> = vec![];
    assert_eq!(substitute_in_value_list(&mut empty, &numbers()), Ok(()));
    assert!(empty.is_empty());
}

#[test]
fn membership_candidates_keep_their_order() {
    let mut expr = BooleanExpression::In {
        expression: param("a"),
        list: vec![param("c"), param("b"), integer(0)],
    };
    assert_eq!(substitute_in_boolean_expression(&mut expr, &numbers()), Ok(()));
    assert_eq!(expr, BooleanExpression::In { expression: integer(1), list: vec![integer(3), integer(2), integer(0)] });
}

#[test]
fn membership_probe_fails_before_candidates() {
    let mut expr = BooleanExpression::In { expression: param("probe"), list: vec![param("candidate")] };
    assert_eq!(substitute_in_boolean_expression(&mut expr, &numbers()), Err(missing("probe")));
}

#[test]
fn boolean_connectives_are_walked() {
    let mut expr = BooleanExpression::And(
        Box::new(BooleanExpression::Not(Box::new(BooleanExpression::IsNull(param("a"))))),
        Box::new(BooleanExpression::Or(
            Box::new(BooleanExpression::Like { expression: param("name"), pattern: "A%".to_string() }),
            Box::new(BooleanExpression::StartsWith {
                expression: param("name"),
                prefix: "A".to_string(),
            }),
        )),
    );
    assert_eq!(substitute_in_boolean_expression(&mut expr, &numbers()), Ok(()));
    assert_eq!(
        expr,
        BooleanExpression::And(
            Box::new(BooleanExpression::Not(Box::new(BooleanExpression::IsNull(integer(1))))),
            Box::new(BooleanExpression::Or(
                Box::new(BooleanExpression::Like { expression: text("Ann"), pattern: "A%".to_string() }),
                Box::new(BooleanExpression::StartsWith {
                    expression: text("Ann"),
                    prefix: "A".to_string(),
                }),
            )),
        )
    );
}

#[test]
fn unary_predicates_are_substituted() {
    let mut contains =
        BooleanExpression::Contains { expression: param("name"), substring: "n".to_string() };
    assert_eq!(substitute_in_boolean_expression(&mut contains, &numbers()), Ok(()));
    assert_eq!(
        contains,
        BooleanExpression::Contains { expression: text("Ann"), substring: "n".to_string() }
    );
    let mut ends = BooleanExpression::EndsWith { expression: param("name"), suffix: "n".to_string() };
    assert_eq!(substitute_in_boolean_expression(&mut ends, &numbers()), Ok(()));
    assert_eq!(ends, BooleanExpression::EndsWith { expression: text("Ann"), suffix: "n".to_string() });
    let mut ilike = BooleanExpression::ILike { expression: param("name"), pattern: "a%".to_string() };
    assert_eq!(substitute_in_boolean_expression(&mut ilike, &numbers()), Ok(()));
    assert_eq!(ilike, BooleanExpression::ILike { expression: text("Ann"), pattern: "a%".to_string() });
    let mut not_null = BooleanExpression::IsNotNull(param("absent"));
    assert_eq!(substitute_in_boolean_expression(&mut not_null, &numbers()), Err(missing("absent")));
}

#[test]
fn existence_test_is_opaque() {
    let build = || BooleanExpression::Exists(PropertyRef {
        variable: "n".to_string(),
        property: "age".to_string(),
    });
    let mut expr = build();
    assert_eq!(substitute_in_boolean_expression(&mut expr, &ParameterMap::new()), Ok(()));
    assert_eq!(expr, build());
}

#[test]
fn literal_is_left_unchanged() {
    let mut expr = ValueExpression::Literal(PropertyValue::Parameter("a".to_string()));
    assert_eq!(substitute_in_value_expression(&mut expr, &numbers()), Ok(()));
    assert_eq!(expr, ValueExpression::Literal(PropertyValue::Parameter("a".to_string())));
}

#[test]
fn path_segments_keep_their_order() {
    let mut pattern = GraphPattern::Path(PathPattern {
        start_node: node("s", vec![]),
        segments: vec![
            PathSegment {
                relationship: relationship(vec![("w", PropertyValue::Parameter("c".to_string()))]),
                end_node: node("m", vec![("k", PropertyValue::Parameter("a".to_string()))]),
            },
            PathSegment {
                relationship: relationship(vec![]),
                end_node: node("e", vec![("k", PropertyValue::Parameter("b".to_string()))]),
            },
        ],
    });
    assert_eq!(substitute_in_graph_pattern(&mut pattern, &numbers()), Ok(()));
    assert_eq!(
        pattern,
        GraphPattern::Path(PathPattern {
            start_node: node("s", vec![]),
            segments: vec![
                PathSegment {
                    relationship: relationship(vec![("w", PropertyValue::Integer(3))]),
                    end_node: node("m", vec![("k", PropertyValue::Integer(1))]),
                },
                PathSegment {
                    relationship: relationship(vec![]),
                    end_node: node("e", vec![("k", PropertyValue::Integer(2))]),
                },
            ],
        })
    );
}

#[test]
fn relationship_fails_before_its_end_node() {
    let mut pattern = GraphPattern::Path(PathPattern {
        start_node: node("s", vec![]),
        segments: vec![PathSegment {
            relationship: relationship(vec![("w", PropertyValue::Parameter("rel".to_string()))]),
            end_node: node("m", vec![("k", PropertyValue::Parameter("end".to_string()))]),
        }],
    });
    assert_eq!(substitute_in_graph_pattern(&mut pattern, &numbers()), Err(missing("rel")));
}

#[test]
fn node_property_bound_to_an_array_is_rejected() {
    let mut parameters = ParameterMap::new();
    parameters
        .insert("v".to_string(), Value::Array(vec![Value::from(1), Value::from(2), Value::from(3)]));
    let mut pattern = node("n", vec![("name", PropertyValue::Parameter("v".to_string()))]);
    assert_eq!(
        substitute_in_node_pattern(&mut pattern, &parameters),
        Err(SubstitutionError {
            kind: ErrorKind::UnsupportedComplexParameter,
            parameter: "v".to_string()
        })
    );
}

#[test]
fn node_and_relationship_keep_their_keys() {
    let mut n = node(
        "n",
        vec![
            ("first", PropertyValue::Parameter("a".to_string())),
            ("second", PropertyValue::Boolean(true)),
            ("third", PropertyValue::Parameter("name".to_string())),
        ],
    );
    assert_eq!(substitute_in_node_pattern(&mut n, &numbers()), Ok(()));
    assert_eq!(
        n,
        node(
            "n",
            vec![
                ("first", PropertyValue::Integer(1)),
                ("second", PropertyValue::Boolean(true)),
                ("third", PropertyValue::String("Ann".to_string())),
            ],
        )
    );
    let mut r = relationship(vec![("since", PropertyValue::Parameter("b".to_string()))]);
    assert_eq!(substitute_in_relationship_pattern(&mut r, &numbers()), Ok(()));
    assert_eq!(r, relationship(vec![("since", PropertyValue::Integer(2))]));
}

#[test]
fn single_clauses_are_substituted() {
    let mut reading = ReadingClause::Unwind(UnwindClause { expression: param("v"), alias: "e".to_string() });
    assert_eq!(substitute_in_reading_clause(&mut reading, &numbers()), Ok(()));
    assert_eq!(
        reading,
        ReadingClause::Unwind(UnwindClause {
            expression: ValueExpression::VectorLiteral(vec![0.5f64.to_bits(), 1.0f64.to_bits()]),
            alias: "e".to_string(),
        })
    );
    let mut filter = WhereClause { expression: BooleanExpression::IsNull(param("a")) };
    assert_eq!(substitute_in_where_clause(&mut filter, &numbers()), Ok(()));
    assert_eq!(filter, WhereClause { expression: BooleanExpression::IsNull(integer(1)) });
    let mut projection = ReturnClause { distinct: false, items: vec![item(param("b")), item(param("a"))] };
    assert_eq!(substitute_in_return_clause(&mut projection, &numbers()), Ok(()));
    assert_eq!(projection, ReturnClause { distinct: false, items: vec![item(integer(2)), item(integer(1))] });
    let mut ordering = OrderByClause {
        items: vec![OrderByItem { expression: param("c"), direction: SortDirection::Descending }],
    };
    assert_eq!(substitute_in_order_by_clause(&mut ordering, &numbers()), Ok(()));
    assert_eq!(
        ordering,
        OrderByClause {
            items: vec![OrderByItem { expression: integer(3), direction: SortDirection::Descending }],
        }
    );
    let mut with = WithClause { items: vec![item(param("absent"))], order_by: None, limit: None };
    assert_eq!(substitute_in_with_clause(&mut with, &numbers()), Err(missing("absent")));
}

#[test]
fn invalid_list_in_a_query_names_the_parameter() {
    let mut query = query_returning(vec![ValueExpression::VectorDistance {
        left: Box::new(property("n", "embedding")),
        right: Box::new(param("bad")),
        metric: DistanceMetric::L2,
    }]);
    assert_eq!(
        substitute_parameters(&mut query, &numbers()),
        Err(SubstitutionError {
            kind: ErrorKind::InvalidListParameter,
            parameter: "bad".to_string()
        })
    );
}

#[test]
fn substitution_is_reachable_from_the_crate_root() {
    let mut parameters = parameter_substitution::ParameterMap::new();
    parameters.insert("limit".to_string(), Value::from(10));
    let mut query = query_returning(vec![param("limit")]);
    assert_eq!(parameter_substitution::substitute_parameters(&mut query, &parameters), Ok(()));
    assert_eq!(query, query_returning(vec![integer(10)]));
}

#[test]
fn failing_left_operand_leaves_the_right_untouched() {
    let mut parameters = ParameterMap::new();
    parameters.insert("b".to_string(), Value::Object(serde_json::Map::new()));
    let build = || ValueExpression::Arithmetic {
        left: Box::new(param("a")),
        operator: ArithmeticOperator::Divide,
        right: Box::new(param("b")),
    };
    let mut expr = build();
    assert_eq!(substitute_in_value_expression(&mut expr, &parameters), Err(missing("a")));
    assert_eq!(expr, build());
}

#[test]
fn failing_right_operand_keeps_the_substituted_left() {
    let mut parameters = ParameterMap::new();
    parameters.insert("a".to_string(), Value::from(1));
    let mut expr = ValueExpression::Arithmetic {
        left: Box::new(param("a")),
        operator: ArithmeticOperator::Modulo,
        right: Box::new(param("b")),
    };
    assert_eq!(substitute_in_value_expression(&mut expr, &parameters), Err(missing("b")));
    assert_eq!(
        expr,
        ValueExpression::Arithmetic {
            left: Box::new(integer(1)),
            operator: ArithmeticOperator::Modulo,
            right: Box::new(param("b")),
        }
    );
}

#[test]
fn failing_argument_stops_the_list_where_it_is() {
    let mut items = vec![param("a"), param("absent"), param("b")];
    assert_eq!(substitute_in_value_list(&mut items, &numbers()), Err(missing("absent")));
    assert_eq!(items, vec![integer(1), param("absent"), param("b")]);
}

#[test]
fn failing_candidate_keeps_the_probe_and_later_candidates() {
    let mut parameters = ParameterMap::new();
    parameters.insert("a".to_string(), Value::from(1));
    parameters.insert("c".to_string(), Value::Object(serde_json::Map::new()));
    let mut expr =
        BooleanExpression::In { expression: param("a"), list: vec![param("b"), param("c")] };
    assert_eq!(substitute_in_boolean_expression(&mut expr, &parameters), Err(missing("b")));
    assert_eq!(
        expr,
        BooleanExpression::In { expression: integer(1), list: vec![param("b"), param("c")] }
    );
}

#[test]
fn failing_right_branch_keeps_the_substituted_left_branch() {
    let mut expr = BooleanExpression::Or(
        Box::new(BooleanExpression::IsNull(param("a"))),
        Box::new(BooleanExpression::Comparison {
            left: param("absent"),
            operator: ComparisonOperator::LessThan,
            right: param("b"),
        }),
    );
    assert_eq!(substitute_in_boolean_expression(&mut expr, &numbers()), Err(missing("absent")));
    assert_eq!(
        expr,
        BooleanExpression::Or(
            Box::new(BooleanExpression::IsNull(integer(1))),
            Box::new(BooleanExpression::Comparison {
                left: param("absent"),
                operator: ComparisonOperator::LessThan,
                right: param("b"),
            }),
        )
    );
}

#[test]
fn failing_start_node_leaves_the_segments_untouched() {
    let mut parameters = ParameterMap::new();
    parameters.insert("b".to_string(), Value::Object(serde_json::Map::new()));
    let build = || {
        GraphPattern::Path(PathPattern {
            start_node: node("s", vec![("k", PropertyValue::Parameter("a".to_string()))]),
            segments: vec![PathSegment {
                relationship: relationship(vec![("w", PropertyValue::Parameter("b".to_string()))]),
                end_node: node("e", vec![]),
            }],
        })
    };
    let mut pattern = build();
    assert_eq!(substitute_in_graph_pattern(&mut pattern, &parameters), Err(missing("a")));
    assert_eq!(pattern, build());
}

#[test]
fn failing_pattern_leaves_later_patterns_untouched() {
    let mut clause = ReadingClause::Match(MatchClause {
        patterns: vec![
            GraphPattern::Node(node("n", vec![("k", PropertyValue::Parameter("a".to_string()))])),
            GraphPattern::Node(node("m", vec![("k", PropertyValue::Parameter("absent".to_string()))])),
            GraphPattern::Node(node("o", vec![("k", PropertyValue::Parameter("b".to_string()))])),
        ],
    });
    assert_eq!(substitute_in_reading_clause(&mut clause, &numbers()), Err(missing("absent")));
    assert_eq!(
        clause,
        ReadingClause::Match(MatchClause {
            patterns: vec![
                GraphPattern::Node(node("n", vec![("k", PropertyValue::Integer(1))])),
                GraphPattern::Node(node(
                    "m",
                    vec![("k", PropertyValue::Parameter("absent".to_string()))]
                )),
                GraphPattern::Node(node("o", vec![("k", PropertyValue::Parameter("b".to_string()))])),
            ],
        })
    );
}

#[test]
fn failing_item_leaves_the_nested_ordering_untouched() {
    let mut parameters = ParameterMap::new();
    parameters.insert("b".to_string(), Value::Object(serde_json::Map::new()));
    let build = || WithClause {
        items: vec![item(param("a"))],
        order_by: Some(OrderByClause {
            items: vec![OrderByItem { expression: param("b"), direction: SortDirection::Ascending }],
        }),
        limit: Some(3),
    };
    let mut clause = build();
    assert_eq!(substitute_in_with_clause(&mut clause, &parameters), Err(missing("a")));
    assert_eq!(clause, build());
}

#[test]
fn failing_second_ordering_item_keeps_the_first() {
    let mut clause = OrderByClause {
        items: vec![
            OrderByItem { expression: param("a"), direction: SortDirection::Descending },
            OrderByItem { expression: param("absent"), direction: SortDirection::Ascending },
        ],
    };
    assert_eq!(substitute_in_order_by_clause(&mut clause, &numbers()), Err(missing("absent")));
    assert_eq!(
        clause,
        OrderByClause {
            items: vec![
                OrderByItem { expression: integer(1), direction: SortDirection::Descending },
                OrderByItem { expression: param("absent"), direction: SortDirection::Ascending },
            ],
        }
    );
}

#[test]
fn failing_query_keeps_its_clauses_and_what_was_substituted() {
    let mut query = full_query();
    let mut parameters = ParameterMap::new();
    parameters.insert("name".to_string(), Value::String("Ann".to_string()));
    parameters.insert("a".to_string(), Value::from(1));
    assert_eq!(substitute_parameters(&mut query, &parameters), Err(missing("b")));
    let mut expected = full_query();
    expected.reading_clauses = vec![ReadingClause::Match(MatchClause {
        patterns: vec![
            GraphPattern::Node(node("n", vec![("name", PropertyValue::String("Ann".to_string()))])),
            GraphPattern::Path(PathPattern {
                start_node: node("x", vec![("rank", PropertyValue::Integer(1))]),
                segments: vec![PathSegment {
                    relationship: relationship(vec![(
                        "since",
                        PropertyValue::Parameter("b".to_string()),
                    )]),
                    end_node: node("y", vec![("rank", PropertyValue::Parameter("c".to_string()))]),
                }],
            }),
        ],
    })];
    assert_eq!(query, expected);
}

#[test]
fn failing_property_keeps_the_keys() {
    let mut n = node(
        "n",
        vec![
            ("first", PropertyValue::Parameter("a".to_string())),
            ("second", PropertyValue::Parameter("absent".to_string())),
            ("third", PropertyValue::Parameter("b".to_string())),
        ],
    );
    assert_eq!(substitute_in_node_pattern(&mut n, &numbers()), Err(missing("absent")));
    assert_eq!(
        n,
        node(
            "n",
            vec![
                ("first", PropertyValue::Integer(1)),
                ("second", PropertyValue::Parameter("absent".to_string())),
                ("third", PropertyValue::Parameter("b".to_string())),
            ],
        )
    );
}
