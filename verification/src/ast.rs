//! The abstract syntax tree of a query.
//!
//! Floating-point numbers are held as their IEEE-754 bit patterns, so that two
//! trees are equal exactly when they are the same tree.

use vstd::prelude::*;

verus! {

/// The value of a node or relationship property.
#[derive(Clone, Debug, PartialEq)]
pub enum PropertyValue {
    Null,
    Boolean(bool),
    Integer(i64),
    /// A double, as its bit pattern.
    Float(u64),
    String(String),
    /// A reference to a parameter, by name, still to be replaced.
    Parameter(String),
}

/// A property value with its text as a sequence of characters.
pub enum PropertyValueView {
    Null,
    Boolean(bool),
    Integer(i64),
    Float(u64),
    String(Seq<char>),
    Parameter(Seq<char>),
}

impl View for PropertyValue {
    type V = PropertyValueView;

    open spec fn view(&self) -> PropertyValueView {
        match *self {
            PropertyValue::Null => PropertyValueView::Null,
            PropertyValue::Boolean(b) => PropertyValueView::Boolean(b),
            PropertyValue::Integer(i) => PropertyValueView::Integer(i),
            PropertyValue::Float(bits) => PropertyValueView::Float(bits),
            PropertyValue::String(s) => PropertyValueView::String(s@),
            PropertyValue::Parameter(name) => PropertyValueView::Parameter(name@),
        }
    }
}

/// One entry of a property mapping.
#[derive(Clone, Debug, PartialEq)]
pub struct Property {
    pub key: String,
    pub value: PropertyValue,
}

/// A node of a graph pattern. The keys of `properties` are pairwise distinct.
#[derive(Clone, Debug, PartialEq)]
pub struct NodePattern {
    pub variable: Option<String>,
    pub labels: Vec<String>,
    pub properties: Vec<Property>,
}

#[derive(Clone, Copy, Debug, PartialEq, Eq)]
pub enum RelationshipDirection {
    Outgoing,
    Incoming,
    Undirected,
}

/// A relationship of a graph pattern. The keys of `properties` are pairwise
/// distinct.
#[derive(Clone, Debug, PartialEq)]
pub struct RelationshipPattern {
    pub variable: Option<String>,
    pub types: Vec<String>,
    pub direction: RelationshipDirection,
    pub properties: Vec<Property>,
}

/// One step of a path: a relationship and the node it leads to.
#[derive(Clone, Debug, PartialEq)]
pub struct PathSegment {
    pub relationship: RelationshipPattern,
    pub end_node: NodePattern,
}

#[derive(Clone, Debug, PartialEq)]
pub struct PathPattern {
    pub start_node: NodePattern,
    pub segments: Vec<PathSegment>,
}

#[derive(Clone, Debug, PartialEq)]
pub enum GraphPattern {
    Node(NodePattern),
    Path(PathPattern),
}

/// A property of a bound variable, as in `n.age`.
#[derive(Clone, Debug, PartialEq)]
pub struct PropertyRef {
    pub variable: String,
    pub property: String,
}

#[derive(Clone, Copy, Debug, PartialEq, Eq)]
pub enum ArithmeticOperator {
    Add,
    Subtract,
    Multiply,
    Divide,
    Modulo,
}

#[derive(Clone, Copy, Debug, PartialEq, Eq)]
pub enum DistanceMetric {
    L2,
    Cosine,
    Dot,
}

#[derive(Clone, Copy, Debug, PartialEq, Eq)]
pub enum ComparisonOperator {
    Equal,
    NotEqual,
    LessThan,
    LessThanOrEqual,
    GreaterThan,
    GreaterThanOrEqual,
}

/// An expression that yields a value.
#[derive(Debug, PartialEq)]
pub enum ValueExpression {
    Property(PropertyRef),
    Variable(String),
    Literal(PropertyValue),
    /// A reference to a parameter, by name, still to be replaced.
    Parameter(String),
    /// A vector constant; each element is a double, as its bit pattern, which
    /// the consumer of the tree narrows to single precision.
    VectorLiteral(Vec<u64>),
    ScalarFunction { name: String, args: Vec<ValueExpression> },
    AggregateFunction { name: String, args: Vec<ValueExpression>, distinct: bool },
    Arithmetic {
        left: Box<ValueExpression>,
        operator: ArithmeticOperator,
        right: Box<ValueExpression>,
    },
    VectorDistance {
        left: Box<ValueExpression>,
        right: Box<ValueExpression>,
        metric: DistanceMetric,
    },
    VectorSimilarity {
        left: Box<ValueExpression>,
        right: Box<ValueExpression>,
        metric: DistanceMetric,
    },
}

/// An expression that yields a truth value.
#[derive(Debug, PartialEq)]
pub enum BooleanExpression {
    Comparison { left: ValueExpression, operator: ComparisonOperator, right: ValueExpression },
    And(Box<BooleanExpression>, Box<BooleanExpression>),
    Or(Box<BooleanExpression>, Box<BooleanExpression>),
    Not(Box<BooleanExpression>),
    Exists(PropertyRef),
    In { expression: ValueExpression, list: Vec<ValueExpression> },
    Like { expression: ValueExpression, pattern: String },
    ILike { expression: ValueExpression, pattern: String },
    Contains { expression: ValueExpression, substring: String },
    StartsWith { expression: ValueExpression, prefix: String },
    EndsWith { expression: ValueExpression, suffix: String },
    IsNull(ValueExpression),
    IsNotNull(ValueExpression),
}

#[derive(Debug, PartialEq)]
pub struct WhereClause {
    pub expression: BooleanExpression,
}

#[derive(Clone, Copy, Debug, PartialEq, Eq)]
pub enum SortDirection {
    Ascending,
    Descending,
}

#[derive(Debug, PartialEq)]
pub struct OrderByItem {
    pub expression: ValueExpression,
    pub direction: SortDirection,
}

#[derive(Debug, PartialEq)]
pub struct OrderByClause {
    pub items: Vec<OrderByItem>,
}

/// One projected expression, with its alias if it has one.
#[derive(Debug, PartialEq)]
pub struct ReturnItem {
    pub expression: ValueExpression,
    pub alias: Option<String>,
}

#[derive(Debug, PartialEq)]
pub struct ReturnClause {
    pub distinct: bool,
    pub items: Vec<ReturnItem>,
}

/// The intermediate projection, with its own ordering.
#[derive(Debug, PartialEq)]
pub struct WithClause {
    pub items: Vec<ReturnItem>,
    pub order_by: Option<OrderByClause>,
    pub limit: Option<u64>,
}

#[derive(Clone, Debug, PartialEq)]
pub struct MatchClause {
    pub patterns: Vec<GraphPattern>,
}

#[derive(Debug, PartialEq)]
pub struct UnwindClause {
    pub expression: ValueExpression,
    pub alias: String,
}

#[derive(Debug, PartialEq)]
pub enum ReadingClause {
    Match(MatchClause),
    Unwind(UnwindClause),
}

/// A whole query. The clauses are held in the order in which they are
/// evaluated.
#[derive(Debug, PartialEq)]
pub struct CypherQuery {
    pub reading_clauses: Vec<ReadingClause>,
    pub where_clause: Option<WhereClause>,
    pub with_clause: Option<WithClause>,
    pub post_with_reading_clauses: Vec<ReadingClause>,
    pub post_with_where_clause: Option<WhereClause>,
    pub return_clause: ReturnClause,
    pub order_by: Option<OrderByClause>,
    pub limit: Option<u64>,
    pub skip: Option<u64>,
}

} // verus!
