//! Parameter substitution for a graph-pattern query language.
//!
//! A parsed query may refer to values that are supplied only when the query is
//! run. This library replaces every such reference by the literal that the
//! parameter map binds it to, and says exactly which tree comes out, or which
//! failure is reported first.

pub mod ast;
pub mod error;
pub mod json;
pub mod params;
pub mod model;
pub mod coerce;
pub mod expression;
pub mod query_model;
pub mod clause;
pub mod references;
pub mod unchanged;
pub mod laws;

pub use crate::clause::substitute_parameters;
pub use crate::params::ParameterMap;
