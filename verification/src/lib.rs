//! Query planning for a parallel execution engine: compiles a single-block
//! SQL SELECT into an optimized tree of physical operators.
//!
//! The planner orders the joins along the equality predicates (`join_order`,
//! `planner`), turns the remaining predicates into filters (`selection`) and
//! pushes them toward their data (`optimizer`), places aggregation and
//! sort/limit above (`agg_grouping`, `sort_limit`), and assigns to every
//! operator the physical columns that it puts out (`resolve`). `conf_writer`
//! writes the plan as a configuration for the engine.

pub mod agg_grouping;
pub mod conf_laws;
pub mod conf_value;
pub mod conf_writer;
pub mod equality;
pub mod error;
pub mod explain;
pub mod join_order;
pub mod metadata;
pub mod ops;
pub mod optimizer;
pub mod plan_laws;
pub mod planner;
pub mod projection;
pub mod query;
pub mod resolve;
pub mod schema;
pub mod selection;
pub mod sort_limit;
pub mod text;
