//! Core of a rule-based computation engine: a `Scheduler` binds requested
//! outputs ("roots") to statically resolved execution paths, drives their
//! memoized execution, and guards the lifecycle of the shared execution
//! environment.

pub mod context;
pub mod graph;
pub mod nodes;
pub mod rule_graph;
pub mod scheduler;
pub mod selectors;
pub mod types;
