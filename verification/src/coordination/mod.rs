//! Coordination of tasks through a dependency graph: a task waits for its
//! prerequisites, cancellation spreads to dependents, and the graph never
//! holds a cycle.

pub mod paths;
pub mod graph;
pub mod visualizer;
