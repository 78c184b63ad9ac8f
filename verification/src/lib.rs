//! Verified core of an agent-to-agent (A2A) protocol runtime.
use vstd::prelude::*;

pub mod ambient;
pub mod text;
pub mod hashing;
pub mod digest;
pub mod domain;
pub mod task_fsm;
pub mod invariants;
pub mod transport;
pub mod observability;
pub mod strmap;
pub mod ontology;
pub mod json;
pub mod guards;
pub mod methods;
pub mod coordination;
pub mod artifacts;
pub mod runtime;
pub mod receipts;
pub mod replay;
pub mod events;

verus! {

} // verus!
