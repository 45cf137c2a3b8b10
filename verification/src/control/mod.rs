//! Replicated cluster control plane: typed desired topology.
//!
//! The control plane owns the desired topology. Each tablet's own consensus
//! membership stays authoritative for its actual voters. Migration brings the
//! actual voters to the desired ones through persisted plans.

pub mod adaptive;
pub mod catalog;
pub mod failure;
pub mod layouts;
pub mod merge;
pub mod migration;
pub mod mutation;
pub mod node;
pub mod placement;
pub mod planner;
pub mod redundancy;
pub mod roster;
pub mod split;
pub mod state;
