//! Verified control plane and consensus core of the Kivi tablet store.

pub mod arith;
pub mod bounded;
pub mod consensus;
pub mod control;
pub mod decimal;
pub mod ids;
pub mod index;
pub mod order;
pub mod ranked;
pub mod search;
pub mod text;
pub mod time;
pub mod wire;
