//! Adaptive control decisions over typed observations.

pub mod action;
pub mod baseline;
pub mod controller;
pub mod cooldown;
pub mod learned;
pub mod ledger;
pub mod model;
pub mod objective;
pub mod observation;
pub mod policy;
pub mod safety;
pub mod simulation;
pub mod tuning;
