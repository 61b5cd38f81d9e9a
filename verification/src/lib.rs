//! Weighted target selection for a TCP reverse proxy.
//!
//! A [`balancer::LoadBalancer`] keeps one weight per backend target and draws
//! targets at random in proportion to those weights. The health probe and the
//! per-connection session are state machines over plain values; the caller
//! performs the socket work they ask for and reports back what happened.

pub mod balancer;
pub mod config;
pub mod health;
pub mod model;
pub mod selector;
pub mod session;
pub mod weights;
