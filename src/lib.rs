//! Detection of sandwich attacks in the ordered transaction list of a block.
//!
//! The library is a pure, verified core: address and hash values, the router
//! registry, the sliding-window matcher and the decision function that drives
//! a live block feed.

pub mod primitives;
pub mod registry;
pub mod matcher;
pub mod laws;
pub mod orchestrator;
