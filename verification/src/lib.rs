//! Batch tagging workflow for cloud compute instances.
//!
//! The library enumerates an instance inventory page by page, filters out
//! instances that already carry a target tag key, asks the operator about
//! each remaining candidate, and records the outcome of applying the tag
//! to each confirmed instance. All decision logic lives here, verified;
//! the network and console edges hand in plain values.

pub mod confirm;
pub mod fetch;
pub mod model;
pub mod run;
pub mod sort;
pub mod tags;
