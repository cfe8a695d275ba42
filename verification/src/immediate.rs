//! The immediate device backend: one dispatch per logical operation, awaited
//! before the next. Here stands what such a backend decides: which operators a
//! node dispatches, with what launch geometry, and what a benchmark compares.
//! The dispatching itself belongs to whoever holds the device.

pub mod nodes;
pub mod runner;
