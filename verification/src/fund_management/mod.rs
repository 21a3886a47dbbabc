//! Moving funds around between scenarios: splitting, consolidating, draining
//! and reconciling.
pub mod consolidator;
pub mod drainer;
pub mod reconciler;
pub mod splitter;
