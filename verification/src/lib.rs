//! A verified core for an album-to-video publishing pipeline.
//!
//! The library tracks which stage each album has reached, persists enough
//! state to resume after a failure, applies an exclusion policy, and retries
//! transient provider failures.  Everything effectful (network, disk,
//! subprocesses) is driven from outside through explicit actions and events.

pub mod config;
pub mod flow;
pub mod model;
pub mod rx;
pub mod source;
pub mod store;
pub mod strutil;
pub mod util;
pub mod video;
pub mod youtube;
