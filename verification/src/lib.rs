//! Building blocks for realtime and actor-style services: fixed-capacity sample buffers and
//! their pools, metric stores, a task supervisor, a publish/subscribe broker, tracing
//! configuration, and small terminal helpers.

pub mod cask;
pub mod glados;
pub mod hermes;
pub mod oculus;
pub mod logging;
pub mod store;
pub mod rt_metrics;
pub mod rt_store;
pub mod rt_snapshot;
pub mod janus;
pub mod quill;
pub mod recur;
pub mod task_builder;
pub mod spells;
pub mod tracy;
