//! Assignment of globally monotonic logical timestamps to partitioned,
//! at-least-once streaming sources, under two consistency models: a
//! real-time model driven by watermark polling, and a bring-your-own
//! model driven by a control stream of declared timestamp bindings.
//!
//! - [`types`]: identities, control messages, notifications, records;
//! - [`parse`]: the BYO control-stream wire format;
//! - [`byo`]: per-source BYO state and the acceptance rule;
//! - [`rt`]: per-source real-time state and the bounded offset advance;
//! - [`registry`]: keyed lookup over the tracked-source registries;
//! - [`store`]: the durable timestamp store's interface;
//! - [`timestamper`]: the assigner itself and its per-tick operations;
//! - [`laws`]: the protocol's global properties, stated and proved.
//!
//! A driver owns the clients, channels and timers, and calls the tick
//! operations with plain values; every protocol decision is made, and
//! verified, here.

pub mod byo;
pub mod laws;
pub mod parse;
pub mod registry;
pub mod rt;
pub mod store;
pub mod timestamper;
pub mod types;
