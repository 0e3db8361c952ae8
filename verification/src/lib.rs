//! A network-probe exporter's core: probe targets and IP literals,
//! request parsing and validation, the session coordinator's decisions,
//! and the translation of a session's outcome into labeled metrics.
//! Name resolution, the raw ICMP socket and the HTTP server around this
//! library stay outside it and hand it plain values.

pub mod http;
pub mod ip;
pub mod metrics;
pub mod pinger;
pub mod query;
pub mod resolver;
pub mod settings;
pub mod text;
pub mod utils;
