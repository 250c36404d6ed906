//! Luoshu: a registry, configuration and namespace centre.
//!
//! The verified part of the project: the stores that keep namespaces,
//! service registries and configurations, the in-memory key/value storage,
//! the wire framing of messages and the data layer that dispatches
//! requests to the stores.
pub mod assoc;
pub mod clock;
pub mod configuration;
pub mod data;
pub mod dispatch;
pub mod error;
pub mod external;
pub mod frame;
pub mod registry;
pub mod resp;
pub mod regs;
pub mod ident;
pub mod laws;
pub mod namespace;
pub mod outbox;
pub mod server;
pub mod service;
pub mod storage;
pub mod store;
pub mod util;
