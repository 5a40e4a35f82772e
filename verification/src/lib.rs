//! A verified core for a small MQTT messaging layer: broker addresses,
//! connection options, the publish fallback, event dispatch, a rotating
//! connection pool, per-topic receivers and the shared node state.

pub mod address;
pub mod connect;
pub mod connection;
pub mod decimal;
pub mod pool;
pub mod dispatch;
pub mod publish;
pub mod receiver;
pub mod registry;
pub mod state;
pub mod string_map;
