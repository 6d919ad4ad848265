//! Core of an asynchronous client driver for a wide-column database speaking
//! the CQL binary protocol: wire framing codec, per-connection multiplexer
//! state, and the session orchestration layer (load balancing, retry,
//! reconnection, handshake).

pub mod codec;
pub mod compression;
pub mod error;
pub mod frame;
pub mod handshake;
pub mod load_balancing;
pub mod policies;
pub mod query;
pub mod response;
pub mod session;
pub mod startup;
pub mod streams;
pub mod wire;
