//! Host-side bridge between a cellular UART modem and a local SMS store.
//!
//! The library holds the verified logic: configuration checks, the wire
//! codec, the handshake reply grammar, the connection state machine, the
//! per-message delivery pipeline and the push-notification URL.
pub mod config;
pub mod codec;
pub mod probe;
pub mod connection;
pub mod delivery;
pub mod notify;
