//! Protocol core of a pixel-canvas synchronization contract pair.
//!
//! Two ledger-hosted instances share a fixed-size pixel canvas over an
//! asynchronous, packet-based channel. This crate holds the verified
//! protocol core: channel handshake validation, the packet and
//! acknowledgment wire format, the bounds checks guarding every canvas
//! mutation, and the entry-point decision logic of both roles. The host
//! runtime (storage, packet transport, transaction sequencing) stays
//! outside.

pub mod error;
pub mod msg;
pub mod state;
pub mod validate;
pub mod codec;
pub mod response;
pub mod ibc;
pub mod contract;
pub mod receiver;
pub mod sender;
