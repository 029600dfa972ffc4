//! Verified core of a small message server.
//!
//! The library holds everything about the server that is pure logic: the
//! wire codec for its messages (a protobuf-style encoding built on base-128
//! varints), the classification of an incoming payload and the computation
//! of the reply, the per-connection decision rules, and the cooperative
//! shutdown lifecycle. The surrounding binary supplies the sockets and
//! threads and consults these functions for every decision.

pub mod varint;
pub mod message;
pub mod codec;
pub mod handler;
pub mod server;
