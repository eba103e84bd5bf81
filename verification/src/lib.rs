//! A codec for BACnet/IP: protocol entities to bytes and back, layer by layer.
//!
//! A link frame wraps a network unit, which wraps an application unit, which
//! carries a service built from tagged values. Every encoder appends to a
//! [`common::io::Writer`] over a fixed-size buffer and every decoder consumes
//! from a byte slice through a [`common::io::Reader`]. Malformed or truncated
//! input is reported as an [`common::error::Error`].

pub mod application_protocol;
pub mod common;
pub mod network_protocol;
