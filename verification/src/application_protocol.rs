//! The application layer: values, services and the units that carry them.

pub mod application_pdu;
pub mod confirmed;
pub mod primitives;
pub mod services;
pub mod unconfirmed;
