//! The payloads of the services.

pub mod read_property_multiple;
pub mod time_synchronization;
