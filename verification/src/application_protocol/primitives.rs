//! The primitive values of the application layer.

pub mod data_value;
