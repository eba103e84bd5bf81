//! The network layer and the link frame around it.

pub mod data_link;
pub mod network_pdu;
