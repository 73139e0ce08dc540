//! Control-plane core of a networked power-distribution appliance.
//!
//! The library holds the verified logic of the service: IPv4 text handling
//! and subnet arithmetic, broker-endpoint validation, the bounded status
//! history, the shared device state, and the network-reconfiguration
//! state machine. Transport, OS calls and persistence live outside and
//! drive these functions with plain values.

pub mod broker;
pub mod history;
pub mod ipv4;
pub mod netchange;
pub mod state;
pub mod status;

pub use broker::Broker;
pub use netchange::{NetSetting, SaveMsg};
