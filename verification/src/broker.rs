//! The publish/subscribe broker: its routing tables and the decisions it takes
//! on each network event.
pub mod broker_state;
pub mod broker_core;
