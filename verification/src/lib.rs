//! Monitoring of servers: clients sample the hosts that they run on and report to a
//! server, which keeps the state of all hosts, stores it, and shows it.
//!
//! The library holds the rules; what reads the machine, the network and the database
//! hands it plain values and takes plain values back.

pub mod client;
pub mod clock;
pub mod decimal;
pub mod payload;
pub mod registry;
pub mod server;
pub mod text;
