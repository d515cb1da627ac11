//! Reachability monitoring of endpoints behind a SOCKS5 proxy: the wire
//! protocol of the proxy handshake, the classification of probe
//! outcomes, the status table and the polling cycle, each with a proved
//! contract.

pub mod config;
pub mod connection;
pub mod dashboard;
pub mod monitor;
pub mod store;
pub mod text;
pub mod types;
