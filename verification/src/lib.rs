//! Verified core of a serial-port connection monitor.
//!
//! The library holds the logic of the connection subsystem: the error
//! taxonomy, the transport handle's channel semantics, the connection
//! state machine, the supervisor's retry and drain decisions, the port
//! list, and the export table builder. The asynchronous runtime that
//! drives a real device lives outside the library and feeds events in.

pub mod connection;
pub mod error;
pub mod export;
pub mod handle;
pub mod ports;
pub mod sim;
pub mod supervisor;
