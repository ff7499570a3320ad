//! A monitor for line-oriented serial connections: line framing, per-port
//! session decisions, keyboard routing and log formatting.

pub mod cli;
pub mod data;
pub mod log_monitor;
pub mod logging;
pub mod read_line;
pub mod serial_monitor;
pub mod writer;
