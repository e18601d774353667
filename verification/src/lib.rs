//! A packet-sniffer core: a verified protocol decoder chain
//! (Ethernet -> IPv4/IPv6 -> TCP/UDP -> DNS), aggregate per-category
//! counters, and the pure decision logic of the capture loop and its
//! terminal front end.

pub mod bytes;
pub mod cli;
pub mod counters;
pub mod laws;
pub mod packet;
pub mod session;
pub mod text;
pub mod ui;
