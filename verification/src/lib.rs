//! Core of a local UDP proxy endpoint: a latency-scored balancer that elects
//! the best of several upstream servers, and the per-source association
//! bookkeeping of the UDP relay.
//!
//! Every function in this crate carries a contract that Verus proves.
//! Sockets, timers and task scheduling are left to the program that uses it.

pub mod balancer;
pub mod local;
pub mod probe;
pub mod score;
pub mod server;
pub mod socks5;
pub mod table;
pub mod udprelay;
