//! Verified core of a vsock/IPv4 network proxy for nitro enclaves: packet
//! inspection, command-line value parsing, port-range checks, bootstrap
//! record handling, netfilter ruleset planning and the decisions taken by
//! the proxy loops.

pub mod bootstrap;
pub mod cli;
pub mod text;
pub mod decimal;
pub mod error;
pub mod packet;
pub mod worker;
pub mod pump;
pub mod interfaces;
pub mod netfilter;
pub mod parsers;
pub mod proxy;
pub mod system;
