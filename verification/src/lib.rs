//! Analysis, filtering and target-generation logic for IPv6 address sets.
//!
//! Addresses are modelled as `u128` values in network byte order (the
//! integer whose big-endian bytes are the sixteen octets of the address).

pub mod addr;
pub mod predicates;
pub mod runner;
pub mod analysis;
pub mod text;
pub mod formats;
pub mod analyze;
pub mod tga;
pub mod view;
pub mod scan;
pub mod probe;
pub mod plugin;
pub mod frontends;
