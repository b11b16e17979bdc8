//! Aggregate analyses over a column of addresses.

pub mod ranking;
pub mod count;
pub mod dispersion;
pub mod entropy;
pub mod statistics;
pub mod subnets;
pub mod special;
pub mod column;
pub mod filter;
pub mod unique;
