//! The borrowing position of one owner in a lending market.

pub mod arrays;
pub mod big_fraction;
pub mod collateral;
pub mod decimal;
pub mod error;
pub mod fraction;
pub mod laws;
pub mod lines;
pub mod liquidity;
pub mod market;
pub mod meaning;
pub mod model;
pub mod obligation;
pub mod pubkey;
pub mod reading;
pub mod summary;
pub mod u256;
