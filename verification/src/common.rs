//! Numeric helpers shared by the boosters.

pub mod capping;
pub mod fixed;
pub mod utils;
