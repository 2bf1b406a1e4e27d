//! Transparent zcash extensions (TZEs).
pub mod eth_bridge;
