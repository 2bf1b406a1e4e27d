//! Transparent Zcash extensions.
pub mod transparent;
