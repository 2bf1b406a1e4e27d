//! The modes that the `eth_bridge` extension operates in.
pub mod create;
pub mod deposit;
pub mod stf;
