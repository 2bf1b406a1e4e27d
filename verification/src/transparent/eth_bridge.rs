//! The `eth_bridge` transparent zcash extension.
pub mod amount;
pub mod builder;
pub mod context;
pub mod encoding;
pub mod error;
pub mod modes;
pub mod precondition;
pub mod program;
pub mod script;
pub mod witness;

pub use self::context::Context;
pub use self::error::Error;
pub use self::precondition::Precondition;
pub use self::program::Program;
pub use self::witness::Witness;
