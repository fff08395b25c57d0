//! Verified core of a cNFT-gated raffle: the per-entry ticket bitmap, the
//! raffle account state and the decisions that each instruction takes.

pub mod errors;
pub mod instructions;
pub mod laws;
pub mod state;

pub use errors::ErrorCode;
