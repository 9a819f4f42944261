//! Client-side session logic for a sharded, quorum-replicated network:
//! quorum voting over elder replies, correlation of replies with pending
//! requests, the bootstrap protocol and elder connection accounting.

mod digest;

pub mod connection_manager;
pub mod elders;
pub mod error;
pub mod ids;
pub mod quorum;
pub mod registry;
pub mod session;
pub mod vault;
pub mod writer;

pub use error::Error;
