//! The decision logic of an ORE miner that submits its transactions to Solana as Jito bundles.
//!
//! Every rule the miner follows (how much to tip, which nonce wins, when a bundle counts as
//! landed, when to try again) stands here as a verified function. Sockets, files and the async
//! runtime live in the program around the library.

pub mod bundle;
pub mod chain;
pub mod miner;
pub mod mining;
pub mod request;
pub mod settings;
pub mod submission;
pub mod text;
pub mod tips;
pub mod transaction;
