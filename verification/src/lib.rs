//! Module bookkeeping for the voyager relayer: which chain, consensus, client and
//! plugin modules are loaded, how they are addressed, and the message types that
//! travel between them.

pub mod hex;
pub mod keccak;
pub mod strmap;
pub mod ids;
pub mod module;
pub mod process;
pub mod context;
pub mod laws;
pub mod tendermint;
pub mod ibc;
pub mod prover_api;
