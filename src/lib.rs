//! A peer-to-peer ledger node: wallet balances, a registry of peers, signed
//! transfers and the signature shares that peers exchange about their outcome.

pub mod fanout;
pub mod codec;
pub mod crypto;
pub mod net;
pub mod node;
pub mod registry;
pub mod transactions;
pub mod wallet;
