//! A non-fungible-token ledger for one chain of a multi-chain network, with the
//! cross-chain transfer and claim protocol that moves tokens between chains.

pub mod identity;
pub mod token;
pub mod derive_id;
pub mod state;
pub mod contract;
pub mod output;
