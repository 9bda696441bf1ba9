//! Financial-integrity core of a multi-party insurance protocol.
//!
//! The crate holds the protocol's rules as verified code: role-based
//! authorization, checked arithmetic and invariant predicates, the claim
//! lifecycle, the risk-pool liquidity ledger and the oracle consensus
//! resolver. Every component is a plain value that the caller owns; storage,
//! time and identity verification are supplied by the embedding program.

pub mod authorization;
pub mod claims;
pub mod consensus;
pub mod invariants;
pub mod ledger;
pub mod oracle;
pub mod risk_pool;
pub mod table;
pub mod types;
