//! Alsania: a blockchain scaffold whose core is a verified token ledger.
//!
//! The `ledger` module holds the account store and the transfer engine,
//! with full functional contracts: conservation of the total supply,
//! atomicity of failed transfers, and an append-only event log.
//! The surrounding modules (`consensus`, `pos`, `cross_chain_bridges`,
//! `ai_training_framework`, `node`, `runtime`) are the platform's reserved
//! entry points; they perform no ledger work themselves.

pub mod ai_training_framework;
pub mod consensus;
pub mod cross_chain_bridges;
pub mod ledger;
pub mod node;
pub mod pos;
pub mod runtime;
