//! Cross-chain bridge component of the scaffold. Bridging protocols are
//! outside the ledger core; these entry points reserve the module's shape
//! and perform no work.

use vstd::prelude::*;

verus! {

/// Initialize the bridges to the supported external chains.
pub fn init() {
    setup_ethereum_bridge();
    setup_bnb_chain_bridge();
    setup_solana_bridge();
    setup_polkadot_bridge();
    enable_token_transfers();
    support_cross_chain_dapps();
}

/// Hook for the Ethereum bridge; no ledger state is touched.
fn setup_ethereum_bridge() {
}

/// Hook for the BNB Chain bridge; no ledger state is touched.
fn setup_bnb_chain_bridge() {
}

/// Hook for the Solana bridge; no ledger state is touched.
fn setup_solana_bridge() {
}

/// Hook for the Polkadot bridge; no ledger state is touched.
fn setup_polkadot_bridge() {
}

/// Hook for cross-chain token transfers; no ledger state is touched.
fn enable_token_transfers() {
}

/// Hook for cross-chain decentralized applications; no ledger state is touched.
fn support_cross_chain_dapps() {
}

} // verus!
