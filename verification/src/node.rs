//! Node start-up for the scaffold: runs every component's entry point in
//! dependency order. The components themselves are reserved hooks; the only
//! component with real state is the ledger, which callers construct
//! explicitly via `crate::ledger::Ledger::new`.

use vstd::prelude::*;

verus! {

/// Initialize every component of the blockchain scaffold.
pub fn init_blockchain() {
    crate::pos::init();
    crate::consensus::init();
    crate::cross_chain_bridges::init();
    crate::ai_training_framework::init();
}

/// Hook for bringing the network up; no ledger state is touched.
pub fn start_network() {
}

} // verus!
