//! Consensus component of the scaffold. Block production and finality are
//! outside the ledger core; these entry points reserve the module's shape
//! and perform no work.

use vstd::prelude::*;

verus! {

/// Initialize the consensus mechanism.
pub fn init() {
    setup_proof_of_stake();
    setup_lattice_based_signatures();
}

/// Hook for the proof-of-stake setup; no ledger state is touched.
fn setup_proof_of_stake() {
}

/// Hook for the lattice-based signature setup; no ledger state is touched.
fn setup_lattice_based_signatures() {
}

} // verus!
