//! Decentralized AI-training component of the scaffold. Data governance and
//! training are outside the ledger core; these entry points reserve the
//! module's shape and perform no work.

use vstd::prelude::*;

verus! {

/// Initialize the decentralized AI-training framework.
pub fn init() {
    setup_decentralized_storage();
    setup_governance_driven_data_curation();
    setup_consensus_based_data_validation();
    setup_privacy_preserving_ai_training();
    setup_incentives_for_contributions();
}

/// Hook for decentralized data storage; no ledger state is touched.
fn setup_decentralized_storage() {
}

/// Hook for governance-driven data curation; no ledger state is touched.
fn setup_governance_driven_data_curation() {
}

/// Hook for consensus-based data validation; no ledger state is touched.
fn setup_consensus_based_data_validation() {
}

/// Hook for privacy-preserving training; no ledger state is touched.
fn setup_privacy_preserving_ai_training() {
}

/// Hook for contribution incentives; no ledger state is touched.
fn setup_incentives_for_contributions() {
}

} // verus!
