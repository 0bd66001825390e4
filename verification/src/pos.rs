//! Proof-of-stake component of the scaffold. Validator selection and reward
//! distribution are outside the ledger core; these entry points reserve the
//! module's shape and perform no work.

use vstd::prelude::*;

verus! {

/// Initialize the proof-of-stake consensus mechanism.
pub fn init() {
    setup_staking();
    setup_validator_selection();
    setup_reward_distribution();
}

/// Hook for the staking setup; no ledger state is touched.
fn setup_staking() {
}

/// Hook for the validator-selection setup; no ledger state is touched.
fn setup_validator_selection() {
}

/// Hook for the reward-distribution setup; no ledger state is touched.
fn setup_reward_distribution() {
}

} // verus!
