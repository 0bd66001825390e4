use alsania::ai_training_framework;
use alsania::consensus;
use alsania::cross_chain_bridges;
use alsania::node;
use alsania::pos;
use alsania::runtime;

#[test]
fn test_initialization() {
    // Test Proof-of-Stake (PoS) initialization
    pos::init();

    // Test consensus initialization
    consensus::init();

    // Test Cross-Chain Bridges initialization
    cross_chain_bridges::init();

    // Test Decentralized AI Training Framework initialization
    ai_training_framework::init();
}

#[test]
fn node_startup_runs_every_component() {
    node::init_blockchain();
    node::start_network();
    runtime::initialize();
}
