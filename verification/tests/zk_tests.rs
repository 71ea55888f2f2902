use lib_consensus::zk::{create_default_proof, initialize_zk_system};

#[test]
fn test_unified_zk_system_initialization() {
    let zk_system = initialize_zk_system();
    assert!(zk_system.is_ok());
}

#[test]
fn test_default_proof_creation() {
    let proof = create_default_proof();
    assert!(proof.is_empty());
    assert!(proof.is_mock);
}

#[test]
fn zk_system_is_ready_after_initialization() {
    let zk_system = initialize_zk_system().unwrap();
    assert!(zk_system.is_ready());
}

#[test]
fn proof_with_data_is_not_empty() {
    let mut proof = create_default_proof();
    proof.proof_data.push(1);
    assert!(!proof.is_empty());
}
