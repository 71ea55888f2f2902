use lib_consensus::encoding::{push_decimal, push_le_u64};
use lib_consensus::proof_verify::{ComputeResult, NetworkState, VerificationResult, verify_pouw_against_network_state};
use lib_consensus::work_proof::{
    build_work_proof_message, uptime_hours_since, ProofOfUsefulWork, WorkProof,
};

fn blake3_of(data: &[u8]) -> [u8; 32] {
    *blake3::hash(data).as_bytes()
}

#[test]
fn decimal_and_little_endian_encodings() {
    let mut buf = Vec::new();
    push_decimal(&mut buf, 0);
    buf.push(b' ');
    push_decimal(&mut buf, 1234567890);
    buf.push(b' ');
    push_decimal(&mut buf, u64::MAX);
    assert_eq!(buf, b"0 1234567890 18446744073709551615".to_vec());
    let mut le = Vec::new();
    push_le_u64(&mut le, 0x0102030405060708);
    assert_eq!(le, 0x0102030405060708u64.to_le_bytes().to_vec());
}

#[test]
fn work_proof_message_format() {
    let m = build_work_proof_message(2000, 5, 7, b"0.5", 3, 2048000, 42);
    assert_eq!(m, b"2000:5:7:0.5:3:2048000:42".to_vec());
}

#[test]
fn work_proof_from_measurements_fields_and_hash() {
    let p = WorkProof::from_measurements(2000, 5, 7, 0x3fe0000000000000, b"0.5", 3, 42);
    assert_eq!(p.routing_work, 2000);
    assert_eq!(p.storage_work, 5);
    assert_eq!(p.compute_work, 7);
    assert_eq!(p.routes_handled, 2);
    assert_eq!(p.data_stored, 5);
    assert_eq!(p.computations_performed, 7);
    assert_eq!(p.quality_score_bits, 0x3fe0000000000000);
    assert_eq!(p.uptime_hours, 3);
    assert_eq!(p.bandwidth_provided, 2048000);
    assert_eq!(p.nonce, 42);
    let expected = blake3_of(b"2000:5:7:0.5:3:2048000:42");
    assert_eq!(p.hash, expected);
}

#[test]
fn work_proof_verifies_its_own_fields() {
    let p = WorkProof::from_measurements(2000, 5, 7, 0, b"0.5", 3, 42);
    assert!(p.verify(b"0.5"));
    assert!(!p.verify(b"0.6"));
    let mut tampered = p;
    tampered.data_stored = 6;
    assert!(!tampered.verify(b"0.5"));
    let mut forged = p;
    forged.hash[0] ^= 1;
    assert!(!forged.verify(b"0.5"));
}

#[test]
fn work_proof_with_partial_thousand_routing_verifies() {
    // The hash covers the routing work itself, so 1500 verifies too.
    let p = WorkProof::from_measurements(1500, 5, 7, 0, b"0.5", 3, 42);
    assert_eq!(p.routes_handled, 1);
    assert!(p.verify(b"0.5"));
    let mut tampered = p;
    tampered.routing_work = 1000;
    assert!(!tampered.verify(b"0.5"));
}

#[test]
fn work_proof_total_work() {
    let p = WorkProof::from_measurements(2500, 5, 7, 0, b"1", 0, 1);
    assert_eq!(p.total_work(), 2000 + 5 + 7);
}

#[test]
fn work_proof_new_uses_clock_and_random_nonce() {
    let p = WorkProof::new(3000, 10, 20, 0, [1u8; 32], 0, b"0.9");
    assert_eq!(p.routes_handled, 3);
    assert_eq!(p.bandwidth_provided, 3000 * 1024);
    assert_eq!(p.uptime_hours, 720);
    assert!(p.verify(b"0.9"));
    let future = WorkProof::new(3000, 10, 20, u64::MAX, [1u8; 32], 0, b"0.9");
    assert_eq!(future.uptime_hours, 0);
}

#[test]
fn uptime_is_capped_at_thirty_days() {
    assert_eq!(uptime_hours_since(100, 100 + 7200), 2);
    assert_eq!(uptime_hours_since(0, 10_000_000), 720);
    assert_eq!(uptime_hours_since(500, 100), 0);
}

#[test]
fn difficulty_values() {
    assert_eq!(ProofOfUsefulWork::calculate_difficulty(0), u32::MAX);
    assert_eq!(ProofOfUsefulWork::calculate_difficulty(9), 100_000);
    assert_eq!(ProofOfUsefulWork::calculate_difficulty(999_999), 1);
    assert_eq!(ProofOfUsefulWork::calculate_difficulty(2_000_000), 1);
    assert_eq!(ProofOfUsefulWork::calculate_difficulty(1), 500_000);
    assert_eq!(ProofOfUsefulWork::calculate_difficulty(u64::MAX), 1);
}

#[test]
fn difficulty_never_rises_with_more_work() {
    let mut previous = ProofOfUsefulWork::calculate_difficulty(0);
    for w in [1u64, 2, 10, 99, 1000, 50_000, 999_998, 10_000_000] {
        let d = ProofOfUsefulWork::calculate_difficulty(w);
        assert!(d <= previous && d >= 1);
        previous = d;
    }
}

#[test]
fn pouw_self_contained_verification() {
    let wp = WorkProof::from_measurements(2000, 30, 40, 0, b"0.5", 1, 9);
    let pouw = ProofOfUsefulWork::from_parts(2000, 30, 40, 1_700_000_000, [3u8; 32], wp);
    assert_eq!(pouw.difficulty, ProofOfUsefulWork::calculate_difficulty(2070));
    assert!(pouw.verify_self_contained(b"0.5"));
    let mut wrong = pouw;
    wrong.difficulty += 1;
    assert!(!wrong.verify_self_contained(b"0.5"));
}

#[test]
fn pouw_new_is_self_consistent() {
    let pouw = ProofOfUsefulWork::new(4000, 30, 40, [5u8; 32], 0, b"0.25").unwrap();
    assert_eq!(pouw.node_id, [5u8; 32]);
    assert_eq!(pouw.difficulty, ProofOfUsefulWork::calculate_difficulty(4070));
    assert!(pouw.verify_self_contained(b"0.25"));
}

fn node(b0: u8, b1: u8, b2: u8) -> [u8; 32] {
    let mut id = [0u8; 32];
    id[0] = b0;
    id[1] = b1;
    id[2] = b2;
    id[3] = 4;
    id
}

fn network() -> NetworkState {
    NetworkState { total_participants: 10, average_uptime_bits: 0, total_bandwidth_shared: 1000, consensus_round: 1 }
}

#[test]
fn routing_work_record() {
    // base = 1000 / 10 = 100, factor = 7 % 5 + 1 = 3.
    assert_eq!(network().get_node_routing_work(&node(7, 0, 0)), 300);
    let rich = NetworkState { total_bandwidth_shared: 1_000_000_000, ..network() };
    assert_eq!(rich.get_node_routing_work(&node(4, 0, 0)), 10_000);
    let poor = NetworkState { total_bandwidth_shared: 3, ..network() };
    assert_eq!(poor.get_node_routing_work(&node(0, 0, 0)), 1);
}

#[test]
fn storage_attestations_record() {
    let id = node(7, 2, 0);
    let proofs = network().get_node_storage_proofs(&id);
    assert_eq!(proofs.len(), 3);
    const GIB: u64 = 1 << 30;
    assert_eq!(proofs[0].storage_capacity, GIB * 8);
    assert_eq!(proofs[0].utilization, 52);
    assert_eq!(proofs[1].storage_capacity, GIB * 3);
    assert_eq!(proofs[1].utilization, 50);
    assert_eq!(proofs[2].storage_capacity, GIB * 1);
    assert_eq!(proofs[2].utilization, 54);
    let mut tagged = b"validator".to_vec();
    tagged.extend_from_slice(&id);
    tagged.push(1);
    assert_eq!(proofs[1].validator_id, blake3_of(&tagged));
    // Challenges behind attestation i: id[(i + 2) % 32] % 5 + 1 of them.
    assert_eq!(proofs[0].challenges.len(), 1);
    assert_eq!(proofs[1].challenges.len(), 5);
    assert_eq!(proofs[2].challenges.len(), 1);
    let c = &proofs[1].challenges[4];
    assert_eq!(c.content_hash, blake3_of(b"content\x01\x04"));
    assert_eq!(c.block_index, 1);
    assert_eq!(c.challenger, b"validator-1".to_vec());
    assert_eq!(c.expires_in_secs, 3600);
    assert_eq!(c.result, VerificationResult::Valid);
    assert!(proofs.iter().all(|p| p.challenges.iter().all(|c| c.result == VerificationResult::Valid)));
}

#[test]
fn compute_results_record() {
    let id = node(7, 2, 1);
    let results = network().get_node_compute_results(&id);
    assert_eq!(results.len(), 2);
    assert_eq!(results[0].work_units, 170);
    assert_eq!(results[1].work_units, 120);
    let mut input = id.to_vec();
    input.extend_from_slice(&170u64.to_le_bytes());
    input.push(0);
    assert_eq!(results[0].computation_hash, blake3_of(&input));
    let mut sig_input = id.to_vec();
    sig_input.extend_from_slice(&results[0].computation_hash);
    sig_input.extend_from_slice(&170u64.to_le_bytes());
    assert_eq!(results[0].signature, blake3_of(&sig_input).to_vec());
    assert!(results.iter().all(|r| r.verify() && r.node_id == id));
    assert!(results[0].timestamp >= results[1].timestamp);
}

#[test]
fn compute_results_are_stamped_back_from_now() {
    let id = node(7, 2, 3);
    let results = network().compute_results_at(&id, 1_700_000_000);
    assert_eq!(results.len(), 4);
    for (i, r) in results.iter().enumerate() {
        assert_eq!(r.timestamp, 1_700_000_000 - 1800 * i as u64);
        assert_eq!(r.signature.len(), 32);
        assert_eq!(r.node_id, id);
        assert!(r.verify());
    }
    assert_eq!(results[2].work_units, 130);
    // Stamps that would precede the epoch saturate at 0.
    let early = network().compute_results_at(&id, 2000);
    let stamps: Vec<u64> = early.iter().map(|r| r.timestamp).collect();
    assert_eq!(stamps, vec![2000, 200, 0, 0]);
}

#[test]
fn compute_result_verify() {
    let good = ComputeResult { node_id: [0; 32], work_units: 1, computation_hash: [0; 32], timestamp: 0, signature: vec![1] };
    assert!(good.verify());
    let no_work = ComputeResult { work_units: 0, ..good.clone() };
    assert!(!no_work.verify());
    let unsigned = ComputeResult { signature: vec![], ..good };
    assert!(!unsigned.verify());
}

fn storage_work(id: &[u8; 32]) -> u64 {
    network().get_node_storage_proofs(id).iter().map(|p| p.storage_capacity * p.utilization / 100).sum()
}

fn compute_work(id: &[u8; 32]) -> u64 {
    network().get_node_compute_results(id).iter().map(|r| r.work_units).sum()
}

fn pouw_for(id: [u8; 32], routing: u64, storage: u64, compute: u64) -> ProofOfUsefulWork {
    let wp = WorkProof::from_measurements(routing, storage, compute, 0, b"0.5", 1, 9);
    ProofOfUsefulWork::from_parts(routing, storage, compute, 1, id, wp)
}

#[test]
fn pouw_against_network_accepts_accurate_claims() {
    // node factor 1 (id[0] = 5): routing = 100; storage/compute from the records.
    let id = node(5, 2, 1);
    let storage = storage_work(&id);
    let compute = compute_work(&id);
    // A network of 10 sharing 10 000: routing work 1000 for factor 1.
    let net = NetworkState { total_bandwidth_shared: 10_000, total_participants: 10, ..network() };
    assert_eq!(net.get_node_routing_work(&id), 1000);
    let wp = WorkProof::from_measurements(1000, storage, compute, 0, b"0.5", 1, 9);
    let pouw = ProofOfUsefulWork::from_parts(1000, storage, compute, 1, id, wp);
    assert!(verify_pouw_against_network_state(&pouw, &net, b"0.5"));
    // Within ±10% is still accepted.
    let near = pouw_for(id, 1000, storage + storage / 20, compute);
    assert!(verify_pouw_against_network_state(&near, &net, b"0.5"));
}

#[test]
fn pouw_against_network_rejects_inflated_claims() {
    let id = node(5, 2, 1);
    let net = NetworkState { total_bandwidth_shared: 10_000, total_participants: 10, ..network() };
    let storage = storage_work(&id);
    let compute = compute_work(&id);
    let inflated_storage = pouw_for(id, 1000, storage * 2, compute);
    assert!(!verify_pouw_against_network_state(&inflated_storage, &net, b"0.5"));
    let inflated_compute = pouw_for(id, 1000, storage, compute * 2);
    assert!(!verify_pouw_against_network_state(&inflated_compute, &net, b"0.5"));
    let inflated_routing = pouw_for(id, 2000, storage, compute);
    assert!(!verify_pouw_against_network_state(&inflated_routing, &net, b"0.5"));
    // A broken hash fails before any network check.
    let honest = pouw_for(id, 1000, storage, compute);
    assert!(!verify_pouw_against_network_state(&honest, &net, b"0.7"));
    // Then the network state is never read: even with no participants.
    let empty = NetworkState { total_participants: 0, ..net };
    assert!(!verify_pouw_against_network_state(&honest, &empty, b"0.7"));
}

#[test]
fn pouw_against_network_accepts_routing_off_the_thousands() {
    // Factor 3 (id[0] = 7): routing work 300, claimed 310.
    let id = node(7, 2, 1);
    let storage = storage_work(&id);
    let compute = compute_work(&id);
    let claim = pouw_for(id, 310, storage, compute);
    assert!(claim.verify_self_contained(b"0.5"));
    assert!(verify_pouw_against_network_state(&claim, &network(), b"0.5"));
}

#[test]
fn tampering_any_hashed_field_fails_verification() {
    let p = WorkProof::from_measurements(1500, 5, 7, 0, b"0.5", 3, 42);
    assert!(p.verify(b"0.5"));
    let tampered: Vec<WorkProof> = vec![
        WorkProof { routing_work: 1501, ..p },
        WorkProof { data_stored: 50, ..p },
        WorkProof { computations_performed: 8, ..p },
        WorkProof { uptime_hours: 30, ..p },
        WorkProof { bandwidth_provided: p.bandwidth_provided + 1, ..p },
        WorkProof { nonce: 43, ..p },
    ];
    for t in tampered {
        assert!(!t.verify(b"0.5"));
    }
}

#[test]
fn bad_hash_is_refused_before_the_total_is_summed() {
    let id = node(5, 2, 1);
    let wp = WorkProof::from_measurements(1000, 30, 40, 0, b"0.5", 1, 9);
    let honest = ProofOfUsefulWork::from_parts(1000, 30, 40, 1, id, wp);
    // Claimed work overflows u64, and the embedded proof's hash does not match it.
    let overflowing = ProofOfUsefulWork { routing_work: u64::MAX, storage_work: u64::MAX, ..honest };
    assert!(!overflowing.verify_self_contained(b"0.6"));
    let empty = NetworkState { total_participants: 0, ..network() };
    assert!(!verify_pouw_against_network_state(&overflowing, &empty, b"0.6"));
}
