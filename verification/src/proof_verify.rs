//! Verification of a proof of useful work against the network's records of
//! what the node actually did: routing, storage and compute work must each
//! match the claim within ±10%.
//!
//! The network records are simulated from the node id, deterministically (but
//! for the time stamps of compute results, which count back from a clock reading).

use vstd::prelude::*;
use crate::encoding::{decimal_digits, le_bytes, push_bytes, push_decimal, push_le_u64};
use crate::external::{blake3_digest, hash_blake3, unix_now_secs};
use crate::work_proof::{ProofOfUsefulWork, pouw_self_contained_valid, pouw_total, work_proof_hash_valid};

verus! {

/// Network state used for validation.
#[derive(Clone, Copy, Debug, PartialEq, Eq, Structural)]
pub struct NetworkState {
    pub total_participants: u64,
    /// Bit pattern of the floating-point average uptime.
    pub average_uptime_bits: u64,
    pub total_bandwidth_shared: u64,
    pub consensus_round: u64,
}

/// A compute result reported for a node.
#[derive(Clone, Debug)]
pub struct ComputeResult {
    pub node_id: [u8; 32],
    pub work_units: u64,
    pub computation_hash: [u8; 32],
    pub timestamp: u64,
    pub signature: Vec<u8>,
}

/// Authenticity check of a compute result: it did some work and is signed.
pub open spec fn compute_result_valid(result: ComputeResult) -> bool {
    result.work_units > 0 && result.signature@.len() > 0
}

impl ComputeResult {
    pub fn verify(&self) -> (valid: bool)
        ensures
            valid == compute_result_valid(*self),
    {
        self.work_units > 0 && self.signature.len() > 0
    }
}

/// Outcome of checking a storage proof against its challenge.
#[derive(Clone, Copy, Debug, PartialEq, Eq, Structural)]
pub enum VerificationResult {
    Valid,
    Invalid,
}

/// One storage challenge put to a node and how its proof was judged: the
/// content challenged, the block asked for, who challenged, how long the
/// challenge stays open, and the verdict.
#[derive(Clone, Debug)]
pub struct ChallengeRecord {
    pub content_hash: [u8; 32],
    pub block_index: u64,
    pub challenger: Vec<u8>,
    pub expires_in_secs: u64,
    pub result: VerificationResult,
}

/// A storage-capacity attestation of a node: who attests, how much capacity,
/// its utilization in percent, and the challenges behind it.
#[derive(Clone, Debug)]
pub struct StorageAttestation {
    pub validator_id: [u8; 32],
    pub storage_capacity: u64,
    pub utilization: u64,
    pub challenges: Vec<ChallengeRecord>,
}

/// One gibibyte.
pub const GIB: u64 = 1073741824;

/// Routing multiplier of a node: 1 to 5, from its first id byte.
pub open spec fn routing_factor(node_id: Seq<u8>) -> nat {
    (node_id[0] % 5 + 1) as nat
}

/// Bandwidth per participant, at least 1.
pub open spec fn routing_base(state: NetworkState) -> nat {
    let per = state.total_bandwidth_shared / state.total_participants;
    if per < 1 { 1 } else { per as nat }
}

/// Routing work the network observed for a node, capped at 10 000.
pub open spec fn routing_work_of(state: NetworkState, node_id: Seq<u8>) -> nat {
    let w = routing_base(state) * routing_factor(node_id);
    if w < 10000 { w } else { 10000 }
}

/// When the routing-work record of a node can be computed without overflow.
pub open spec fn routing_record_computable(state: NetworkState, node_id: Seq<u8>) -> bool {
    state.total_participants > 0 && routing_base(state) * routing_factor(node_id) <= u64::MAX
}

impl NetworkState {
    /// Routing work performed by a node, derived from network bandwidth records.
    pub fn get_node_routing_work(&self, node_id: &[u8; 32]) -> (work: u64)
        requires
            routing_record_computable(*self, node_id@),
        ensures
            work == routing_work_of(*self, node_id@),
    {
        let per = self.total_bandwidth_shared / self.total_participants;
        let base_routing: u64 = if per < 1 { 1 } else { per };
        let node_factor: u64 = (node_id[0] as u64 % 5) + 1;
        let routing_work = base_routing * node_factor;
        if routing_work < 10000 { routing_work } else { 10000 }
    }
}

/// Number of storage attestations of a node: 1 to 3.
pub open spec fn storage_proof_count(node_id: Seq<u8>) -> nat {
    (node_id[1] % 3 + 1) as nat
}

/// Capacity of a node's `i`-th attestation: 1 to 10 GiB.
pub open spec fn storage_capacity_at(node_id: Seq<u8>, i: int) -> nat {
    (GIB * (node_id[i % 32] % 10 + 1)) as nat
}

/// Utilization (percent) of a node's `i`-th attestation: 50 to 89.
pub open spec fn utilization_at(node_id: Seq<u8>, i: int) -> nat {
    (50 + node_id[(i + 1) % 32] % 40) as nat
}

/// The bytes "validator".
pub open spec fn validator_tag() -> Seq<u8> {
    seq![118u8, 97u8, 108u8, 105u8, 100u8, 97u8, 116u8, 111u8, 114u8]
}

/// Id of the validator behind a node's `i`-th attestation.
pub open spec fn attestation_validator_id(node_id: Seq<u8>, i: int) -> Seq<u8> {
    blake3_digest(validator_tag() + node_id + seq![i as u8])
}

/// Number of challenges behind a node's `i`-th attestation: 1 to 5.
pub open spec fn challenge_count(node_id: Seq<u8>, i: int) -> nat {
    (node_id[(i + 2) % 32] % 5 + 1) as nat
}

/// The bytes "content".
pub open spec fn content_tag() -> Seq<u8> {
    seq![99u8, 111u8, 110u8, 116u8, 101u8, 110u8, 116u8]
}

/// Name of the challenger behind attestation `i`: "validator-" and `i` in decimal.
pub open spec fn challenger_name(i: int) -> Seq<u8> {
    validator_tag().push(45u8) + decimal_digits(i as nat)
}

/// Challenge `j` of attestation `i`: content hash of "content" with the bytes
/// `i`, `j`; block `j % 3`; challenged by `challenger_name(i)`; open for an
/// hour; judged valid.
pub open spec fn challenge_matches(c: ChallengeRecord, i: int, j: int) -> bool {
    &&& c.content_hash@ == blake3_digest(content_tag() + seq![i as u8, j as u8])
    &&& c.block_index == j % 3
    &&& c.challenger@ == challenger_name(i)
    &&& c.expires_in_secs == 3600
    &&& c.result == VerificationResult::Valid
}

/// Attestation `i` of a node, field by field.
pub open spec fn attestation_matches(a: StorageAttestation, node_id: Seq<u8>, i: int) -> bool {
    &&& a.storage_capacity == storage_capacity_at(node_id, i)
    &&& a.utilization == utilization_at(node_id, i)
    &&& a.validator_id@ == attestation_validator_id(node_id, i)
    &&& a.challenges@.len() == challenge_count(node_id, i)
    &&& forall|j: int| 0 <= j < a.challenges@.len() ==> challenge_matches(#[trigger] a.challenges@[j], i, j)
}

/// Storage work of the first `k` attestations of a node: capacity × utilization / 100 each.
pub open spec fn storage_work_upto(node_id: Seq<u8>, k: nat) -> nat
    decreases k,
{
    if k == 0 {
        0
    } else {
        storage_work_upto(node_id, (k - 1) as nat)
            + storage_capacity_at(node_id, k - 1) * utilization_at(node_id, k - 1) / 100
    }
}

/// Storage work the network observed for a node.
pub open spec fn storage_work_of(node_id: Seq<u8>) -> nat {
    storage_work_upto(node_id, storage_proof_count(node_id))
}

/// Number of compute results of a node: 1 to 4.
pub open spec fn compute_result_count(node_id: Seq<u8>) -> nat {
    (node_id[2] % 4 + 1) as nat
}

/// Work units of a node's `i`-th compute result.
pub open spec fn work_units_at(node_id: Seq<u8>, i: int) -> nat {
    (100 + node_id[i % 32] * 10) as nat
}

/// Hash of a node's `i`-th computation.
pub open spec fn computation_hash_at(node_id: Seq<u8>, i: int) -> Seq<u8> {
    blake3_digest(node_id + le_bytes(work_units_at(node_id, i), 8) + seq![i as u8])
}

/// Compute work of the first `k` results of a node.
pub open spec fn compute_work_upto(node_id: Seq<u8>, k: nat) -> nat
    decreases k,
{
    if k == 0 {
        0
    } else {
        compute_work_upto(node_id, (k - 1) as nat) + work_units_at(node_id, k - 1)
    }
}

/// Compute work the network observed for a node (every result verifies).
pub open spec fn compute_work_of(node_id: Seq<u8>) -> nat {
    compute_work_upto(node_id, compute_result_count(node_id))
}

/// Whether a claim lies within ±10% of the observed amount (bounds saturate).
pub open spec fn within_tolerance(claimed: nat, actual: nat) -> bool {
    let tolerance = actual / 10;
    let low: int = actual - tolerance;
    let high: int = if actual + tolerance <= u64::MAX { (actual + tolerance) as int } else { u64::MAX as int };
    low <= claimed && claimed <= high
}

pub proof fn lemma_storage_work_bounds(node_id: Seq<u8>, k: nat)
    requires
        node_id.len() == 32,
    ensures
        storage_work_upto(node_id, k) <= k * (10 * GIB * 89 / 100),
    decreases k,
{
    if k > 0 {
        lemma_storage_work_bounds(node_id, (k - 1) as nat);
        let c = storage_capacity_at(node_id, k - 1);
        let u = utilization_at(node_id, k - 1);
        assert(c * u / 100 <= 10 * GIB * 89 / 100) by (nonlinear_arith)
            requires
                c <= 10 * GIB,
                u <= 89,
        {
            assert(c * u <= 10 * GIB * 89) by (nonlinear_arith)
                requires c <= 10 * GIB, u <= 89, c >= 0, u >= 0;
            vstd::arithmetic::div_mod::lemma_div_is_ordered((c * u) as int, 10 * GIB * 89, 100);
        }
        assert(k * (10 * GIB * 89 / 100) == (k - 1) * (10 * GIB * 89 / 100) + 10 * GIB * 89 / 100)
            by (nonlinear_arith);
    }
}

pub proof fn lemma_compute_work_bounds(node_id: Seq<u8>, k: nat)
    requires
        node_id.len() == 32,
    ensures
        compute_work_upto(node_id, k) <= k * 2650,
    decreases k,
{
    if k > 0 {
        lemma_compute_work_bounds(node_id, (k - 1) as nat);
    }
}

/// Time stamp `i * 1800` seconds before `now`, or 0 when that precedes the epoch.
pub open spec fn stamp_before(now: u64, i: int) -> u64 {
    if now >= i * 1800 { (now - i * 1800) as u64 } else { 0 }
}

/// Compute result `i` of a node, reported at clock reading `now`: work units,
/// computation hash, a 32-byte signature over node id, hash and work units,
/// and a time stamp `i * 1800` seconds before `now`.
pub open spec fn compute_result_matches(r: ComputeResult, node_id: Seq<u8>, i: int, now: u64) -> bool {
    &&& r.node_id@ == node_id
    &&& r.work_units == work_units_at(node_id, i)
    &&& r.computation_hash@ == computation_hash_at(node_id, i)
    &&& r.signature@ == blake3_digest(node_id + computation_hash_at(node_id, i) + le_bytes(work_units_at(node_id, i), 8))
    &&& r.signature@.len() == 32
    &&& r.timestamp == stamp_before(now, i)
}

/// Every result in `results` is the node's result of that index, reported at `now`.
pub open spec fn compute_results_reported_at(results: Seq<ComputeResult>, node_id: Seq<u8>, now: u64) -> bool {
    forall|i: int| 0 <= i < results.len() ==> compute_result_matches(#[trigger] results[i], node_id, i, now)
}

/// The challenges behind a node's attestation `i`.
fn challenge_records(node_id: &[u8; 32], i: usize) -> (records: Vec<ChallengeRecord>)
    requires
        i < 3,
    ensures
        records@.len() == challenge_count(node_id@, i as int),
        forall|j: int| 0 <= j < records@.len() ==> challenge_matches(#[trigger] records@[j], i as int, j),
{
    let count: u8 = node_id[(i + 2) % 32] % 5 + 1;
    let mut records: Vec<ChallengeRecord> = Vec::new();
    let mut j: u8 = 0;
    while j < count
        invariant
            i < 3,
            count == challenge_count(node_id@, i as int),
            0 <= j <= count,
            records@.len() == j,
            forall|k: int| 0 <= k < j ==> challenge_matches(#[trigger] records@[k], i as int, k),
        decreases count - j,
    {
        let mut content: Vec<u8> = Vec::new();
        content.push(99u8);
        content.push(111u8);
        content.push(110u8);
        content.push(116u8);
        content.push(101u8);
        content.push(110u8);
        content.push(116u8);
        content.push(i as u8);
        content.push(j);
        proof {
            assert(content@ =~= content_tag() + seq![i as u8, j as u8]);
        }
        let content_hash = hash_blake3(content.as_slice());
        let mut challenger: Vec<u8> = Vec::new();
        challenger.push(118u8);
        challenger.push(97u8);
        challenger.push(108u8);
        challenger.push(105u8);
        challenger.push(100u8);
        challenger.push(97u8);
        challenger.push(116u8);
        challenger.push(111u8);
        challenger.push(114u8);
        challenger.push(45u8);
        proof {
            assert(challenger@ =~= validator_tag().push(45u8));
        }
        push_decimal(&mut challenger, i as u64);
        let block_index: u64 = (j % 3) as u64;
        records.push(ChallengeRecord {
            content_hash,
            block_index,
            challenger,
            expires_in_secs: 3600,
            result: VerificationResult::Valid,
        });
        j = j + 1;
    }
    records
}

impl NetworkState {
    /// Storage attestations a node has produced, each with the challenges
    /// behind it.
    pub fn get_node_storage_proofs(&self, node_id: &[u8; 32]) -> (proofs: Vec<StorageAttestation>)
        ensures
            proofs@.len() == storage_proof_count(node_id@),
            forall|i: int| 0 <= i < proofs@.len() ==> attestation_matches(#[trigger] proofs@[i], node_id@, i),
    {
        let num_proofs: usize = (node_id[1] as usize % 3) + 1;
        let mut proofs: Vec<StorageAttestation> = Vec::new();
        let mut i: usize = 0;
        while i < num_proofs
            invariant
                num_proofs == storage_proof_count(node_id@),
                num_proofs <= 3,
                0 <= i <= num_proofs,
                proofs@.len() == i,
                forall|j: int| 0 <= j < i ==> attestation_matches(#[trigger] proofs@[j], node_id@, j),
            decreases num_proofs - i,
        {
            let storage_capacity: u64 = GIB * ((node_id[i % 32] as u64 % 10) + 1);
            let utilization: u64 = 50 + (node_id[(i + 1) % 32] as u64 % 40);
            let challenges = challenge_records(node_id, i);
            let mut tagged: Vec<u8> = Vec::new();
            tagged.push(118u8);
            tagged.push(97u8);
            tagged.push(108u8);
            tagged.push(105u8);
            tagged.push(100u8);
            tagged.push(97u8);
            tagged.push(116u8);
            tagged.push(111u8);
            tagged.push(114u8);
            push_bytes(&mut tagged, node_id.as_slice());
            tagged.push(i as u8);
            proof {
                assert(tagged@ =~= validator_tag() + node_id@ + seq![i as u8]);
            }
            let validator_id = hash_blake3(tagged.as_slice());
            proofs.push(StorageAttestation { validator_id, storage_capacity, utilization, challenges });
            i = i + 1;
        }
        proofs
    }

    /// Compute results of a node as reported at clock reading `now` (seconds
    /// since the Unix epoch). Result `i` is stamped `i * 1800` seconds before
    /// `now`, or 0 when that would precede the epoch.
    pub fn compute_results_at(&self, node_id: &[u8; 32], now: u64) -> (results: Vec<ComputeResult>)
        ensures
            results@.len() == compute_result_count(node_id@),
            forall|i: int|
                0 <= i < results@.len() ==> compute_result_matches(#[trigger] results@[i], node_id@, i, now),
    {
        let num_results: usize = (node_id[2] as usize % 4) + 1;
        let mut results: Vec<ComputeResult> = Vec::new();
        let mut i: usize = 0;
        while i < num_results
            invariant
                num_results == compute_result_count(node_id@),
                num_results <= 4,
                0 <= i <= num_results,
                results@.len() == i,
                forall|j: int|
                    0 <= j < i ==> compute_result_matches(#[trigger] results@[j], node_id@, j, now),
            decreases num_results - i,
        {
            let work_units: u64 = 100 + (node_id[i % 32] as u64 * 10);
            let mut hash_input: Vec<u8> = Vec::new();
            push_bytes(&mut hash_input, node_id.as_slice());
            push_le_u64(&mut hash_input, work_units);
            hash_input.push(i as u8);
            proof {
                assert(hash_input@ =~= node_id@ + le_bytes(work_units_at(node_id@, i as int), 8) + seq![i as u8]);
            }
            let computation_hash = hash_blake3(hash_input.as_slice());
            let mut signature_input: Vec<u8> = Vec::new();
            push_bytes(&mut signature_input, node_id.as_slice());
            push_bytes(&mut signature_input, computation_hash.as_slice());
            push_le_u64(&mut signature_input, work_units);
            let signature_hash = hash_blake3(signature_input.as_slice());
            let mut signature: Vec<u8> = Vec::new();
            push_bytes(&mut signature, signature_hash.as_slice());
            let offset: u64 = (i as u64) * 1800;
            let timestamp = now.saturating_sub(offset);
            results.push(ComputeResult { node_id: *node_id, work_units, computation_hash, timestamp, signature });
            i = i + 1;
        }
        results
    }

    /// Compute results of a node, stamped against the system clock (read as 0
    /// when it is earlier than the Unix epoch).
    pub fn get_node_compute_results(&self, node_id: &[u8; 32]) -> (results: Vec<ComputeResult>)
        ensures
            results@.len() == compute_result_count(node_id@),
            exists|now: u64| #[trigger] compute_results_reported_at(results@, node_id@, now),
    {
        let now: u64 = match unix_now_secs() {
            Some(secs) => secs,
            None => 0,
        };
        let results = self.compute_results_at(node_id, now);
        assert(compute_results_reported_at(results@, node_id@, now));
        results
    }
}

fn within_tolerance_exec(claimed: u64, actual: u64) -> (ok: bool)
    ensures
        ok == within_tolerance(claimed as nat, actual as nat),
{
    let tolerance = actual / 10;
    let min_work = actual.saturating_sub(tolerance);
    let max_work = actual.saturating_add(tolerance);
    claimed >= min_work && claimed <= max_work
}

/// Routing-work check: the claim matches the observed routing work within ±10%.
fn verify_routing_work(proof: &ProofOfUsefulWork, network_state: &NetworkState) -> (ok: bool)
    requires
        routing_record_computable(*network_state, proof.node_id@),
    ensures
        ok == within_tolerance(proof.routing_work as nat, routing_work_of(*network_state, proof.node_id@)),
{
    let actual = network_state.get_node_routing_work(&proof.node_id);
    within_tolerance_exec(proof.routing_work, actual)
}

/// Storage-work check: the claim matches the summed capacity × utilization / 100
/// of the node's attestations within ±10%.
fn verify_storage_work(proof: &ProofOfUsefulWork, network_state: &NetworkState) -> (ok: bool)
    ensures
        ok == within_tolerance(proof.storage_work as nat, storage_work_of(proof.node_id@)),
{
    let storage_proofs = network_state.get_node_storage_proofs(&proof.node_id);
    let ghost node = proof.node_id@;
    let mut total: u64 = 0;
    let mut i: usize = 0;
    while i < storage_proofs.len()
        invariant
            node.len() == 32,
            storage_proofs@.len() == storage_proof_count(node),
            storage_proofs@.len() <= 3,
            forall|j: int|
                0 <= j < storage_proofs@.len() ==> attestation_matches(#[trigger] storage_proofs@[j], node, j),
            0 <= i <= storage_proofs@.len(),
            total == storage_work_upto(node, i as nat),
        decreases storage_proofs@.len() - i,
    {
        let p = &storage_proofs[i];
        proof {
            lemma_storage_work_bounds(node, (i + 1) as nat);
            assert(p.storage_capacity * p.utilization <= 10 * GIB * 89) by (nonlinear_arith)
                requires
                    p.storage_capacity <= 10 * GIB,
                    p.utilization <= 89,
            ;
            assert(storage_work_upto(node, (i + 1) as nat)
                == total + p.storage_capacity * p.utilization / 100);
        }
        total = total + p.storage_capacity * p.utilization / 100;
        i = i + 1;
    }
    within_tolerance_exec(proof.storage_work, total)
}

/// Compute-work check: the claim matches the summed work units of the node's
/// verified compute results within ±10%.
fn verify_compute_work(proof: &ProofOfUsefulWork, network_state: &NetworkState) -> (ok: bool)
    ensures
        ok == within_tolerance(proof.compute_work as nat, compute_work_of(proof.node_id@)),
{
    let compute_results = network_state.get_node_compute_results(&proof.node_id);
    let ghost node = proof.node_id@;
    proof {
        let now = choose|now: u64| compute_results_reported_at(compute_results@, node, now);
        assert forall|j: int| 0 <= j < compute_results@.len() implies {
            &&& (#[trigger] compute_results@[j]).work_units == work_units_at(node, j)
            &&& compute_result_valid(compute_results@[j])
        } by {
            assert(compute_result_matches(compute_results@[j], node, j, now));
        }
    }
    let mut total: u64 = 0;
    let mut i: usize = 0;
    while i < compute_results.len()
        invariant
            node.len() == 32,
            compute_results@.len() == compute_result_count(node),
            compute_results@.len() <= 4,
            forall|j: int|
                0 <= j < compute_results@.len() ==> {
                    &&& (#[trigger] compute_results@[j]).work_units == work_units_at(node, j)
                    &&& compute_result_valid(compute_results@[j])
                },
            0 <= i <= compute_results@.len(),
            total == compute_work_upto(node, i as nat),
        decreases compute_results@.len() - i,
    {
        let result = &compute_results[i];
        proof {
            lemma_compute_work_bounds(node, (i + 1) as nat);
        }
        if result.verify() {
            total = total + result.work_units;
        }
        i = i + 1;
    }
    within_tolerance_exec(proof.compute_work, total)
}

/// Full validity of a proof of useful work against the network: self-contained
/// validity, then routing, storage and compute claims each within ±10% of the
/// network's records for the node.
pub open spec fn pouw_valid_against_network(
    proof: ProofOfUsefulWork,
    network_state: NetworkState,
    quality_score_text: Seq<u8>,
) -> bool {
    &&& pouw_self_contained_valid(proof, quality_score_text)
    &&& within_tolerance(proof.routing_work as nat, routing_work_of(network_state, proof.node_id@))
    &&& within_tolerance(proof.storage_work as nat, storage_work_of(proof.node_id@))
    &&& within_tolerance(proof.compute_work as nat, compute_work_of(proof.node_id@))
}

/// The network check accepts each claim exactly when it lies within 10% of
/// what the network observed, on both sides: for an observed amount `a` a
/// claim `c` passes when `a - a/10 <= c <= a + a/10` (the upper bound capped
/// at `u64::MAX`), for routing, storage and compute work alike, after the
/// proof's own check.
pub proof fn lemma_network_check_tolerance(
    proof: ProofOfUsefulWork,
    network_state: NetworkState,
    quality_score_text: Seq<u8>,
)
    ensures
        pouw_valid_against_network(proof, network_state, quality_score_text) <==> {
            let r = routing_work_of(network_state, proof.node_id@) as int;
            let s = storage_work_of(proof.node_id@) as int;
            let c = compute_work_of(proof.node_id@) as int;
            &&& pouw_self_contained_valid(proof, quality_score_text)
            &&& r - r / 10 <= proof.routing_work
            &&& proof.routing_work <= (if r + r / 10 <= u64::MAX { r + r / 10 } else { u64::MAX as int })
            &&& s - s / 10 <= proof.storage_work
            &&& proof.storage_work <= (if s + s / 10 <= u64::MAX { s + s / 10 } else { u64::MAX as int })
            &&& c - c / 10 <= proof.compute_work
            &&& proof.compute_work <= (if c + c / 10 <= u64::MAX { c + c / 10 } else { u64::MAX as int })
        },
{
}

/// Full PoUW verification: hash integrity and difficulty, then the routing,
/// storage and compute claims against the network's records.
pub fn verify_pouw_against_network_state(
    proof: &ProofOfUsefulWork,
    network_state: &NetworkState,
    quality_score_text: &[u8],
) -> (valid: bool)
    requires
        work_proof_hash_valid(proof.work_proof, quality_score_text@) ==> pouw_total(*proof) <= u64::MAX,
        pouw_self_contained_valid(*proof, quality_score_text@) ==> routing_record_computable(
            *network_state,
            proof.node_id@,
        ),
    ensures
        valid == pouw_valid_against_network(*proof, *network_state, quality_score_text@),
{
    if !proof.verify_self_contained(quality_score_text) {
        return false;
    }
    if !verify_routing_work(proof, network_state) {
        return false;
    }
    if !verify_storage_work(proof, network_state) {
        return false;
    }
    if !verify_compute_work(proof, network_state) {
        return false;
    }
    true
}

} // verus!
