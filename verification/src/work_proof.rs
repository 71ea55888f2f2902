//! Proof of Useful Work: construction, hash integrity and difficulty checks.
//!
//! The quality score of a work proof is a floating-point value; this library
//! carries it as its IEEE-754 bit pattern and takes its decimal rendering, as it
//! appears in the hash input, from the caller.

use vstd::prelude::*;
use crate::encoding::{
    all_digits, bytes32_eq, decimal_digits, lemma_decimal_digits_are_digits, lemma_decimal_digits_injective, push_bytes,
    push_decimal,
};
use crate::external::{blake3_digest, hash_blake3, random_u64, unix_now_secs};

verus! {

/// Uptime counted in a work proof is capped at 30 days, in seconds.
pub const MAX_UPTIME_SECS: u64 = 2592000;

/// Proof of useful work combining routing, storage, and compute metrics.
#[derive(Clone, Copy, Debug)]
pub struct WorkProof {
    pub routing_work: u64,
    pub storage_work: u64,
    pub compute_work: u64,
    pub routes_handled: u64,
    pub data_stored: u64,
    pub computations_performed: u64,
    /// Bit pattern of the floating-point quality score.
    pub quality_score_bits: u64,
    pub uptime_hours: u64,
    pub bandwidth_provided: u64,
    pub hash: [u8; 32],
    pub nonce: u64,
}

/// Proof of Useful Work for consensus.
#[derive(Clone, Copy, Debug)]
pub struct ProofOfUsefulWork {
    pub routing_work: u64,
    pub storage_work: u64,
    pub compute_work: u64,
    pub timestamp: u64,
    pub node_id: [u8; 32],
    pub work_proof: WorkProof,
    pub difficulty: u32,
}

/// Errors in building a proof of useful work.
#[derive(Clone, Copy, Debug, PartialEq, Eq, Structural)]
pub enum WorkProofError {
    /// The system clock reads earlier than the Unix epoch.
    ClockBeforeUnixEpoch,
}

/// The hash input of a work proof: the seven fields in decimal (the quality
/// score as given), separated by ':'.
pub open spec fn work_proof_message(
    routing_work: u64,
    storage_work: u64,
    compute_work: u64,
    quality_score_text: Seq<u8>,
    uptime_hours: u64,
    bandwidth_provided: u64,
    nonce: u64,
) -> Seq<u8> {
    decimal_digits(routing_work as nat) + seq![58u8] + decimal_digits(storage_work as nat) + seq![58u8]
        + decimal_digits(compute_work as nat) + seq![58u8] + quality_score_text + seq![58u8]
        + decimal_digits(uptime_hours as nat) + seq![58u8] + decimal_digits(bandwidth_provided as nat)
        + seq![58u8] + decimal_digits(nonce as nat)
}

/// Build the hash input of a work proof.
pub fn build_work_proof_message(
    routing_work: u64,
    storage_work: u64,
    compute_work: u64,
    quality_score_text: &[u8],
    uptime_hours: u64,
    bandwidth_provided: u64,
    nonce: u64,
) -> (message: Vec<u8>)
    ensures
        message@ == work_proof_message(
            routing_work,
            storage_work,
            compute_work,
            quality_score_text@,
            uptime_hours,
            bandwidth_provided,
            nonce,
        ),
{
    let mut m: Vec<u8> = Vec::new();
    push_decimal(&mut m, routing_work);
    m.push(58u8);
    push_decimal(&mut m, storage_work);
    m.push(58u8);
    push_decimal(&mut m, compute_work);
    m.push(58u8);
    push_bytes(&mut m, quality_score_text);
    m.push(58u8);
    push_decimal(&mut m, uptime_hours);
    m.push(58u8);
    push_decimal(&mut m, bandwidth_provided);
    m.push(58u8);
    push_decimal(&mut m, nonce);
    proof {
        assert(m@ =~= work_proof_message(
            routing_work,
            storage_work,
            compute_work,
            quality_score_text@,
            uptime_hours,
            bandwidth_provided,
            nonce,
        ));
    }
    m
}

/// Whole hours of uptime between `node_start_time` and `now`, capped at 30 days.
pub open spec fn uptime_hours_between(node_start_time: u64, now: u64) -> u64 {
    let elapsed: u64 = if now >= node_start_time { (now - node_start_time) as u64 } else { 0 };
    let capped: u64 = if elapsed <= MAX_UPTIME_SECS { elapsed } else { MAX_UPTIME_SECS };
    capped / 3600
}

/// Whole hours of uptime between `node_start_time` and `now`, capped at 30 days.
pub fn uptime_hours_since(node_start_time: u64, now: u64) -> (hours: u64)
    ensures
        hours == uptime_hours_between(node_start_time, now),
        hours <= 720,
{
    let elapsed = now.saturating_sub(node_start_time);
    let capped = if elapsed <= MAX_UPTIME_SECS { elapsed } else { MAX_UPTIME_SECS };
    capped / 3600
}

/// The message a work proof's hash covers: its routing work, data stored,
/// computations, quality score, uptime, bandwidth and nonce.
pub open spec fn hashed_message(wp: WorkProof, quality_score_text: Seq<u8>) -> Seq<u8> {
    work_proof_message(
        wp.routing_work,
        wp.data_stored,
        wp.computations_performed,
        quality_score_text,
        wp.uptime_hours,
        wp.bandwidth_provided,
        wp.nonce,
    )
}

/// The hash a work proof must carry: the digest of its hashed message.
pub open spec fn expected_work_proof_hash(wp: WorkProof, quality_score_text: Seq<u8>) -> Seq<u8> {
    blake3_digest(hashed_message(wp, quality_score_text))
}

/// Hash integrity of a work proof whose quality score renders as `quality_score_text`.
pub open spec fn work_proof_hash_valid(wp: WorkProof, quality_score_text: Seq<u8>) -> bool {
    wp.hash@ == expected_work_proof_hash(wp, quality_score_text)
}

/// The fields a work proof built from these measurements carries (all but the hash).
pub open spec fn work_proof_fields(
    wp: WorkProof,
    routing_work: u64,
    storage_work: u64,
    compute_work: u64,
    quality_score_bits: u64,
    uptime_hours: u64,
    nonce: u64,
) -> bool {
    &&& wp.routing_work == routing_work
    &&& wp.storage_work == storage_work
    &&& wp.compute_work == compute_work
    &&& wp.routes_handled == routing_work / 1000
    &&& wp.data_stored == storage_work
    &&& wp.computations_performed == compute_work
    &&& wp.quality_score_bits == quality_score_bits
    &&& wp.uptime_hours == uptime_hours
    &&& wp.bandwidth_provided == routing_work * 1024
    &&& wp.nonce == nonce
}

/// A work proof as `WorkProof::new` builds it: its fields follow from the
/// measurements and its hash is the digest of the message over them.
pub open spec fn work_proof_built_from(
    wp: WorkProof,
    routing_work: u64,
    storage_work: u64,
    compute_work: u64,
    quality_score_bits: u64,
    quality_score_text: Seq<u8>,
    uptime_hours: u64,
    nonce: u64,
) -> bool {
    &&& work_proof_fields(wp, routing_work, storage_work, compute_work, quality_score_bits, uptime_hours, nonce)
    &&& wp.hash@ == blake3_digest(
        work_proof_message(
            routing_work,
            storage_work,
            compute_work,
            quality_score_text,
            uptime_hours,
            (routing_work * 1024) as u64,
            nonce,
        ),
    )
}

/// Total useful work: routes (in thousands of routing units) plus data stored plus computations.
pub open spec fn work_proof_total(wp: WorkProof) -> int {
    wp.routes_handled * 1000 + wp.data_stored + wp.computations_performed
}

impl WorkProof {
    /// Assemble a work proof from its measurements, a nonce and the rendering
    /// of its quality score.
    pub fn from_measurements(
        routing_work: u64,
        storage_work: u64,
        compute_work: u64,
        quality_score_bits: u64,
        quality_score_text: &[u8],
        uptime_hours: u64,
        nonce: u64,
    ) -> (wp: WorkProof)
        requires
            routing_work <= u64::MAX / 1024,
        ensures
            work_proof_built_from(
                wp,
                routing_work,
                storage_work,
                compute_work,
                quality_score_bits,
                quality_score_text@,
                uptime_hours,
                nonce,
            ),
            work_proof_hash_valid(wp, quality_score_text@),
    {
        let bandwidth_provided = routing_work * 1024;
        let message = build_work_proof_message(
            routing_work,
            storage_work,
            compute_work,
            quality_score_text,
            uptime_hours,
            bandwidth_provided,
            nonce,
        );
        let hash = hash_blake3(message.as_slice());
        let wp = WorkProof {
            routing_work,
            storage_work,
            compute_work,
            routes_handled: routing_work / 1000,
            data_stored: storage_work,
            computations_performed: compute_work,
            quality_score_bits,
            uptime_hours,
            bandwidth_provided,
            hash,
            nonce,
        };
        proof {
            lemma_built_work_proof_verifies(
                wp,
                routing_work,
                storage_work,
                compute_work,
                quality_score_bits,
                quality_score_text@,
                uptime_hours,
                nonce,
            );
        }
        wp
    }

    /// Create a new work proof. `node_start_time` is the Unix time (seconds)
    /// at which the node started; uptime is counted from it up to the current
    /// clock, capped at 30 days. The nonce is random.
    pub fn new(
        routing_work: u64,
        storage_work: u64,
        compute_work: u64,
        node_start_time: u64,
        node_id: [u8; 32],
        quality_score_bits: u64,
        quality_score_text: &[u8],
    ) -> (wp: WorkProof)
        requires
            routing_work <= u64::MAX / 1024,
        ensures
            work_proof_built_from(
                wp,
                routing_work,
                storage_work,
                compute_work,
                quality_score_bits,
                quality_score_text@,
                wp.uptime_hours,
                wp.nonce,
            ),
            work_proof_hash_valid(wp, quality_score_text@),
            exists|now: u64| wp.uptime_hours == uptime_hours_between(node_start_time, now),
    {
        let now_secs = match unix_now_secs() {
            Some(secs) => secs,
            None => 0,
        };
        let uptime_hours = uptime_hours_since(node_start_time, now_secs);
        let nonce = random_u64();
        WorkProof::from_measurements(
            routing_work,
            storage_work,
            compute_work,
            quality_score_bits,
            quality_score_text,
            uptime_hours,
            nonce,
        )
    }

    /// Check the proof's hash integrity, given the rendering of its quality score.
    pub fn verify(&self, quality_score_text: &[u8]) -> (valid: bool)
        ensures
            valid == work_proof_hash_valid(*self, quality_score_text@),
    {
        let message = build_work_proof_message(
            self.routing_work,
            self.data_stored,
            self.computations_performed,
            quality_score_text,
            self.uptime_hours,
            self.bandwidth_provided,
            self.nonce,
        );
        let expected = hash_blake3(message.as_slice());
        bytes32_eq(&self.hash, &expected)
    }

    /// Total useful work represented by this proof.
    pub fn total_work(&self) -> (total: u64)
        requires
            work_proof_total(*self) <= u64::MAX,
        ensures
            total == work_proof_total(*self),
    {
        (self.routes_handled * 1000) + self.data_stored + self.computations_performed
    }
}

/// Difficulty for a given total work: falls as work grows, floor 1; no work
/// gives the maximum difficulty.
pub open spec fn difficulty_for(total_work: nat) -> u32 {
    if total_work == 0 {
        u32::MAX
    } else {
        let d = 1000000nat / (total_work + 1);
        if d < 1 { 1 } else if d > u32::MAX { u32::MAX } else { d as u32 }
    }
}

/// Sum of the three claimed work amounts of a proof of useful work.
pub open spec fn pouw_total(wp: ProofOfUsefulWork) -> int {
    wp.routing_work + wp.storage_work + wp.compute_work
}

/// Self-contained validity: the embedded work proof's hash is intact and the
/// difficulty matches the claimed total work.
pub open spec fn pouw_self_contained_valid(wp: ProofOfUsefulWork, quality_score_text: Seq<u8>) -> bool {
    &&& work_proof_hash_valid(wp.work_proof, quality_score_text)
    &&& wp.difficulty == difficulty_for(pouw_total(wp) as nat)
}

impl ProofOfUsefulWork {
    /// Difficulty falls with total work (more useful work, lower bar), floor 1;
    /// zero work gives `u32::MAX`.
    pub fn calculate_difficulty(total_work: u64) -> (difficulty: u32)
        ensures
            difficulty == difficulty_for(total_work as nat),
    {
        if total_work == 0 {
            return u32::MAX;
        }
        if total_work >= 1000000 {
            proof {
                assert(1000000int / (total_work + 1) == 0) by (nonlinear_arith)
                    requires total_work >= 1000000;
            }
            return 1;
        }
        let quotient = 1000000u64 / (total_work + 1);
        let capped: u64 = if quotient > 4294967295u64 { 4294967295u64 } else { quotient };
        let difficulty = capped as u32;
        if difficulty < 1 { 1 } else { difficulty }
    }

    /// Assemble a proof of useful work from its claims, the creation time and
    /// its work proof; the difficulty is derived from the total work.
    pub fn from_parts(
        routing_work: u64,
        storage_work: u64,
        compute_work: u64,
        timestamp: u64,
        node_id: [u8; 32],
        work_proof: WorkProof,
    ) -> (wp: ProofOfUsefulWork)
        requires
            routing_work + storage_work + compute_work <= u64::MAX,
        ensures
            wp == (ProofOfUsefulWork {
                routing_work,
                storage_work,
                compute_work,
                timestamp,
                node_id,
                work_proof,
                difficulty: difficulty_for((routing_work + storage_work + compute_work) as nat),
            }),
    {
        let total_work = routing_work + storage_work + compute_work;
        let difficulty = Self::calculate_difficulty(total_work);
        ProofOfUsefulWork { routing_work, storage_work, compute_work, timestamp, node_id, work_proof, difficulty }
    }

    /// Create a proof of useful work stamped with the current time. Fails only
    /// when the system clock reads before the Unix epoch.
    pub fn new(
        routing_work: u64,
        storage_work: u64,
        compute_work: u64,
        node_id: [u8; 32],
        quality_score_bits: u64,
        quality_score_text: &[u8],
    ) -> (result: Result<ProofOfUsefulWork, WorkProofError>)
        requires
            routing_work + storage_work + compute_work <= u64::MAX,
            routing_work <= u64::MAX / 1024,
        ensures
            result matches Err(e) ==> e == WorkProofError::ClockBeforeUnixEpoch,
            result matches Ok(wp) ==> {
                &&& wp.routing_work == routing_work
                &&& wp.storage_work == storage_work
                &&& wp.compute_work == compute_work
                &&& wp.node_id == node_id
                &&& wp.difficulty == difficulty_for((routing_work + storage_work + compute_work) as nat)
                &&& work_proof_built_from(
                    wp.work_proof,
                    routing_work,
                    storage_work,
                    compute_work,
                    quality_score_bits,
                    quality_score_text@,
                    wp.work_proof.uptime_hours,
                    wp.work_proof.nonce,
                )
                &&& exists|now: u64|
                    wp.work_proof.uptime_hours == uptime_hours_between(wp.timestamp, now)
                &&& pouw_self_contained_valid(wp, quality_score_text@)
            },
    {
        let timestamp = match unix_now_secs() {
            Some(secs) => secs,
            None => {
                return Err(WorkProofError::ClockBeforeUnixEpoch);
            },
        };
        let work_proof = WorkProof::new(
            routing_work,
            storage_work,
            compute_work,
            timestamp,
            node_id,
            quality_score_bits,
            quality_score_text,
        );
        let wp = Self::from_parts(routing_work, storage_work, compute_work, timestamp, node_id, work_proof);
        proof {
            let now = choose|now: u64| work_proof.uptime_hours == uptime_hours_between(timestamp, now);
            assert(wp.work_proof.uptime_hours == uptime_hours_between(wp.timestamp, now));
            lemma_built_pouw_verifies(wp, quality_score_bits, quality_score_text@);
        }
        Ok(wp)
    }

    /// Self-contained verification: the embedded work proof's hash integrity
    /// and the difficulty derivation.
    pub fn verify_self_contained(&self, quality_score_text: &[u8]) -> (valid: bool)
        requires
            work_proof_hash_valid(self.work_proof, quality_score_text@) ==> pouw_total(*self) <= u64::MAX,
        ensures
            valid == pouw_self_contained_valid(*self, quality_score_text@),
    {
        if !self.work_proof.verify(quality_score_text) {
            return false;
        }
        let total_work = self.routing_work + self.storage_work + self.compute_work;
        let expected_difficulty = Self::calculate_difficulty(total_work);
        self.difficulty == expected_difficulty
    }
}

/// Replacing the stored hash of a valid work proof by any other 32 bytes makes
/// it fail its hash check.
pub proof fn lemma_tampered_hash_fails(wp: WorkProof, tampered: WorkProof, quality_score_text: Seq<u8>)
    requires
        work_proof_hash_valid(wp, quality_score_text),
        tampered == (WorkProof { hash: tampered.hash, ..wp }),
        tampered.hash@ != wp.hash@,
    ensures
        !work_proof_hash_valid(tampered, quality_score_text),
{
}

/// A digit string, ':' and a rest are read back uniquely from the front.
proof fn lemma_split_after_digits(x: Seq<u8>, r: Seq<u8>, y: Seq<u8>, t: Seq<u8>)
    requires
        all_digits(x),
        all_digits(y),
        x + seq![58u8] + r == y + seq![58u8] + t,
    ensures
        x == y,
        r == t,
{
    let a = x + seq![58u8] + r;
    let b = y + seq![58u8] + t;
    if x.len() < y.len() {
        assert(a[x.len() as int] == 58u8);
        assert(b[x.len() as int] == y[x.len() as int]);
    }
    if y.len() < x.len() {
        assert(b[y.len() as int] == 58u8);
        assert(a[y.len() as int] == x[y.len() as int]);
    }
    assert(x =~= a.subrange(0, x.len() as int));
    assert(y =~= b.subrange(0, y.len() as int));
    assert(r =~= a.subrange(x.len() + 1int, a.len() as int));
    assert(t =~= b.subrange(y.len() + 1int, b.len() as int));
}

/// A rest, ':' and a digit string are read back uniquely from the back.
proof fn lemma_split_before_digits(r: Seq<u8>, x: Seq<u8>, t: Seq<u8>, y: Seq<u8>)
    requires
        all_digits(x),
        all_digits(y),
        r + seq![58u8] + x == t + seq![58u8] + y,
    ensures
        r == t,
        x == y,
{
    let a = r + seq![58u8] + x;
    let b = t + seq![58u8] + y;
    if x.len() < y.len() {
        let k = a.len() - 1 - x.len();
        assert(a[k] == 58u8);
        assert(b[k] == y[k - t.len() - 1]);
    }
    if y.len() < x.len() {
        let k = b.len() - 1 - y.len();
        assert(b[k] == 58u8);
        assert(a[k] == x[k - r.len() - 1]);
    }
    assert(x =~= a.subrange(r.len() + 1int, a.len() as int));
    assert(y =~= b.subrange(t.len() + 1int, b.len() as int));
    assert(r =~= a.subrange(0, r.len() as int));
    assert(t =~= b.subrange(0, t.len() as int));
}

/// For a fixed quality-score text, the hashed message determines the six
/// numeric fields it carries.
pub proof fn lemma_work_proof_message_injective(
    a: (u64, u64, u64, u64, u64, u64),
    b: (u64, u64, u64, u64, u64, u64),
    quality_score_text: Seq<u8>,
)
    requires
        work_proof_message(a.0, a.1, a.2, quality_score_text, a.3, a.4, a.5) == work_proof_message(
            b.0,
            b.1,
            b.2,
            quality_score_text,
            b.3,
            b.4,
            b.5,
        ),
    ensures
        a == b,
{
    let c = seq![58u8];
    let q = quality_score_text;
    let d = |x: u64| decimal_digits(x as nat);
    lemma_decimal_digits_are_digits(a.0 as nat);
    lemma_decimal_digits_are_digits(a.1 as nat);
    lemma_decimal_digits_are_digits(a.2 as nat);
    lemma_decimal_digits_are_digits(a.3 as nat);
    lemma_decimal_digits_are_digits(a.4 as nat);
    lemma_decimal_digits_are_digits(a.5 as nat);
    lemma_decimal_digits_are_digits(b.0 as nat);
    lemma_decimal_digits_are_digits(b.1 as nat);
    lemma_decimal_digits_are_digits(b.2 as nat);
    lemma_decimal_digits_are_digits(b.3 as nat);
    lemma_decimal_digits_are_digits(b.4 as nat);
    lemma_decimal_digits_are_digits(b.5 as nat);
    // The tail after the quality score: uptime, bandwidth and nonce.
    let ta = d(a.3) + c + d(a.4) + c + d(a.5);
    let tb = d(b.3) + c + d(b.4) + c + d(b.5);
    let r3a = q + c + ta;
    let r3b = q + c + tb;
    let r2a = d(a.2) + c + r3a;
    let r2b = d(b.2) + c + r3b;
    let r1a = d(a.1) + c + r2a;
    let r1b = d(b.1) + c + r2b;
    assert(work_proof_message(a.0, a.1, a.2, q, a.3, a.4, a.5) =~= d(a.0) + c + r1a);
    assert(work_proof_message(b.0, b.1, b.2, q, b.3, b.4, b.5) =~= d(b.0) + c + r1b);
    lemma_split_after_digits(d(a.0), r1a, d(b.0), r1b);
    lemma_split_after_digits(d(a.1), r2a, d(b.1), r2b);
    lemma_split_after_digits(d(a.2), r3a, d(b.2), r3b);
    assert(ta =~= r3a.subrange(q.len() + 1int, r3a.len() as int));
    assert(tb =~= r3b.subrange(q.len() + 1int, r3b.len() as int));
    lemma_split_before_digits(d(a.3) + c + d(a.4), d(a.5), d(b.3) + c + d(b.4), d(b.5));
    lemma_split_after_digits(d(a.3), d(a.4), d(b.3), d(b.4));
    lemma_decimal_digits_injective(a.0 as nat, b.0 as nat);
    lemma_decimal_digits_injective(a.1 as nat, b.1 as nat);
    lemma_decimal_digits_injective(a.2 as nat, b.2 as nat);
    lemma_decimal_digits_injective(a.3 as nat, b.3 as nat);
    lemma_decimal_digits_injective(a.4 as nat, b.4 as nat);
    lemma_decimal_digits_injective(a.5 as nat, b.5 as nat);
}

/// Tampering with any hashed field of a valid work proof (routing work, data
/// stored, computations, uptime, bandwidth or nonce) while keeping its stored
/// hash changes the hashed message; the tampered proof then passes its hash
/// check only if BLAKE3 gives the two different messages the same digest.
pub proof fn lemma_tampered_fields_need_collision(wp: WorkProof, tampered: WorkProof, quality_score_text: Seq<u8>)
    requires
        work_proof_hash_valid(wp, quality_score_text),
        tampered.hash == wp.hash,
        (tampered.routing_work, tampered.data_stored, tampered.computations_performed, tampered.uptime_hours,
            tampered.bandwidth_provided, tampered.nonce) != (wp.routing_work, wp.data_stored,
            wp.computations_performed, wp.uptime_hours, wp.bandwidth_provided, wp.nonce),
    ensures
        hashed_message(tampered, quality_score_text) != hashed_message(wp, quality_score_text),
        work_proof_hash_valid(tampered, quality_score_text) ==> blake3_digest(
            hashed_message(tampered, quality_score_text),
        ) == blake3_digest(hashed_message(wp, quality_score_text)),
{
    if hashed_message(tampered, quality_score_text) == hashed_message(wp, quality_score_text) {
        lemma_work_proof_message_injective(
            (tampered.routing_work, tampered.data_stored, tampered.computations_performed, tampered.uptime_hours,
                tampered.bandwidth_provided, tampered.nonce),
            (wp.routing_work, wp.data_stored, wp.computations_performed, wp.uptime_hours, wp.bandwidth_provided,
                wp.nonce),
            quality_score_text,
        );
    }
}

/// The self-contained check accepts a proof exactly when its stored hash is
/// the digest of its hashed message and its difficulty equals the one derived
/// from the claimed total work `t = routing + storage + compute`: `u32::MAX`
/// for no work, else `1000000 / (t + 1)` with a floor of 1. A proof whose
/// difficulty is lower or higher than that is rejected.
pub proof fn lemma_self_check_needs_exact_difficulty(wp: ProofOfUsefulWork, quality_score_text: Seq<u8>)
    ensures
        pouw_self_contained_valid(wp, quality_score_text) <==> {
            let t: int = wp.routing_work + wp.storage_work + wp.compute_work;
            let d: int = 1000000int / (t + 1);
            &&& wp.work_proof.hash@ == blake3_digest(hashed_message(wp.work_proof, quality_score_text))
            &&& wp.difficulty == (if t == 0 { u32::MAX as int } else if d < 1 { 1 } else { d })
        },
{
    let t: int = wp.routing_work + wp.storage_work + wp.compute_work;
    if t > 0 {
        assert(1000000int / (t + 1) <= 1000000) by (nonlinear_arith)
            requires
                t > 0,
        ;
    }
}

/// Difficulty never rises with more work, and never drops below 1.
pub proof fn lemma_difficulty_monotone(less_work: nat, more_work: nat)
    requires
        less_work <= more_work,
    ensures
        difficulty_for(more_work) <= difficulty_for(less_work),
        difficulty_for(more_work) >= 1,
{
    if less_work > 0 {
        assert(1000000nat / (more_work + 1) <= 1000000nat / (less_work + 1)) by (nonlinear_arith)
            requires
                1 <= less_work + 1 <= more_work + 1,
        {
            vstd::arithmetic::div_mod::lemma_div_is_ordered_by_denominator(
                1000000,
                (less_work + 1) as int,
                (more_work + 1) as int,
            );
        }
    }
}

/// A work proof built from its measurements passes its own hash check, for
/// every amount of work.
pub proof fn lemma_built_work_proof_verifies(
    wp: WorkProof,
    routing_work: u64,
    storage_work: u64,
    compute_work: u64,
    quality_score_bits: u64,
    quality_score_text: Seq<u8>,
    uptime_hours: u64,
    nonce: u64,
)
    requires
        routing_work <= u64::MAX / 1024,
        work_proof_built_from(
            wp,
            routing_work,
            storage_work,
            compute_work,
            quality_score_bits,
            quality_score_text,
            uptime_hours,
            nonce,
        ),
    ensures
        work_proof_hash_valid(wp, quality_score_text),
{
}

/// A proof of useful work built from its parts, with a work proof built from
/// the same measurements, passes self-contained verification.
pub proof fn lemma_built_pouw_verifies(
    wp: ProofOfUsefulWork,
    quality_score_bits: u64,
    quality_score_text: Seq<u8>,
)
    requires
        wp.routing_work <= u64::MAX / 1024,
        pouw_total(wp) <= u64::MAX,
        wp.difficulty == difficulty_for(pouw_total(wp) as nat),
        work_proof_built_from(
            wp.work_proof,
            wp.routing_work,
            wp.storage_work,
            wp.compute_work,
            quality_score_bits,
            quality_score_text,
            wp.work_proof.uptime_hours,
            wp.work_proof.nonce,
        ),
    ensures
        pouw_self_contained_valid(wp, quality_score_text),
{
    lemma_built_work_proof_verifies(
        wp.work_proof,
        wp.routing_work,
        wp.storage_work,
        wp.compute_work,
        quality_score_bits,
        quality_score_text,
        wp.work_proof.uptime_hours,
        wp.work_proof.nonce,
    );
}

} // verus!
