//! The zero-knowledge proof system handle and the default (mock) proof.

use vstd::prelude::*;

verus! {

/// A zero-knowledge proof.
#[derive(Debug)]
pub struct ZkProof {
    pub proof_data: Vec<u8>,
    pub public_inputs: Vec<u8>,
    pub verification_key: Vec<u8>,
    /// Whether this is a development stand-in rather than a real proof.
    pub is_mock: bool,
}

/// A proof carries no data when its proof bytes, public inputs and
/// verification key are all empty.
pub open spec fn zk_proof_empty(proof: ZkProof) -> bool {
    proof.proof_data@.len() == 0 && proof.public_inputs@.len() == 0 && proof.verification_key@.len() == 0
}

impl ZkProof {
    /// Whether the proof carries no data.
    pub fn is_empty(&self) -> (empty: bool)
        ensures
            empty == zk_proof_empty(*self),
    {
        self.proof_data.len() == 0 && self.public_inputs.len() == 0 && self.verification_key.len() == 0
    }
}

impl Default for ZkProof {
    /// The default proof: empty and marked as a mock.
    fn default() -> (proof: ZkProof)
        ensures
            zk_proof_empty(proof),
            proof.is_mock,
    {
        ZkProof { proof_data: Vec::new(), public_inputs: Vec::new(), verification_key: Vec::new(), is_mock: true }
    }
}

/// Errors of the proof system.
#[derive(Clone, Copy, Debug, PartialEq, Eq, Structural)]
pub enum ZkError {
    /// The proof system could not be set up.
    SetupFailed,
}

/// Handle on the unified proof system.
#[derive(Debug)]
pub struct ZkProofSystem {
    initialized: bool,
}

impl ZkProofSystem {
    /// Whether the proof system is ready.
    pub closed spec fn ready(&self) -> bool {
        self.initialized
    }

    /// Set up the proof system.
    pub fn new() -> (system: Result<ZkProofSystem, ZkError>)
        ensures
            system matches Ok(s) && s.ready(),
    {
        Ok(ZkProofSystem { initialized: true })
    }

    /// Whether the proof system is ready.
    pub fn is_ready(&self) -> (ready: bool)
        ensures
            ready == self.ready(),
    {
        self.initialized
    }
}

/// Initialize the unified ZK proof system.
pub fn initialize_zk_system() -> (system: Result<ZkProofSystem, ZkError>)
    ensures
        system matches Ok(s) && s.ready(),
{
    ZkProofSystem::new()
}

/// Create a default proof for development and testing: empty and a mock.
pub fn create_default_proof() -> (proof: ZkProof)
    ensures
        zk_proof_empty(proof),
        proof.is_mock,
{
    ZkProof::default()
}

} // verus!
