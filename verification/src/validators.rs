//! The validator registry: who is in the active validator set, with their
//! stake, storage and the three separated keys.

use vstd::prelude::*;
use crate::encoding::bytes32_eq;

verus! {

/// A validator identity (32 bytes).
pub type IdentityId = [u8; 32];

/// Length in bytes of a consensus (Dilithium5) public key.
pub const CONSENSUS_KEY_LEN: usize = 2592;

/// A registered validator.
#[derive(Debug)]
pub struct Validator {
    pub identity: IdentityId,
    pub stake: u64,
    pub storage_capacity: u64,
    /// BFT vote-signing key.
    pub consensus_key: [u8; 2592],
    /// P2P transport identity key.
    pub networking_key: Vec<u8>,
    /// Rewards wallet public key.
    pub rewards_key: Vec<u8>,
    pub commission_rate: u8,
}

/// Key separation: the networking and rewards keys are non-empty, and the
/// consensus, networking and rewards keys are pairwise distinct.
pub open spec fn keys_separated(consensus_key: Seq<u8>, networking_key: Seq<u8>, rewards_key: Seq<u8>) -> bool {
    &&& networking_key.len() > 0
    &&& rewards_key.len() > 0
    &&& consensus_key != networking_key
    &&& consensus_key != rewards_key
    &&& networking_key != rewards_key
}

/// Identities of a sequence of validators, in order.
pub open spec fn identities(validators: Seq<Validator>) -> Seq<IdentityId> {
    validators.map_values(|v: Validator| v.identity)
}

/// Whether `id` is registered in `validators`.
pub open spec fn is_registered(validators: Seq<Validator>, id: IdentityId) -> bool {
    exists|i: int| 0 <= i < validators.len() && (#[trigger] validators[i]).identity == id
}

/// Position of a registered identity.
pub open spec fn position_of(validators: Seq<Validator>, id: IdentityId) -> int {
    choose|i: int| 0 <= i < validators.len() && (#[trigger] validators[i]).identity == id
}

/// No identity is registered twice.
pub open spec fn identities_unique(validators: Seq<Validator>) -> bool {
    forall|i: int, j: int|
        0 <= i < j < validators.len() ==> (#[trigger] validators[i]).identity != (#[trigger] validators[j]).identity
}

/// Errors of the validator registry.
#[derive(Clone, Copy, Debug, PartialEq, Eq, Structural)]
pub enum RegistryError {
    /// The identity is already registered.
    AlreadyRegistered,
    /// The keys break key separation.
    KeysNotSeparated,
    /// The set already holds the maximum number of validators.
    SetFull,
    /// The identity is not registered.
    NotFound,
}

/// Outcome of registering a validator into `validators` bounded by `max_validators`.
pub open spec fn register_outcome(
    validators: Seq<Validator>,
    max_validators: u64,
    v: Validator,
) -> Result<Seq<Validator>, RegistryError> {
    if is_registered(validators, v.identity) {
        Err(RegistryError::AlreadyRegistered)
    } else if !keys_separated(v.consensus_key@, v.networking_key@, v.rewards_key@) {
        Err(RegistryError::KeysNotSeparated)
    } else if validators.len() >= max_validators {
        Err(RegistryError::SetFull)
    } else {
        Ok(validators.push(v))
    }
}

/// The registry refuses a validator whose networking or rewards key is
/// empty, or any two of whose consensus, networking and rewards keys are the
/// same bytes.
pub proof fn lemma_register_refuses_shared_keys(validators: Seq<Validator>, max_validators: u64, v: Validator)
    requires
        v.networking_key@.len() == 0 || v.rewards_key@.len() == 0 || v.consensus_key@ == v.networking_key@
            || v.consensus_key@ == v.rewards_key@ || v.networking_key@ == v.rewards_key@,
    ensures
        register_outcome(validators, max_validators, v) is Err,
{
}

/// The registry after removing a registered identity.
pub open spec fn removal_outcome(validators: Seq<Validator>, id: IdentityId) -> Seq<Validator> {
    validators.remove(position_of(validators, id))
}

/// A successful registration makes the identity registered, and keeps every
/// validator registered before.
pub proof fn lemma_registered_after_register(validators: Seq<Validator>, max_validators: u64, v: Validator, other: IdentityId)
    requires
        register_outcome(validators, max_validators, v) is Ok,
    ensures
        is_registered(register_outcome(validators, max_validators, v)->Ok_0, v.identity),
        is_registered(validators, other) ==> is_registered(register_outcome(validators, max_validators, v)->Ok_0, other),
{
    let vs = validators.push(v);
    assert(vs[validators.len() as int].identity == v.identity);
    if is_registered(validators, other) {
        let i = choose|i: int| 0 <= i < validators.len() && (#[trigger] validators[i]).identity == other;
        assert(vs[i] == validators[i]);
    }
}

/// Removing a registered identity unregisters it and keeps every other validator.
pub proof fn lemma_absent_after_remove(validators: Seq<Validator>, id: IdentityId, other: IdentityId)
    requires
        identities_unique(validators),
        is_registered(validators, id),
    ensures
        !is_registered(removal_outcome(validators, id), id),
        other != id ==> (is_registered(removal_outcome(validators, id), other) == is_registered(validators, other)),
        removal_outcome(validators, id).len() == validators.len() - 1,
{
    let p = position_of(validators, id);
    let vs = validators.remove(p);
    if is_registered(vs, id) {
        let i = choose|i: int| 0 <= i < vs.len() && (#[trigger] vs[i]).identity == id;
        let oi = if i < p { i } else { i + 1 };
        assert(vs[i] == validators[oi]);
        if oi < p {
            assert(validators[oi].identity != validators[p].identity);
        } else {
            assert(validators[p].identity != validators[oi].identity);
        }
    }
    if other != id {
        if is_registered(validators, other) {
            let i = choose|i: int| 0 <= i < validators.len() && (#[trigger] validators[i]).identity == other;
            if i < p {
                assert(vs[i] == validators[i]);
            } else {
                assert(i != p);
                assert(vs[i - 1] == validators[i]);
            }
        }
        if is_registered(vs, other) {
            let i = choose|i: int| 0 <= i < vs.len() && (#[trigger] vs[i]).identity == other;
            let oi = if i < p { i } else { i + 1 };
            assert(vs[i] == validators[oi]);
        }
    }
}

/// Whether two byte strings are equal.
pub fn bytes_eq(a: &[u8], b: &[u8]) -> (eq: bool)
    ensures
        eq == (a@ == b@),
{
    if a.len() != b.len() {
        return false;
    }
    let mut i: usize = 0;
    while i < a.len()
        invariant
            0 <= i <= a@.len(),
            a@.len() == b@.len(),
            forall|j: int| 0 <= j < i ==> a@[j] == b@[j],
        decreases a@.len() - i,
    {
        if a[i] != b[i] {
            return false;
        }
        i = i + 1;
    }
    assert(a@ =~= b@);
    true
}

/// Check key separation.
pub fn check_keys_separated(consensus_key: &[u8; 2592], networking_key: &[u8], rewards_key: &[u8]) -> (ok: bool)
    ensures
        ok == keys_separated(consensus_key@, networking_key@, rewards_key@),
        ok <==> (networking_key@.len() > 0 && rewards_key@.len() > 0 && consensus_key@ != networking_key@
            && consensus_key@ != rewards_key@ && networking_key@ != rewards_key@),
{
    networking_key.len() > 0 && rewards_key.len() > 0 && !bytes_eq(consensus_key.as_slice(), networking_key)
        && !bytes_eq(consensus_key.as_slice(), rewards_key) && !bytes_eq(networking_key, rewards_key)
}

/// Registry of validators: the active set, its size bound and staking rules.
pub struct ValidatorManager {
    validators: Vec<Validator>,
    max_validators: u64,
    min_stake: u64,
    development_mode: bool,
}

impl ValidatorManager {
    /// The registered validators, in registration order.
    pub closed spec fn validators(&self) -> Seq<Validator> {
        self.validators@
    }

    /// Maximum number of validators.
    pub closed spec fn max_validators(&self) -> u64 {
        self.max_validators
    }

    /// Registry invariant: identities are unique.
    pub open spec fn wf(&self) -> bool {
        identities_unique(self.validators())
    }

    pub fn new_with_development_mode(max_validators: u64, min_stake: u64, development_mode: bool) -> (m: Self)
        ensures
            m.validators() == Seq::<Validator>::empty(),
            m.max_validators() == max_validators,
            m.spec_min_stake() == min_stake,
            m.spec_development_mode() == development_mode,
            m.wf(),
    {
        ValidatorManager { validators: Vec::new(), max_validators, min_stake, development_mode }
    }

    /// Minimum stake the registry was configured with.
    pub closed spec fn spec_min_stake(&self) -> u64 {
        self.min_stake
    }

    /// Development mode the registry was configured with.
    pub closed spec fn spec_development_mode(&self) -> bool {
        self.development_mode
    }

    /// Minimum stake of the registry.
    pub fn min_stake(&self) -> (s: u64)
        ensures
            s == self.spec_min_stake(),
    {
        self.min_stake
    }

    /// Whether the registry runs in development mode.
    pub fn development_mode(&self) -> (d: bool)
        ensures
            d == self.spec_development_mode(),
    {
        self.development_mode
    }

    /// Number of active validators.
    pub fn active_count(&self) -> (n: usize)
        ensures
            n == self.validators().len(),
    {
        self.validators.len()
    }

    /// Position of `id` in the registry, if registered.
    pub fn find(&self, id: &IdentityId) -> (pos: Option<usize>)
        requires
            self.wf(),
        ensures
            pos is None <==> !is_registered(self.validators(), *id),
            pos matches Some(i) ==> i < self.validators().len() && self.validators()[i as int].identity == *id
                && i == position_of(self.validators(), *id),
    {
        let mut i: usize = 0;
        while i < self.validators.len()
            invariant
                self.wf(),
                0 <= i <= self.validators@.len(),
                forall|j: int| 0 <= j < i ==> (#[trigger] self.validators@[j]).identity != *id,
            decreases self.validators@.len() - i,
        {
            if bytes32_eq(&self.validators[i].identity, id) {
                proof {
                    let p = position_of(self.validators(), *id);
                    assert(self.validators@[i as int].identity == *id);
                    if p != i {
                        assert(self.validators@[p].identity == *id);
                    }
                }
                return Some(i);
            }
            i = i + 1;
        }
        None
    }

    /// Whether `id` is registered.
    pub fn contains(&self, id: &IdentityId) -> (found: bool)
        requires
            self.wf(),
        ensures
            found == is_registered(self.validators(), *id),
    {
        self.find(id).is_some()
    }

    /// The consensus key of a registered validator.
    pub fn consensus_key_of(&self, id: &IdentityId) -> (key: Option<[u8; 2592]>)
        requires
            self.wf(),
        ensures
            key is None <==> !is_registered(self.validators(), *id),
            key matches Some(k) ==> k == self.validators()[position_of(self.validators(), *id)].consensus_key,
    {
        match self.find(id) {
            Some(i) => Some(self.validators[i].consensus_key),
            None => None,
        }
    }

    /// Identities of the active validators, in registration order.
    pub fn active_validator_ids(&self) -> (ids: Vec<IdentityId>)
        ensures
            ids@ == identities(self.validators()),
    {
        let mut ids: Vec<IdentityId> = Vec::new();
        let mut i: usize = 0;
        while i < self.validators.len()
            invariant
                0 <= i <= self.validators@.len(),
                ids@ == identities(self.validators@.subrange(0, i as int)),
            decreases self.validators@.len() - i,
        {
            ids.push(self.validators[i].identity);
            proof {
                assert(identities(self.validators@.subrange(0, i + 1)) =~= identities(
                    self.validators@.subrange(0, i as int),
                ).push(self.validators@[i as int].identity));
            }
            i = i + 1;
        }
        proof {
            assert(self.validators@.subrange(0, self.validators@.len() as int) =~= self.validators@);
        }
        ids
    }

    /// Register a validator. Fails if the identity is already registered, the
    /// keys are not separated, or the set is full.
    pub fn register_validator(
        &mut self,
        identity: IdentityId,
        stake: u64,
        storage_capacity: u64,
        consensus_key: [u8; 2592],
        networking_key: Vec<u8>,
        rewards_key: Vec<u8>,
        commission_rate: u8,
    ) -> (result: Result<(), RegistryError>)
        requires
            old(self).wf(),
        ensures
            final(self).wf(),
            final(self).max_validators() == old(self).max_validators(),
            final(self).spec_min_stake() == old(self).spec_min_stake(),
            final(self).spec_development_mode() == old(self).spec_development_mode(),
            ({
                let v = Validator {
                    identity,
                    stake,
                    storage_capacity,
                    consensus_key,
                    networking_key,
                    rewards_key,
                    commission_rate,
                };
                match register_outcome(old(self).validators(), old(self).max_validators(), v) {
                    Ok(vs) => result is Ok && final(self).validators() == vs,
                    Err(e) => result == Err::<(), RegistryError>(e) && final(self).validators() == old(self).validators(),
                }
            }),
    {
        if self.contains(&identity) {
            return Err(RegistryError::AlreadyRegistered);
        }
        if !check_keys_separated(&consensus_key, networking_key.as_slice(), rewards_key.as_slice()) {
            return Err(RegistryError::KeysNotSeparated);
        }
        if self.validators.len() as u64 >= self.max_validators {
            return Err(RegistryError::SetFull);
        }
        let v = Validator {
            identity,
            stake,
            storage_capacity,
            consensus_key,
            networking_key,
            rewards_key,
            commission_rate,
        };
        let ghost old_vs = self.validators@;
        self.validators.push(v);
        proof {
            assert forall|i: int, j: int| 0 <= i < j < self.validators@.len() implies (
            #[trigger] self.validators@[i]).identity != (#[trigger] self.validators@[j]).identity by {
                if j == old_vs.len() {
                    if self.validators@[i].identity == identity {
                        assert(old_vs[i].identity == identity);
                    }
                } else {
                    assert(old_vs[i] == self.validators@[i]);
                    assert(old_vs[j] == self.validators@[j]);
                }
            }
        }
        Ok(())
    }

    /// Remove a registered validator; fails if the identity is not registered.
    pub fn remove_validator(&mut self, identity: &IdentityId) -> (result: Result<(), RegistryError>)
        requires
            old(self).wf(),
        ensures
            final(self).wf(),
            final(self).max_validators() == old(self).max_validators(),
            final(self).spec_min_stake() == old(self).spec_min_stake(),
            final(self).spec_development_mode() == old(self).spec_development_mode(),
            is_registered(old(self).validators(), *identity) ==> result is Ok && final(self).validators()
                == removal_outcome(old(self).validators(), *identity),
            !is_registered(old(self).validators(), *identity) ==> result == Err::<(), RegistryError>(
                RegistryError::NotFound,
            ) && final(self).validators() == old(self).validators(),
    {
        match self.find(identity) {
            None => Err(RegistryError::NotFound),
            Some(i) => {
                let ghost old_vs = self.validators@;
                let _removed = self.validators.remove(i);
                proof {
                    assert forall|a: int, b: int| 0 <= a < b < self.validators@.len() implies (
                    #[trigger] self.validators@[a]).identity != (#[trigger] self.validators@[b]).identity by {
                        let oa = if a < i { a } else { a + 1 };
                        let ob = if b < i { b } else { b + 1 };
                        assert(self.validators@[a] == old_vs[oa]);
                        assert(self.validators@[b] == old_vs[ob]);
                    }
                }
                Ok(())
            },
        }
    }
}

} // verus!
