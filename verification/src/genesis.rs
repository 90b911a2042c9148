//! The genesis specification of a network that is bootstrapped from a single
//! node: that node is the only validator, the only attester and the leader.

use crate::committee::WeightedAttesterKey;
use crate::committee::WeightedValidatorKey;
use crate::keys::get_consensus_public_keys;
use crate::keys::AttesterPublicKey;
use crate::keys::ConsensusSecretKeys;
use crate::keys::NodePublicKey;
use crate::keys::ValidatorPublicKey;
use std::collections::BTreeMap;
use vstd::prelude::*;
use zksync_basic_types::Address;
use zksync_basic_types::L2ChainId;

verus! {

/// `zksync_basic_types::L2ChainId`, the identifier of a chain.
#[verifier::external_type_specification]
#[verifier::external_body]
pub struct ExL2ChainId(L2ChainId);

/// `zksync_basic_types::Address`, the address of a contract.
#[verifier::external_type_specification]
#[verifier::external_body]
pub struct ExAddress(Address);

/// The protocol version that a new network starts with.
pub const INITIAL_PROTOCOL_VERSION: u32 = 1;

/// The weight of the single member of a bootstrap committee.
pub const BOOTSTRAP_WEIGHT: u64 = 1;

/// The version of the consensus protocol.
#[derive(Debug, Clone, Copy, PartialEq, Eq)]
pub struct ProtocolVersion(pub u32);

/// The address at which a peer is reached.
#[derive(Debug, Clone, PartialEq, Eq)]
pub struct Host(pub String);

/// What the members of a new network agree on before it starts.
#[derive(Debug, PartialEq)]
pub struct GenesisSpec {
    pub chain_id: L2ChainId,
    pub protocol_version: ProtocolVersion,
    pub validators: Vec<WeightedValidatorKey>,
    pub attesters: Vec<WeightedAttesterKey>,
    pub leader: ValidatorPublicKey,
    pub registry_address: Option<Address>,
    pub seed_peers: BTreeMap<NodePublicKey, Host>,
}

impl GenesisSpec {
    /// The leader is one of the validators.
    pub open spec fn leader_is_validator(&self) -> bool {
        exists|i: int| 0 <= i < self.validators@.len() && self.validators@[i].key@ == self.leader@
    }

    /// This is the specification of the network on chain `chain_id` whose only
    /// validator has the public key `validator`, and whose only attester has the
    /// public key `attester`: both have the bootstrap weight, the validator
    /// leads, the protocol version is the initial one, no registry is set and
    /// no peer is known.
    pub open spec fn is_bootstrap_of(
        &self,
        chain_id: L2ChainId,
        validator: Seq<char>,
        attester: Seq<char>,
    ) -> bool {
        &&& self.chain_id == chain_id
        &&& self.protocol_version == ProtocolVersion(INITIAL_PROTOCOL_VERSION)
        &&& self.validators@.len() == 1
        &&& self.validators@[0].key@ == validator
        &&& self.validators@[0].weight == BOOTSTRAP_WEIGHT
        &&& self.attesters@.len() == 1
        &&& self.attesters@[0].key@ == attester
        &&& self.attesters@[0].weight == BOOTSTRAP_WEIGHT
        &&& self.leader@ == validator
        &&& self.registry_address is None
        &&& self.seed_peers@ == Map::<NodePublicKey, Host>::empty()
    }
}

/// The genesis specification of the network on chain `chain_id` that starts
/// with the one node that owns the two public keys.
pub fn bootstrap_genesis_spec(
    chain_id: L2ChainId,
    validator_key: ValidatorPublicKey,
    attester_key: AttesterPublicKey,
) -> (spec: GenesisSpec)
    ensures
        spec.is_bootstrap_of(chain_id, validator_key@, attester_key@),
        spec.leader_is_validator(),
{
    let leader = ValidatorPublicKey(validator_key.0.clone());
    let validator = WeightedValidatorKey { key: validator_key, weight: BOOTSTRAP_WEIGHT };
    let attester = WeightedAttesterKey { key: attester_key, weight: BOOTSTRAP_WEIGHT };
    let spec = GenesisSpec {
        chain_id,
        protocol_version: ProtocolVersion(INITIAL_PROTOCOL_VERSION),
        validators: vec![validator],
        attesters: vec![attester],
        leader,
        registry_address: None,
        seed_peers: BTreeMap::new(),
    };
    assert(spec.validators@[0].key@ == spec.leader@);
    spec
}

/// The genesis specification of the network on chain `chain_id` that starts
/// with the one node that owns `consensus_keys`.
pub fn get_genesis_specs(chain_id: L2ChainId, consensus_keys: &ConsensusSecretKeys) -> (spec:
    GenesisSpec)
    ensures
        consensus_keys@.decodable(),
        spec.is_bootstrap_of(
            chain_id,
            consensus_keys@.public().0,
            consensus_keys@.public().1,
        ),
        spec.leader_is_validator(),
{
    let public_keys = get_consensus_public_keys(consensus_keys);
    bootstrap_genesis_spec(chain_id, public_keys.validator_key, public_keys.attester_key)
}

/// In a bootstrap specification the leader is the one validator.
pub proof fn lemma_bootstrap_leader_is_validator(
    spec: GenesisSpec,
    chain_id: L2ChainId,
    validator: Seq<char>,
    attester: Seq<char>,
)
    requires
        spec.is_bootstrap_of(chain_id, validator, attester),
    ensures
        spec.leader_is_validator(),
{
    assert(spec.validators@[0].key@ == spec.leader@);
}

} // verus!
