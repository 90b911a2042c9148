use node_identity::genesis::bootstrap_genesis_spec;
use node_identity::genesis::get_genesis_specs;
use node_identity::genesis::Host;
use node_identity::genesis::ProtocolVersion;
use node_identity::genesis::BOOTSTRAP_WEIGHT;
use node_identity::genesis::INITIAL_PROTOCOL_VERSION;
use node_identity::keys::generate_consensus_keys;
use node_identity::keys::get_consensus_public_keys;
use node_identity::keys::attester_public_key_of;
use node_identity::keys::node_public_key_of;
use node_identity::keys::validator_public_key_of;
use node_identity::keys::AttesterPublicKey;
use node_identity::keys::NodePublicKey;
use node_identity::keys::ValidatorPublicKey;
use node_identity::sensitive::SensitiveString;
use std::collections::BTreeMap;
use zksync_basic_types::L2ChainId;
use zksync_consensus_crypto::Text;
use zksync_consensus_crypto::TextFmt;
use zksync_consensus_roles::attester;
use zksync_consensus_roles::validator;

#[test]
fn public_keys_are_derived_the_same_way_each_time() {
    let keys = generate_consensus_keys();
    let first = get_consensus_public_keys(&keys);
    let second = get_consensus_public_keys(&keys);
    assert_eq!(first, second);
    assert_eq!(first.validator_key.0, second.validator_key.0);
    assert_eq!(first.attester_key.0, second.attester_key.0);
}

#[test]
fn public_keys_belong_to_the_secret_keys() {
    let keys = generate_consensus_keys();
    let public = get_consensus_public_keys(&keys);
    let validator: validator::SecretKey =
        Text::new(keys.validator_key().expose()).decode().unwrap();
    let attester: attester::SecretKey = Text::new(keys.attester_key().expose()).decode().unwrap();
    assert_eq!(public.validator_key.0, validator.public().encode());
    assert_eq!(public.attester_key.0, attester.public().encode());
    assert!(public.validator_key.0.starts_with("validator:public:bls12_381:"));
    assert!(public.attester_key.0.starts_with("attester:public:secp256k1:"));
    assert_ne!(&public.validator_key.0, keys.validator_key().expose());
}

#[test]
fn generating_twice_gives_different_keys() {
    let first = generate_consensus_keys();
    let second = generate_consensus_keys();
    assert_ne!(first.validator_key().expose(), second.validator_key().expose());
    assert_ne!(first.attester_key().expose(), second.attester_key().expose());
    assert_ne!(first.node_key().expose(), second.node_key().expose());
}

#[test]
fn node_public_key_of_a_known_secret() {
    let secret = SensitiveString::new(
        "node:secret:ed25519:0000000000000000000000000000000000000000000000000000000000000000"
            .to_string(),
    );
    let public = node_public_key_of(&secret).unwrap();
    assert_eq!(
        public,
        NodePublicKey(
            "node:public:ed25519:3b6a27bcceb6a42d62a3a8d02a6f0d73653215771de243a63ac048a18b59da29"
                .to_string()
        )
    );
    assert_eq!(node_public_key_of(&SensitiveString::new("node:secret:ed25519:00".to_string())), None);
}

#[test]
fn genesis_spec_of_a_single_node() {
    let keys = generate_consensus_keys();
    let public = get_consensus_public_keys(&keys);
    let spec = get_genesis_specs(L2ChainId::from(9), &keys);
    assert_eq!(spec.chain_id, L2ChainId::from(9));
    assert_eq!(spec.chain_id.as_u64(), 9);
    assert_eq!(spec.protocol_version, ProtocolVersion(1));
    assert_eq!(INITIAL_PROTOCOL_VERSION, 1);
    assert_eq!(BOOTSTRAP_WEIGHT, 1);
    assert_eq!(spec.validators.len(), 1);
    assert_eq!(spec.validators[0].key, public.validator_key);
    assert_eq!(spec.validators[0].weight, 1);
    assert_eq!(spec.attesters.len(), 1);
    assert_eq!(spec.attesters[0].key, public.attester_key);
    assert_eq!(spec.attesters[0].weight, 1);
    assert_eq!(spec.leader, public.validator_key);
    assert_eq!(spec.leader, spec.validators[0].key);
    assert_eq!(spec.registry_address, None);
    assert!(spec.seed_peers.is_empty());
    assert_eq!(spec.seed_peers, BTreeMap::<NodePublicKey, Host>::new());
}

#[test]
fn genesis_spec_of_given_public_keys() {
    let spec = bootstrap_genesis_spec(
        L2ChainId::from(270),
        ValidatorPublicKey("validator:public:bls12_381:aa".to_string()),
        AttesterPublicKey("attester:public:secp256k1:bb".to_string()),
    );
    assert_eq!(spec.chain_id, L2ChainId::default());
    assert_eq!(spec.leader.0, "validator:public:bls12_381:aa");
    assert_eq!(spec.validators[0].key.0, "validator:public:bls12_381:aa");
    assert_eq!(spec.attesters[0].key.0, "attester:public:secp256k1:bb");
    assert_eq!((spec.validators.len(), spec.attesters.len()), (1, 1));
    assert_eq!((spec.validators[0].weight, spec.attesters[0].weight), (1, 1));
}

#[test]
fn public_key_of_a_role_needs_a_secret_key_of_that_role() {
    let keys = generate_consensus_keys();
    let public = get_consensus_public_keys(&keys);
    assert_eq!(validator_public_key_of(keys.validator_key()), Some(public.validator_key));
    assert_eq!(attester_public_key_of(keys.attester_key()), Some(public.attester_key));
    assert_eq!(validator_public_key_of(keys.attester_key()), None);
    assert_eq!(attester_public_key_of(keys.node_key()), None);
    assert_eq!(node_public_key_of(keys.validator_key()), None);
    assert_eq!(validator_public_key_of(&SensitiveString::new(String::new())), None);
}

#[test]
fn copied_keys_are_the_same_keys() {
    let keys = generate_consensus_keys();
    let copy = keys.clone();
    assert_eq!(copy.validator_key().expose(), keys.validator_key().expose());
    assert_eq!(copy.attester_key().expose(), keys.attester_key().expose());
    assert_eq!(copy.node_key().expose(), keys.node_key().expose());
    assert!(!format!("{:?}", keys).contains(keys.node_key().expose().as_str()));
}
