use node_identity::committee::parse_attester_committee;
use node_identity::committee::parse_validator_committee;
use node_identity::committee::validate_members;
use node_identity::committee::CommitteeError;
use node_identity::committee::ConstructionFault;
use node_identity::committee::WeightedAttesterKey;
use node_identity::committee::WeightedValidatorKey;
use node_identity::keys::AttesterPublicKey;
use node_identity::keys::ValidatorPublicKey;
use zksync_consensus_crypto::Text;
use zksync_consensus_crypto::TextFmt;
use zksync_consensus_roles::attester;
use zksync_consensus_roles::validator;

fn fresh_key() -> String {
    attester::SecretKey::generate().public().encode()
}

fn member(key: &str, weight: u64) -> WeightedAttesterKey {
    WeightedAttesterKey { key: AttesterPublicKey(key.to_string()), weight }
}

#[test]
fn empty_list_is_no_committee() {
    let parsed = parse_attester_committee(&[]);
    assert_eq!(parsed.err(), Some(CommitteeError::Construction(ConstructionFault::Empty)));
}

#[test]
fn same_key_twice_is_a_duplicate() {
    let key = fresh_key();
    let parsed = parse_attester_committee(&[member(&key, 1), member(&key, 1)]);
    assert_eq!(parsed.err(), Some(CommitteeError::Construction(ConstructionFault::DuplicateKey)));
}

#[test]
fn same_key_in_another_spelling_is_a_duplicate() {
    let key = fresh_key();
    let (prefix, hex) = key.split_at("attester:public:secp256k1:".len());
    let shouted = format!("{}{}", prefix, hex.to_uppercase());
    assert_ne!(key, shouted);
    let parsed = parse_attester_committee(&[member(&key, 1), member(&shouted, 2)]);
    assert_eq!(parsed.err(), Some(CommitteeError::Construction(ConstructionFault::DuplicateKey)));
}

#[test]
fn undecodable_key_is_reported_with_its_index() {
    let parsed = parse_attester_committee(&[member("not-a-key", 1)]);
    assert_eq!(parsed.err(), Some(CommitteeError::Decode { index: 0 }));
}

#[test]
fn first_undecodable_key_wins_over_later_ones_and_over_faults() {
    let key = fresh_key();
    let members =
        [member(&key, 0), member(&key, 1), member("attester:public:secp256k1:zz", 1), member("", 1)];
    assert_eq!(parse_attester_committee(&members).err(), Some(CommitteeError::Decode { index: 2 }));
}

#[test]
fn key_of_another_role_does_not_decode() {
    let key = validator::SecretKey::generate().public().encode();
    let members = [member(&fresh_key(), 1), member(&key, 1)];
    assert_eq!(parse_attester_committee(&members).err(), Some(CommitteeError::Decode { index: 1 }));
}

#[test]
fn zero_weight_is_refused() {
    let parsed = parse_attester_committee(&[member(&fresh_key(), 3), member(&fresh_key(), 0)]);
    assert_eq!(parsed.err(), Some(CommitteeError::Construction(ConstructionFault::ZeroWeight)));
}

#[test]
fn weights_beyond_u64_are_refused() {
    let parsed =
        parse_attester_committee(&[member(&fresh_key(), u64::MAX), member(&fresh_key(), 1)]);
    assert_eq!(parsed.err(), Some(CommitteeError::Construction(ConstructionFault::WeightOverflow)));
}

#[test]
fn weights_up_to_u64_are_accepted() {
    let parsed =
        parse_attester_committee(&[member(&fresh_key(), u64::MAX - 1), member(&fresh_key(), 1)]);
    assert_eq!(parsed.unwrap().total_weight(), u64::MAX);
}

#[test]
fn committee_holds_the_members_with_their_weights() {
    let (a, b, c) = (fresh_key(), fresh_key(), fresh_key());
    let committee =
        parse_attester_committee(&[member(&a, 5), member(&b, 7), member(&c, 1)]).unwrap();
    assert_eq!(committee.len(), 3);
    assert_eq!(committee.total_weight(), 13);
    for (text, weight) in [(&a, 5), (&b, 7), (&c, 1)] {
        let key: attester::PublicKey = Text::new(text).decode().unwrap();
        assert_eq!(committee.weight(&key), Some(weight));
    }
    let stranger: attester::PublicKey = Text::new(&fresh_key()).decode().unwrap();
    assert_eq!(committee.weight(&stranger), None);
}

#[test]
fn first_fault_in_order_is_reported() {
    let key = |s: &str| s.to_string();
    let members = vec![(key("a"), 1), (key("b"), 0), (key("a"), 1)];
    assert_eq!(validate_members(&members), Err(ConstructionFault::ZeroWeight));
    let members = vec![(key("a"), 1), (key("a"), 0), (key("b"), 0)];
    assert_eq!(validate_members(&members), Err(ConstructionFault::DuplicateKey));
    let members = vec![(key("a"), u64::MAX), (key("b"), 1), (key("a"), 1)];
    assert_eq!(validate_members(&members), Err(ConstructionFault::WeightOverflow));
}

#[test]
fn valid_members_give_their_total_weight() {
    let members = vec![("a".to_string(), 2), ("b".to_string(), 40)];
    assert_eq!(validate_members(&members), Ok(42));
    assert_eq!(validate_members(&Vec::new()), Err(ConstructionFault::Empty));
}

fn validator_member(key: &str, weight: u64) -> WeightedValidatorKey {
    WeightedValidatorKey { key: ValidatorPublicKey(key.to_string()), weight }
}

#[test]
fn validator_committee_holds_the_members_with_their_weights() {
    let keys: Vec<validator::PublicKey> =
        (0..3).map(|_| validator::SecretKey::generate().public()).collect();
    let members: Vec<_> =
        keys.iter().zip([4, 5, 6]).map(|(key, weight)| validator_member(&key.encode(), weight)).collect();
    let committee = parse_validator_committee(&members).unwrap();
    assert_eq!(committee.len(), 3);
    assert_eq!(committee.total_weight(), 15);
    for (key, weight) in keys.iter().zip([4, 5, 6]) {
        let index = committee.index(key).unwrap();
        assert_eq!(committee.get(index).unwrap().weight, weight);
    }
    assert!(!committee.contains(&validator::SecretKey::generate().public()));
}

#[test]
fn validator_committee_follows_the_rules_of_attesters() {
    let key = validator::SecretKey::generate().public().encode();
    let other = validator::SecretKey::generate().public().encode();
    let construction = |fault| Some(CommitteeError::Construction(fault));
    assert_eq!(parse_validator_committee(&[]).err(), construction(ConstructionFault::Empty));
    assert_eq!(
        parse_validator_committee(&[validator_member(&key, 1), validator_member(&key, 1)]).err(),
        construction(ConstructionFault::DuplicateKey)
    );
    assert_eq!(
        parse_validator_committee(&[validator_member(&key, 1), validator_member(&other, 0)]).err(),
        construction(ConstructionFault::ZeroWeight)
    );
    assert_eq!(
        parse_validator_committee(&[validator_member(&key, 1), validator_member(&other, u64::MAX)])
            .err(),
        construction(ConstructionFault::WeightOverflow)
    );
    assert_eq!(
        parse_validator_committee(&[validator_member(&key, 1), validator_member(&fresh_key(), 1)])
            .err(),
        Some(CommitteeError::Decode { index: 1 })
    );
    assert_eq!(
        parse_validator_committee(&[validator_member("not-a-key", 1)]).err(),
        Some(CommitteeError::Decode { index: 0 })
    );
}
