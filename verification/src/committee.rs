//! Weighted committees: the members that vote, each with a public key and a
//! weight. A committee is checked before it is built: its keys are distinct,
//! its weights positive, and it is not empty.

use crate::keys::AttesterPublicKey;
use crate::keys::ValidatorPublicKey;
use vstd::prelude::*;
use zksync_consensus_crypto::Text;
use zksync_consensus_crypto::TextFmt;
use zksync_consensus_roles::attester;
use zksync_consensus_roles::validator;

verus! {

/// A validator and its voting weight.
#[derive(Debug, Clone, PartialEq, Eq)]
pub struct WeightedValidatorKey {
    pub key: ValidatorPublicKey,
    pub weight: u64,
}

/// An attester and its voting weight.
#[derive(Debug, Clone, PartialEq, Eq)]
pub struct WeightedAttesterKey {
    pub key: AttesterPublicKey,
    pub weight: u64,
}

/// Why a list of members is no committee.
#[derive(Debug, Clone, Copy, PartialEq, Eq)]
pub enum ConstructionFault {
    /// A member has the key of a member before it.
    DuplicateKey,
    /// A member has weight zero.
    ZeroWeight,
    /// The weights add up to more than a `u64` holds.
    WeightOverflow,
    /// There is no member.
    Empty,
}

/// Why a list of weighted keys could not be made a committee.
#[derive(Debug, Clone, Copy, PartialEq, Eq)]
pub enum CommitteeError {
    /// The key of the member at `index` (counted from zero) does not decode.
    Decode { index: usize },
    /// Every key decodes, but the members are no committee.
    Construction(ConstructionFault),
}

/// A member as the rules see it: the canonical text of its key, and its weight.
pub type Member = (Seq<char>, u64);

/// The sum of the members' weights.
pub open spec fn total_weight(members: Seq<Member>) -> nat
    decreases members.len(),
{
    if members.len() == 0 {
        0
    } else {
        total_weight(members.drop_last()) + members.last().1 as nat
    }
}

/// The members are a committee: there is one at least, no two have the same
/// key, each has a positive weight, and the sum of the weights is a `u64`.
pub open spec fn valid_committee(members: Seq<Member>) -> bool {
    &&& members.len() > 0
    &&& forall|i: int, j: int|
        0 <= i < j < members.len() ==> (#[trigger] members[i]).0 != (#[trigger] members[j]).0
    &&& forall|i: int| 0 <= i < members.len() ==> (#[trigger] members[i]).1 > 0
    &&& total_weight(members) <= u64::MAX
}

/// What is wrong with the member at `i`, as far as it and the members before
/// it show: a repeated key counts before a zero weight, and that before a sum
/// that has grown too large.
pub open spec fn fault_at(members: Seq<Member>, i: int) -> Option<ConstructionFault> {
    if exists|j: int| 0 <= j < i && (#[trigger] members[j]).0 == members[i].0 {
        Some(ConstructionFault::DuplicateKey)
    } else if members[i].1 == 0 {
        Some(ConstructionFault::ZeroWeight)
    } else if total_weight(members.take(i + 1)) > u64::MAX {
        Some(ConstructionFault::WeightOverflow)
    } else {
        None
    }
}

/// The member at `i` is the first with a fault.
pub open spec fn first_fault_is_at(members: Seq<Member>, i: int) -> bool {
    &&& 0 <= i < members.len()
    &&& fault_at(members, i) is Some
    &&& forall|j: int| 0 <= j < i ==> fault_at(members, j) is None
}

/// Why `members` is no committee: the fault of the first member that has one,
/// or that there is no member; `None` where `members` is a committee.
pub open spec fn committee_fault(members: Seq<Member>) -> Option<ConstructionFault> {
    if exists|i: int| first_fault_is_at(members, i) {
        fault_at(members, choose|i: int| first_fault_is_at(members, i))
    } else if members.len() == 0 {
        Some(ConstructionFault::Empty)
    } else {
        None
    }
}

/// The weight of each key in `members`.
pub open spec fn weights_by_key(members: Seq<Member>) -> Map<Seq<char>, u64> {
    Map::new(
        |key: Seq<char>| exists|i: int| 0 <= i < members.len() && (#[trigger] members[i]).0 == key,
        |key: Seq<char>|
            members[choose|i: int| 0 <= i < members.len() && (#[trigger] members[i]).0 == key].1,
    )
}

/// In a committee each member has its own weight: the key of a member is
/// among the keys, and the weight found by the key is that of the member.
pub proof fn lemma_member_has_its_weight(members: Seq<Member>, i: int)
    requires
        valid_committee(members),
        0 <= i < members.len(),
    ensures
        weights_by_key(members).contains_key(members[i].0),
        weights_by_key(members)[members[i].0] == members[i].1,
{
    let key = members[i].0;
    let found = choose|j: int| 0 <= j < members.len() && (#[trigger] members[j]).0 == key;
    if found < i {
        assert(members[found].0 != members[i].0);
    } else if i < found {
        assert(members[i].0 != members[found].0);
    }
}

/// There is only one first fault.
pub proof fn lemma_first_fault_unique(members: Seq<Member>, i: int, k: int)
    requires
        first_fault_is_at(members, i),
        first_fault_is_at(members, k),
    ensures
        i == k,
{
    if i < k {
        assert(fault_at(members, i) is None);
    } else if k < i {
        assert(fault_at(members, k) is None);
    }
}

/// The sum over a prefix is at most the sum over the whole.
pub proof fn lemma_total_weight_prefix(members: Seq<Member>, n: int)
    requires
        0 <= n <= members.len(),
    ensures
        total_weight(members.take(n)) <= total_weight(members),
    decreases members.len(),
{
    if n == members.len() {
        assert(members.take(n) =~= members);
    } else {
        assert(members.drop_last().take(n) =~= members.take(n));
        lemma_total_weight_prefix(members.drop_last(), n);
    }
}

/// Members without a fault are exactly a committee.
pub proof fn lemma_no_fault_iff_valid(members: Seq<Member>)
    ensures
        committee_fault(members) is None <==> valid_committee(members),
{
    if valid_committee(members) {
        assert forall|i: int| 0 <= i < members.len() implies fault_at(members, i) is None by {
            lemma_total_weight_prefix(members, i + 1);
        }
        assert(!exists|i: int| first_fault_is_at(members, i));
    }
    if committee_fault(members) is None {
        if exists|i: int| first_fault_is_at(members, i) {
            let i = choose|i: int| first_fault_is_at(members, i);
            assert(fault_at(members, i) is Some);
        }
        assert(members.len() > 0);
        lemma_none_first_means_none(members, members.len() as int);
        assert forall|i: int, j: int| 0 <= i < j < members.len() implies (#[trigger] members[i]).0
            != (#[trigger] members[j]).0 by {
            assert(fault_at(members, j) is None);
        }
        assert forall|i: int| 0 <= i < members.len() implies (#[trigger] members[i]).1 > 0 by {
            assert(fault_at(members, i) is None);
        }
        let last = members.len() - 1;
        assert(fault_at(members, last) is None);
        assert(members.take(last + 1) =~= members);
    }
}

/// Where no member is the first with a fault, no member below `n` has one.
proof fn lemma_none_first_means_none(members: Seq<Member>, n: int)
    requires
        0 <= n <= members.len(),
        !exists|i: int| first_fault_is_at(members, i),
    ensures
        forall|i: int| 0 <= i < n ==> fault_at(members, i) is None,
    decreases n,
{
    if n > 0 {
        lemma_none_first_means_none(members, n - 1);
        if fault_at(members, n - 1) is Some {
            assert(first_fault_is_at(members, n - 1));
        }
    }
}

/// The members as the rules see them.
pub open spec fn member_views(members: Seq<(String, u64)>) -> Seq<Member> {
    Seq::new(members.len(), |i: int| (members[i].0@, members[i].1))
}

/// Checks that `members`, given by the canonical texts of their keys, are a
/// committee, and adds up their weights. Members are looked at in order, and
/// the first fault is reported.
pub fn validate_members(members: &Vec<(String, u64)>) -> (checked: Result<u64, ConstructionFault>)
    ensures
        match checked {
            Ok(total) => valid_committee(member_views(members@)) && total == total_weight(
                member_views(members@),
            ),
            Err(fault) => !valid_committee(member_views(members@)) && committee_fault(
                member_views(members@),
            ) == Some(fault),
        },
{
    let ghost views = member_views(members@);
    proof {
        lemma_no_fault_iff_valid(views);
    }
    let mut total: u64 = 0;
    let mut i: usize = 0;
    assert(views.take(0) =~= Seq::<Member>::empty());
    while i < members.len()
        invariant
            i <= members.len(),
            views == member_views(members@),
            committee_fault(views) is None <==> valid_committee(views),
            total == total_weight(views.take(i as int)),
            forall|j: int| 0 <= j < i ==> fault_at(views, j) is None,
        decreases members.len() - i,
    {
        let mut repeated = false;
        let mut j: usize = 0;
        while j < i
            invariant
                j <= i < members.len(),
                views == member_views(members@),
                repeated == exists|k: int| 0 <= k < j && (#[trigger] views[k]).0 == views[i as int].0,
            decreases i - j,
        {
            if members[j].0 == members[i].0 {
                assert(views[j as int].0 == views[i as int].0);
                repeated = true;
            }
            j += 1;
        }
        let ghost before = views.take(i as int);
        let ghost upto = views.take(i + 1);
        assert(upto.drop_last() =~= before);
        assert(upto.last() == views[i as int]);
        if repeated {
            proof {
                assert(first_fault_is_at(views, i as int));
                lemma_fault_is_first(views, i as int);
            }
            return Err(ConstructionFault::DuplicateKey);
        }
        if members[i].1 == 0 {
            proof {
                assert(first_fault_is_at(views, i as int));
                lemma_fault_is_first(views, i as int);
            }
            return Err(ConstructionFault::ZeroWeight);
        }
        match total.checked_add(members[i].1) {
            Some(sum) => {
                total = sum;
            },
            None => {
                proof {
                    assert(first_fault_is_at(views, i as int));
                    lemma_fault_is_first(views, i as int);
                }
                return Err(ConstructionFault::WeightOverflow);
            },
        }
        i += 1;
    }
    assert(views.take(i as int) =~= views);
    if members.len() == 0 {
        return Err(ConstructionFault::Empty);
    }
    Ok(total)
}

/// Where the first fault is at `i`, it is the fault of the whole.
proof fn lemma_fault_is_first(members: Seq<Member>, i: int)
    requires
        first_fault_is_at(members, i),
    ensures
        committee_fault(members) == fault_at(members, i),
{
    let k = choose|k: int| first_fault_is_at(members, k);
    lemma_first_fault_unique(members, i, k);
}

/// `attester::Committee`, the committee of attesters that the consensus
/// protocol works with.
#[verifier::external_type_specification]
#[verifier::external_body]
pub struct ExAttesterCommittee(attester::Committee);

/// `attester::WeightedAttester`, a member of an `attester::Committee`, which
/// hands its members out as a list of these.
#[verifier::external_type_specification]
#[verifier::external_body]
pub struct ExCommitteeAttester(attester::WeightedAttester);

/// `validator::Committee`, the committee of validators that the consensus
/// protocol works with.
#[verifier::external_type_specification]
#[verifier::external_body]
pub struct ExValidatorCommittee(validator::Committee);

/// `validator::WeightedValidator`, a member of a `validator::Committee`,
/// which hands its members out as a list of these.
#[verifier::external_type_specification]
#[verifier::external_body]
pub struct ExCommitteeValidator(validator::WeightedValidator);

/// The weight of each member of the committee, by the canonical text of the
/// member's key.
pub uninterp spec fn attester_committee_weights(committee: attester::Committee) -> Map<
    Seq<char>,
    u64,
>;

/// The weight of each member of the committee, by the canonical text of the
/// member's key.
pub uninterp spec fn validator_committee_weights(committee: validator::Committee) -> Map<
    Seq<char>,
    u64,
>;

/// The canonical text of the attester public key that `text` encodes; `None`
/// where `text` encodes no such key. Two texts encode the same key exactly
/// where their canonical texts are equal.
pub uninterp spec fn attester_key_canonical(text: Seq<char>) -> Option<Seq<char>>;

/// The canonical text of the validator public key that `text` encodes; `None`
/// where `text` encodes no such key. Two texts encode the same key exactly
/// where their canonical texts are equal.
pub uninterp spec fn validator_key_canonical(text: Seq<char>) -> Option<Seq<char>>;

/// `TextFmt::decode` for `attester::PublicKey`, followed by `TextFmt::encode`:
/// the canonical text of the key that `text` encodes, `None` where the text
/// does not decode. The canonical text encodes the same key, and is its own
/// canonical text.
#[verifier::external_body]
fn decode_attester_key(text: &str) -> (canonical: Option<String>)
    ensures
        match canonical {
            Some(key) => attester_key_canonical(text@) == Some(key@) && attester_key_canonical(
                key@,
            ) == Some(key@),
            None => attester_key_canonical(text@) is None,
        },
{
    match Text::new(text).decode::<attester::PublicKey>() {
        Ok(key) => Some(key.encode()),
        Err(_) => None,
    }
}

/// `TextFmt::decode` for `validator::PublicKey`, followed by
/// `TextFmt::encode`: the canonical text of the key that `text` encodes,
/// `None` where the text does not decode. The canonical text encodes the same
/// key, and is its own canonical text.
#[verifier::external_body]
fn decode_validator_key(text: &str) -> (canonical: Option<String>)
    ensures
        match canonical {
            Some(key) => validator_key_canonical(text@) == Some(key@) && validator_key_canonical(
                key@,
            ) == Some(key@),
            None => validator_key_canonical(text@) is None,
        },
{
    match Text::new(text).decode::<validator::PublicKey>() {
        Ok(key) => Some(key.encode()),
        Err(_) => None,
    }
}

/// `attester::Committee::new` on members that are a committee, each given by
/// the canonical text of its key: the new committee holds these members with
/// their weights. It fails on a repeated key, a zero weight, a sum of weights
/// beyond `u64` and on no members, none of which `requires` lets in.
#[verifier::external_body]
fn attester_committee_new(members: &Vec<(String, u64)>) -> (committee: attester::Committee)
    requires
        forall|i: int|
            0 <= i < members@.len() ==> attester_key_canonical((#[trigger] members@[i]).0@)
                == Some(members@[i].0@),
        valid_committee(member_views(members@)),
    ensures
        attester_committee_weights(committee) == weights_by_key(member_views(members@)),
{
    let mut decoded = Vec::with_capacity(members.len());
    for (key, weight) in members {
        let key = Text::new(key).decode().unwrap();
        decoded.push(attester::WeightedAttester { key, weight: *weight });
    }
    attester::Committee::new(decoded).unwrap()
}

/// `validator::Committee::new` on members that are a committee, each given by
/// the canonical text of its key: the new committee holds these members with
/// their weights. It fails on a repeated key, a zero weight, a sum of weights
/// beyond `u64` and on no members, none of which `requires` lets in.
#[verifier::external_body]
fn validator_committee_new(members: &Vec<(String, u64)>) -> (committee: validator::Committee)
    requires
        forall|i: int|
            0 <= i < members@.len() ==> validator_key_canonical((#[trigger] members@[i]).0@)
                == Some(members@[i].0@),
        valid_committee(member_views(members@)),
    ensures
        validator_committee_weights(committee) == weights_by_key(member_views(members@)),
{
    let mut decoded = Vec::with_capacity(members.len());
    for (key, weight) in members {
        let key = Text::new(key).decode().unwrap();
        decoded.push(validator::WeightedValidator { key, weight: *weight });
    }
    validator::Committee::new(decoded).unwrap()
}

/// The role whose members a committee holds.
#[derive(Debug, Clone, Copy, PartialEq, Eq)]
pub enum CommitteeRole {
    Attester,
    Validator,
}

/// The canonical text of the public key of `role` that `text` encodes; `None`
/// where `text` encodes no such key.
pub open spec fn key_canonical(role: CommitteeRole, text: Seq<char>) -> Option<Seq<char>> {
    match role {
        CommitteeRole::Attester => attester_key_canonical(text),
        CommitteeRole::Validator => validator_key_canonical(text),
    }
}

/// A key, given as text, with a voting weight.
pub trait WeightedKey {
    /// The text of the key.
    spec fn key_view(&self) -> Seq<char>;

    /// The weight.
    spec fn weight_view(&self) -> u64;

    /// The text of the key.
    fn key_text(&self) -> (text: &str)
        ensures
            text@ == self.key_view(),
    ;

    /// The weight.
    fn voting_weight(&self) -> (weight: u64)
        ensures
            weight == self.weight_view(),
    ;
}

impl WeightedKey for WeightedAttesterKey {
    open spec fn key_view(&self) -> Seq<char> {
        self.key@
    }

    open spec fn weight_view(&self) -> u64 {
        self.weight
    }

    fn key_text(&self) -> (text: &str) {
        self.key.0.as_str()
    }

    fn voting_weight(&self) -> (weight: u64) {
        self.weight
    }
}

impl WeightedKey for WeightedValidatorKey {
    open spec fn key_view(&self) -> Seq<char> {
        self.key@
    }

    open spec fn weight_view(&self) -> u64 {
        self.weight
    }

    fn key_text(&self) -> (text: &str) {
        self.key.0.as_str()
    }

    fn voting_weight(&self) -> (weight: u64) {
        self.weight
    }
}

/// The key of the member decodes as a key of `role`.
pub open spec fn key_decodes<M: WeightedKey>(role: CommitteeRole, member: M) -> bool {
    key_canonical(role, member.key_view()) is Some
}

/// The key of every member decodes as a key of `role`.
pub open spec fn all_keys_decode<M: WeightedKey>(role: CommitteeRole, members: Seq<M>) -> bool {
    forall|i: int| 0 <= i < members.len() ==> key_decodes(role, #[trigger] members[i])
}

/// The member at `i` is the first whose key does not decode.
pub open spec fn first_undecodable_is_at<M: WeightedKey>(
    role: CommitteeRole,
    members: Seq<M>,
    i: int,
) -> bool {
    &&& 0 <= i < members.len()
    &&& !key_decodes(role, members[i])
    &&& forall|j: int| 0 <= j < i ==> key_decodes(role, #[trigger] members[j])
}

/// The members as the rules see them, where every key decodes.
pub open spec fn decoded_members<M: WeightedKey>(role: CommitteeRole, members: Seq<M>) -> Seq<
    Member,
> {
    Seq::new(
        members.len(),
        |i: int| (key_canonical(role, members[i].key_view()).unwrap(), members[i].weight_view()),
    )
}

/// The canonical text of the key of `role` that `text` encodes.
fn decode_key(role: CommitteeRole, text: &str) -> (canonical: Option<String>)
    ensures
        match canonical {
            Some(key) => key_canonical(role, text@) == Some(key@) && key_canonical(role, key@)
                == Some(key@),
            None => key_canonical(role, text@) is None,
        },
{
    match role {
        CommitteeRole::Attester => decode_attester_key(text),
        CommitteeRole::Validator => decode_validator_key(text),
    }
}

/// Decodes the key of each member as a key of `role`, in order, and gives
/// the members by the canonical texts of their keys; the first key that does
/// not decode is reported with its index.
fn decode_members<M: WeightedKey>(role: CommitteeRole, members: &[M]) -> (decoded: Result<
    Vec<(String, u64)>,
    CommitteeError,
>)
    ensures
        match decoded {
            Ok(decoded) => {
                &&& all_keys_decode(role, members@)
                &&& member_views(decoded@) == decoded_members(role, members@)
                &&& forall|i: int|
                    0 <= i < decoded@.len() ==> key_canonical(role, (#[trigger] decoded@[i]).0@)
                        == Some(decoded@[i].0@)
            },
            Err(CommitteeError::Decode { index }) => first_undecodable_is_at(
                role,
                members@,
                index as int,
            ),
            Err(CommitteeError::Construction(_)) => false,
        },
{
    let mut decoded: Vec<(String, u64)> = Vec::new();
    let mut i: usize = 0;
    while i < members.len()
        invariant
            i <= members@.len(),
            decoded@.len() == i,
            forall|j: int|
                0 <= j < i ==> {
                    &&& key_canonical(role, (#[trigger] members@[j]).key_view()) == Some(
                        decoded@[j].0@,
                    )
                    &&& decoded@[j].1 == members@[j].weight_view()
                },
            forall|j: int|
                0 <= j < i ==> key_canonical(role, (#[trigger] decoded@[j]).0@) == Some(
                    decoded@[j].0@,
                ),
        decreases members@.len() - i,
    {
        match decode_key(role, members[i].key_text()) {
            Some(key) => {
                decoded.push((key, members[i].voting_weight()));
            },
            None => {
                return Err(CommitteeError::Decode { index: i });
            },
        }
        i += 1;
    }
    assert(member_views(decoded@) =~= decoded_members(role, members@));
    Ok(decoded)
}

/// Decodes the key of each attester and builds the committee of them.
///
/// The keys are decoded in order, and the first that does not decode is
/// reported with its index. Only when all decode are the members checked, and
/// a fault is reported for the list as a whole. Two texts that encode the same
/// key are a repeated key.
pub fn parse_attester_committee(attesters: &[WeightedAttesterKey]) -> (parsed: Result<
    attester::Committee,
    CommitteeError,
>)
    ensures
        match parsed {
            Ok(committee) => {
                &&& all_keys_decode(CommitteeRole::Attester, attesters@)
                &&& valid_committee(decoded_members(CommitteeRole::Attester, attesters@))
                &&& attester_committee_weights(committee) == weights_by_key(
                    decoded_members(CommitteeRole::Attester, attesters@),
                )
            },
            Err(CommitteeError::Decode { index }) => first_undecodable_is_at(
                CommitteeRole::Attester,
                attesters@,
                index as int,
            ),
            Err(CommitteeError::Construction(fault)) => {
                &&& all_keys_decode(CommitteeRole::Attester, attesters@)
                &&& !valid_committee(decoded_members(CommitteeRole::Attester, attesters@))
                &&& committee_fault(decoded_members(CommitteeRole::Attester, attesters@)) == Some(
                    fault,
                )
            },
        },
{
    match decode_members(CommitteeRole::Attester, attesters) {
        Ok(members) => match validate_members(&members) {
            Ok(_) => Ok(attester_committee_new(&members)),
            Err(fault) => Err(CommitteeError::Construction(fault)),
        },
        Err(error) => Err(error),
    }
}

/// Decodes the key of each validator and builds the committee of them, by
/// the rules that hold for attesters.
pub fn parse_validator_committee(validators: &[WeightedValidatorKey]) -> (parsed: Result<
    validator::Committee,
    CommitteeError,
>)
    ensures
        match parsed {
            Ok(committee) => {
                &&& all_keys_decode(CommitteeRole::Validator, validators@)
                &&& valid_committee(decoded_members(CommitteeRole::Validator, validators@))
                &&& validator_committee_weights(committee) == weights_by_key(
                    decoded_members(CommitteeRole::Validator, validators@),
                )
            },
            Err(CommitteeError::Decode { index }) => first_undecodable_is_at(
                CommitteeRole::Validator,
                validators@,
                index as int,
            ),
            Err(CommitteeError::Construction(fault)) => {
                &&& all_keys_decode(CommitteeRole::Validator, validators@)
                &&& !valid_committee(decoded_members(CommitteeRole::Validator, validators@))
                &&& committee_fault(decoded_members(CommitteeRole::Validator, validators@)) == Some(
                    fault,
                )
            },
        },
{
    match decode_members(CommitteeRole::Validator, validators) {
        Ok(members) => match validate_members(&members) {
            Ok(_) => Ok(validator_committee_new(&members)),
            Err(fault) => Err(CommitteeError::Construction(fault)),
        },
        Err(error) => Err(error),
    }
}

} // verus!
