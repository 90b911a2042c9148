//! Key material of a node: one secret key for each of the three roles, and
//! the public keys that belong to them. Keys are held in their text encoding.

use crate::sensitive::SensitiveString;
use vstd::prelude::*;
use zksync_consensus_crypto::Text;
use zksync_consensus_crypto::TextFmt;
use zksync_consensus_roles::attester;
use zksync_consensus_roles::node;
use zksync_consensus_roles::validator;

verus! {

/// The text encoding of the public key that belongs to the validator secret
/// key encoded by `secret`; `None` where `secret` encodes no such key.
pub uninterp spec fn validator_public_text(secret: Seq<char>) -> Option<Seq<char>>;

/// The text encoding of the public key that belongs to the attester secret
/// key encoded by `secret`; `None` where `secret` encodes no such key.
pub uninterp spec fn attester_public_text(secret: Seq<char>) -> Option<Seq<char>>;

/// The text encoding of the public key that belongs to the node secret key
/// encoded by `secret`; `None` where `secret` encodes no such key.
pub uninterp spec fn node_public_text(secret: Seq<char>) -> Option<Seq<char>>;

/// `validator::SecretKey::generate`, encoded as text. The key is drawn from
/// the operating system's randomness; all that is claimed is that the text
/// decodes again, as `TextFmt` asks of every encoding.
#[verifier::external_body]
fn generate_validator_secret() -> (secret: String)
    ensures
        validator_public_text(secret@) is Some,
{
    validator::SecretKey::generate().encode()
}

/// `attester::SecretKey::generate`, encoded as text. The key is drawn from
/// the operating system's randomness; all that is claimed is that the text
/// decodes again, as `TextFmt` asks of every encoding.
#[verifier::external_body]
fn generate_attester_secret() -> (secret: String)
    ensures
        attester_public_text(secret@) is Some,
{
    attester::SecretKey::generate().encode()
}

/// `node::SecretKey::generate`, encoded as text. The key is drawn from the
/// operating system's randomness; all that is claimed is that the text
/// decodes again, as `TextFmt` asks of every encoding.
#[verifier::external_body]
fn generate_node_secret() -> (secret: String)
    ensures
        node_public_text(secret@) is Some,
{
    node::SecretKey::generate().encode()
}

/// `validator::SecretKey::public`, from the secret key's text to the public
/// key's text; `None` where the text does not decode.
#[verifier::external_body]
fn derive_validator_public(secret: &str) -> (public: Option<String>)
    ensures
        match public {
            Some(text) => validator_public_text(secret@) == Some(text@),
            None => validator_public_text(secret@) is None,
        },
{
    match Text::new(secret).decode::<validator::SecretKey>() {
        Ok(key) => Some(key.public().encode()),
        Err(_) => None,
    }
}

/// `attester::SecretKey::public`, from the secret key's text to the public
/// key's text; `None` where the text does not decode.
#[verifier::external_body]
fn derive_attester_public(secret: &str) -> (public: Option<String>)
    ensures
        match public {
            Some(text) => attester_public_text(secret@) == Some(text@),
            None => attester_public_text(secret@) is None,
        },
{
    match Text::new(secret).decode::<attester::SecretKey>() {
        Ok(key) => Some(key.public().encode()),
        Err(_) => None,
    }
}

/// `node::SecretKey::public`, from the secret key's text to the public key's
/// text; `None` where the text does not decode.
#[verifier::external_body]
fn derive_node_public(secret: &str) -> (public: Option<String>)
    ensures
        match public {
            Some(text) => node_public_text(secret@) == Some(text@),
            None => node_public_text(secret@) is None,
        },
{
    match Text::new(secret).decode::<node::SecretKey>() {
        Ok(key) => Some(key.public().encode()),
        Err(_) => None,
    }
}

/// The text encoding of a validator's public key.
#[derive(Debug, Clone, PartialEq, Eq, PartialOrd, Ord, Hash)]
pub struct ValidatorPublicKey(pub String);

/// The text encoding of an attester's public key.
#[derive(Debug, Clone, PartialEq, Eq, PartialOrd, Ord, Hash)]
pub struct AttesterPublicKey(pub String);

/// The text encoding of a node's public key.
#[derive(Debug, Clone, PartialEq, Eq, PartialOrd, Ord, Hash)]
pub struct NodePublicKey(pub String);

impl View for ValidatorPublicKey {
    type V = Seq<char>;

    open spec fn view(&self) -> Seq<char> {
        self.0@
    }
}

impl View for AttesterPublicKey {
    type V = Seq<char>;

    open spec fn view(&self) -> Seq<char> {
        self.0@
    }
}

impl View for NodePublicKey {
    type V = Seq<char>;

    open spec fn view(&self) -> Seq<char> {
        self.0@
    }
}

/// The three secret texts of a [`ConsensusSecretKeys`].
pub ghost struct SecretTexts {
    pub validator: Seq<char>,
    pub attester: Seq<char>,
    pub node: Seq<char>,
}

impl SecretTexts {
    /// Each text encodes a secret key of its role.
    pub open spec fn decodable(self) -> bool {
        &&& validator_public_text(self.validator) is Some
        &&& attester_public_text(self.attester) is Some
        &&& node_public_text(self.node) is Some
    }

    /// The public key texts of the validator and the attester key.
    pub open spec fn public(self) -> (Seq<char>, Seq<char>) {
        (
            validator_public_text(self.validator).unwrap(),
            attester_public_text(self.attester).unwrap(),
        )
    }
}

/// The secret keys of one node, one for each role. Each is the text of a key
/// of its role: no other value of this type can be made.
#[derive(Debug)]
pub struct ConsensusSecretKeys {
    validator_key: SensitiveString,
    attester_key: SensitiveString,
    node_key: SensitiveString,
}

impl View for ConsensusSecretKeys {
    type V = SecretTexts;

    closed spec fn view(&self) -> SecretTexts {
        SecretTexts {
            validator: self.validator_key@,
            attester: self.attester_key@,
            node: self.node_key@,
        }
    }
}

impl ConsensusSecretKeys {
    #[verifier::type_invariant]
    closed spec fn decodable(self) -> bool {
        self@.decodable()
    }

    /// The validator's secret key, as text.
    pub fn validator_key(&self) -> (key: &SensitiveString)
        ensures
            key@ == self@.validator,
            self@.decodable(),
    {
        proof {
            use_type_invariant(self);
        }
        &self.validator_key
    }

    /// The attester's secret key, as text.
    pub fn attester_key(&self) -> (key: &SensitiveString)
        ensures
            key@ == self@.attester,
            self@.decodable(),
    {
        proof {
            use_type_invariant(self);
        }
        &self.attester_key
    }

    /// The node's secret key, as text.
    pub fn node_key(&self) -> (key: &SensitiveString)
        ensures
            key@ == self@.node,
            self@.decodable(),
    {
        proof {
            use_type_invariant(self);
        }
        &self.node_key
    }
}

impl Clone for ConsensusSecretKeys {
    fn clone(&self) -> (copy: Self)
        ensures
            copy@ == self@,
    {
        proof {
            use_type_invariant(self);
        }
        ConsensusSecretKeys {
            validator_key: self.validator_key.clone(),
            attester_key: self.attester_key.clone(),
            node_key: self.node_key.clone(),
        }
    }
}

/// The public keys of the validator and the attester role.
#[derive(Debug, Clone, PartialEq, Eq)]
pub struct ConsensusPublicKeys {
    pub validator_key: ValidatorPublicKey,
    pub attester_key: AttesterPublicKey,
}

impl View for ConsensusPublicKeys {
    type V = (Seq<char>, Seq<char>);

    open spec fn view(&self) -> (Seq<char>, Seq<char>) {
        (self.validator_key@, self.attester_key@)
    }
}

/// Draws a fresh secret key for each role. Whatever is drawn, each key has a
/// public key.
pub fn generate_consensus_keys() -> (keys: ConsensusSecretKeys)
    ensures
        keys@.decodable(),
{
    ConsensusSecretKeys {
        validator_key: SensitiveString::new(generate_validator_secret()),
        attester_key: SensitiveString::new(generate_attester_secret()),
        node_key: SensitiveString::new(generate_node_secret()),
    }
}

/// The public keys that belong to the validator and the attester secret key.
/// They are a function of the secret keys alone.
pub fn get_consensus_public_keys(consensus_keys: &ConsensusSecretKeys) -> (public: ConsensusPublicKeys)
    ensures
        consensus_keys@.decodable(),
        public@ == consensus_keys@.public(),
{
    let validator = validator_public_key_of(consensus_keys.validator_key());
    let attester = attester_public_key_of(consensus_keys.attester_key());
    ConsensusPublicKeys { validator_key: validator.unwrap(), attester_key: attester.unwrap() }
}

/// The public key that belongs to the validator secret key encoded by
/// `secret`; `None` where `secret` encodes no such key.
pub fn validator_public_key_of(secret: &SensitiveString) -> (public: Option<ValidatorPublicKey>)
    ensures
        match public {
            Some(key) => validator_public_text(secret@) == Some(key@),
            None => validator_public_text(secret@) is None,
        },
{
    match derive_validator_public(secret.expose().as_str()) {
        Some(text) => Some(ValidatorPublicKey(text)),
        None => None,
    }
}

/// The public key that belongs to the attester secret key encoded by
/// `secret`; `None` where `secret` encodes no such key.
pub fn attester_public_key_of(secret: &SensitiveString) -> (public: Option<AttesterPublicKey>)
    ensures
        match public {
            Some(key) => attester_public_text(secret@) == Some(key@),
            None => attester_public_text(secret@) is None,
        },
{
    match derive_attester_public(secret.expose().as_str()) {
        Some(text) => Some(AttesterPublicKey(text)),
        None => None,
    }
}

/// The public key that belongs to the node secret key encoded by `secret`;
/// `None` where `secret` encodes no such key.
pub fn node_public_key_of(secret: &SensitiveString) -> (public: Option<NodePublicKey>)
    ensures
        match public {
            Some(key) => node_public_text(secret@) == Some(key@),
            None => node_public_text(secret@) is None,
        },
{
    match derive_node_public(secret.expose().as_str()) {
        Some(text) => Some(NodePublicKey(text)),
        None => None,
    }
}

/// Deriving public keys is deterministic: secret keys with the same texts
/// have the same public keys.
pub proof fn lemma_public_keys_deterministic(a: ConsensusSecretKeys, b: ConsensusSecretKeys)
    requires
        a@ == b@,
    ensures
        a@.public() == b@.public(),
{
}

} // verus!
