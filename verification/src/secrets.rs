//! The secrets that a node is configured with: database URLs, the L1
//! endpoint and the consensus keys. Each section is there or not; a setter
//! writes into a section that is there and never makes one.

use crate::keys::node_public_key_of;
use crate::keys::node_public_text;
use crate::keys::ConsensusSecretKeys;
use crate::keys::NodePublicKey;
use crate::sensitive::parse_url;
use crate::sensitive::parsed_url_text;
use crate::sensitive::url_text;
use crate::sensitive::SensitiveString;
use vstd::prelude::*;
use vstd::string::is_ascii;
use zksync_basic_types::url::SensitiveUrl;

verus! {

/// The text encoding of a validator's secret key.
#[derive(Debug, Clone, PartialEq)]
pub struct ValidatorSecretKey(pub SensitiveString);

/// The text encoding of an attester's secret key.
#[derive(Debug, Clone, PartialEq)]
pub struct AttesterSecretKey(pub SensitiveString);

/// The text encoding of a node's secret key.
#[derive(Debug, Clone, PartialEq)]
pub struct NodeSecretKey(pub SensitiveString);

/// The secret keys of the consensus roles, as far as the node has them.
#[derive(Debug, Clone, PartialEq)]
pub struct ConsensusSecrets {
    pub validator_key: Option<ValidatorSecretKey>,
    pub attester_key: Option<AttesterSecretKey>,
    pub node_key: Option<NodeSecretKey>,
}

/// The URLs of the node's databases, as far as they are set.
#[derive(Debug, Clone, PartialEq)]
pub struct DatabaseSecrets {
    pub server_url: Option<SensitiveUrl>,
    pub prover_url: Option<SensitiveUrl>,
}

/// The URL of the L1 node.
#[derive(Debug, Clone, PartialEq)]
pub struct L1Secrets {
    pub l1_rpc_url: SensitiveUrl,
}

/// All secrets of a node. A section that is `None` is not configured.
#[derive(Debug, Clone, PartialEq)]
pub struct SecretsConfig {
    pub consensus: Option<ConsensusSecrets>,
    pub database: Option<DatabaseSecrets>,
    pub l1: Option<L1Secrets>,
}

/// The text of a URL that may be there.
pub open spec fn url_view(url: Option<SensitiveUrl>) -> Option<Seq<char>> {
    match url {
        Some(url) => Some(url_text(url)),
        None => None,
    }
}

/// What a database section holds: the text of each URL.
pub ghost struct DatabaseView {
    pub server_url: Option<Seq<char>>,
    pub prover_url: Option<Seq<char>>,
}

/// What a consensus section holds: the text of each key.
pub ghost struct ConsensusView {
    pub validator_key: Option<Seq<char>>,
    pub attester_key: Option<Seq<char>>,
    pub node_key: Option<Seq<char>>,
}

/// What the secrets hold: for each section that is there, its texts.
pub ghost struct SecretsView {
    pub database: Option<DatabaseView>,
    pub l1: Option<Seq<char>>,
    pub consensus: Option<ConsensusView>,
}

impl View for DatabaseSecrets {
    type V = DatabaseView;

    open spec fn view(&self) -> DatabaseView {
        DatabaseView { server_url: url_view(self.server_url), prover_url: url_view(self.prover_url) }
    }
}

impl View for ConsensusSecrets {
    type V = ConsensusView;

    open spec fn view(&self) -> ConsensusView {
        ConsensusView {
            validator_key: match self.validator_key {
                Some(key) => Some(key.0@),
                None => None,
            },
            attester_key: match self.attester_key {
                Some(key) => Some(key.0@),
                None => None,
            },
            node_key: match self.node_key {
                Some(key) => Some(key.0@),
                None => None,
            },
        }
    }
}

impl View for SecretsConfig {
    type V = SecretsView;

    open spec fn view(&self) -> SecretsView {
        SecretsView {
            database: match self.database {
                Some(database) => Some(database@),
                None => None,
            },
            l1: match self.l1 {
                Some(l1) => Some(url_text(l1.l1_rpc_url)),
                None => None,
            },
            consensus: match self.consensus {
                Some(consensus) => Some(consensus@),
                None => None,
            },
        }
    }
}

/// Which of the two databases a URL is for.
#[derive(Debug, Clone, Copy, PartialEq, Eq)]
pub enum DatabaseRole {
    Server,
    Prover,
}

/// A section of the secrets.
#[derive(Debug, Clone, Copy, PartialEq, Eq)]
pub enum Section {
    Database,
    L1,
    Consensus,
}

/// A single value among the secrets.
#[derive(Debug, Clone, Copy, PartialEq, Eq)]
pub enum Field {
    ServerUrl,
    ProverUrl,
    L1RpcUrl,
    ValidatorKey,
    AttesterKey,
    NodeKey,
}

/// Why the secrets could not be written or read.
#[derive(Debug, Clone, Copy, PartialEq, Eq)]
pub enum SecretsError {
    /// The section that holds the value to be set is not there.
    MissingSubRecord(Field),
    /// The section is there, but the value asked for is not set.
    MissingField(Field),
    /// The text given or stored for the value does not parse.
    Decode(Field),
}

impl DatabaseRole {
    /// The value that holds the URL of this database.
    pub open spec fn spec_field(self) -> Field {
        match self {
            DatabaseRole::Server => Field::ServerUrl,
            DatabaseRole::Prover => Field::ProverUrl,
        }
    }

    /// The value that holds the URL of this database.
    #[verifier::when_used_as_spec(spec_field)]
    pub fn field(self) -> (field: Field)
        ensures
            field == self.spec_field(),
    {
        match self {
            DatabaseRole::Server => Field::ServerUrl,
            DatabaseRole::Prover => Field::ProverUrl,
        }
    }
}

impl Field {
    /// The section that holds this value.
    pub open spec fn spec_section(self) -> Section {
        match self {
            Field::ServerUrl | Field::ProverUrl => Section::Database,
            Field::L1RpcUrl => Section::L1,
            Field::ValidatorKey | Field::AttesterKey | Field::NodeKey => Section::Consensus,
        }
    }

    /// The section that holds this value.
    #[verifier::when_used_as_spec(spec_section)]
    pub fn section(self) -> (section: Section)
        ensures
            section == self.spec_section(),
    {
        match self {
            Field::ServerUrl | Field::ProverUrl => Section::Database,
            Field::L1RpcUrl => Section::L1,
            Field::ValidatorKey | Field::AttesterKey | Field::NodeKey => Section::Consensus,
        }
    }

    /// The name of the value in the secrets file.
    pub open spec fn spec_name(self) -> Seq<char> {
        match self {
            Field::ServerUrl => "server_url"@,
            Field::ProverUrl => "prover_url"@,
            Field::L1RpcUrl => "l1_rpc_url"@,
            Field::ValidatorKey => "validator_key"@,
            Field::AttesterKey => "attester_key"@,
            Field::NodeKey => "node_key"@,
        }
    }

    /// The name of the value in the secrets file.
    pub fn name(self) -> (name: &'static str)
        ensures
            name@ == self.spec_name(),
            is_ascii(name),
    {
        proof {
            reveal_strlit("server_url");
            reveal_strlit("prover_url");
            reveal_strlit("l1_rpc_url");
            reveal_strlit("validator_key");
            reveal_strlit("attester_key");
            reveal_strlit("node_key");
        }
        match self {
            Field::ServerUrl => "server_url",
            Field::ProverUrl => "prover_url",
            Field::L1RpcUrl => "l1_rpc_url",
            Field::ValidatorKey => "validator_key",
            Field::AttesterKey => "attester_key",
            Field::NodeKey => "node_key",
        }
    }
}

impl Section {
    /// The name of the section in the secrets file.
    pub open spec fn spec_name(self) -> Seq<char> {
        match self {
            Section::Database => "database"@,
            Section::L1 => "l1"@,
            Section::Consensus => "consensus"@,
        }
    }

    /// The name of the section in the secrets file.
    pub fn name(self) -> (name: &'static str)
        ensures
            name@ == self.spec_name(),
            is_ascii(name),
    {
        proof {
            reveal_strlit("database");
            reveal_strlit("l1");
            reveal_strlit("consensus");
        }
        match self {
            Section::Database => "database",
            Section::L1 => "l1",
            Section::Consensus => "consensus",
        }
    }
}

impl SecretsError {
    /// The value that the error is about.
    pub fn field(self) -> (field: Field)
        ensures
            field == match self {
                SecretsError::MissingSubRecord(field) => field,
                SecretsError::MissingField(field) => field,
                SecretsError::Decode(field) => field,
            },
    {
        match self {
            SecretsError::MissingSubRecord(field) => field,
            SecretsError::MissingField(field) => field,
            SecretsError::Decode(field) => field,
        }
    }

    /// What went wrong, in words.
    pub fn message(self) -> (text: &'static str)
        ensures
            text@ == match self {
                SecretsError::MissingSubRecord(Field::ServerUrl) =>
                    "Server database must be presented"@,
                SecretsError::MissingSubRecord(Field::ProverUrl) =>
                    "Prover database must be presented"@,
                SecretsError::MissingSubRecord(Field::L1RpcUrl) => "L1 Secrets must be presented"@,
                SecretsError::MissingSubRecord(_) => "Consensus secrets must be presented"@,
                SecretsError::MissingField(_) => "Master DB URL is absent"@,
                SecretsError::Decode(_) => "invalid format"@,
            },
    {
        match self {
            SecretsError::MissingSubRecord(Field::ServerUrl) => "Server database must be presented",
            SecretsError::MissingSubRecord(Field::ProverUrl) => "Prover database must be presented",
            SecretsError::MissingSubRecord(Field::L1RpcUrl) => "L1 Secrets must be presented",
            SecretsError::MissingSubRecord(_) => "Consensus secrets must be presented",
            SecretsError::MissingField(_) => "Master DB URL is absent",
            SecretsError::Decode(_) => "invalid format",
        }
    }
}

impl DatabaseSecrets {
    /// The section with the URL for `role` replaced by `url`.
    pub open spec fn with_url(self, role: DatabaseRole, url: SensitiveUrl) -> DatabaseSecrets {
        match role {
            DatabaseRole::Server => (DatabaseSecrets { server_url: Some(url), ..self }),
            DatabaseRole::Prover => (DatabaseSecrets { prover_url: Some(url), ..self }),
        }
    }

    /// The URL of the main database, which is the server's.
    pub fn master_url(&self) -> (url: Result<&SensitiveUrl, SecretsError>)
        ensures
            match self.server_url {
                Some(server_url) => url == Ok::<&SensitiveUrl, SecretsError>(&server_url),
                None => url == Err::<&SensitiveUrl, SecretsError>(
                    SecretsError::MissingField(Field::ServerUrl),
                ),
            },
    {
        match &self.server_url {
            Some(server_url) => Ok(server_url),
            None => Err(SecretsError::MissingField(Field::ServerUrl)),
        }
    }
}

/// The URL of the main database of the node: the database section must be
/// there, and the server's URL must be set in it.
pub fn master_database_url(secrets: &SecretsConfig) -> (url: Result<&SensitiveUrl, SecretsError>)
    ensures
        match secrets.database {
            None => url == Err::<&SensitiveUrl, SecretsError>(
                SecretsError::MissingSubRecord(Field::ServerUrl),
            ),
            Some(database) => match database.server_url {
                None => url == Err::<&SensitiveUrl, SecretsError>(
                    SecretsError::MissingField(Field::ServerUrl),
                ),
                Some(server_url) => url == Ok::<&SensitiveUrl, SecretsError>(&server_url),
            },
        },
{
    match &secrets.database {
        Some(database) => database.master_url(),
        None => Err(SecretsError::MissingSubRecord(Field::ServerUrl)),
    }
}

/// Sets the URL of the database for `role`. The database section must be
/// there already: where it is not, nothing is changed.
pub fn set_database_url(secrets: &mut SecretsConfig, role: DatabaseRole, url: SensitiveUrl) -> (done:
    Result<(), SecretsError>)
    ensures
        match old(secrets).database {
            Some(database) => {
                &&& done == Ok::<(), SecretsError>(())
                &&& *final(secrets) == (SecretsConfig {
                    database: Some(database.with_url(role, url)),
                    ..*old(secrets)
                })
            },
            None => {
                &&& done == Err::<(), SecretsError>(
                    SecretsError::MissingSubRecord(role.field()),
                )
                &&& *final(secrets) == *old(secrets)
            },
        },
{
    match &mut secrets.database {
        Some(database) => {
            match role {
                DatabaseRole::Server => {
                    database.server_url = Some(url);
                },
                DatabaseRole::Prover => {
                    database.prover_url = Some(url);
                },
            }
            Ok(())
        },
        None => Err(SecretsError::MissingSubRecord(role.field())),
    }
}

/// Sets the URL of the server's database.
pub fn set_server_database(secrets: &mut SecretsConfig, server_url: SensitiveUrl) -> (done: Result<
    (),
    SecretsError,
>)
    ensures
        match old(secrets).database {
            Some(database) => {
                &&& done == Ok::<(), SecretsError>(())
                &&& *final(secrets) == (SecretsConfig {
                    database: Some(DatabaseSecrets { server_url: Some(server_url), ..database }),
                    ..*old(secrets)
                })
            },
            None => {
                &&& done == Err::<(), SecretsError>(
                    SecretsError::MissingSubRecord(Field::ServerUrl),
                )
                &&& *final(secrets) == *old(secrets)
            },
        },
{
    set_database_url(secrets, DatabaseRole::Server, server_url)
}

/// Sets the URL of the prover's database.
pub fn set_prover_database(secrets: &mut SecretsConfig, prover_url: SensitiveUrl) -> (done: Result<
    (),
    SecretsError,
>)
    ensures
        match old(secrets).database {
            Some(database) => {
                &&& done == Ok::<(), SecretsError>(())
                &&& *final(secrets) == (SecretsConfig {
                    database: Some(DatabaseSecrets { prover_url: Some(prover_url), ..database }),
                    ..*old(secrets)
                })
            },
            None => {
                &&& done == Err::<(), SecretsError>(
                    SecretsError::MissingSubRecord(Field::ProverUrl),
                )
                &&& *final(secrets) == *old(secrets)
            },
        },
{
    set_database_url(secrets, DatabaseRole::Prover, prover_url)
}

/// Stores `url` as the URL of the L1 node. The L1 section must be there
/// already: where it is not, nothing is changed.
pub fn store_l1_rpc_url(secrets: &mut SecretsConfig, url: SensitiveUrl) -> (done: Result<
    (),
    SecretsError,
>)
    ensures
        match old(secrets).l1 {
            Some(_) => {
                &&& done == Ok::<(), SecretsError>(())
                &&& *final(secrets) == (SecretsConfig {
                    l1: Some(L1Secrets { l1_rpc_url: url }),
                    ..*old(secrets)
                })
            },
            None => {
                &&& done == Err::<(), SecretsError>(SecretsError::MissingSubRecord(Field::L1RpcUrl))
                &&& *final(secrets) == *old(secrets)
            },
        },
{
    match &mut secrets.l1 {
        Some(l1) => {
            l1.l1_rpc_url = url;
            Ok(())
        },
        None => Err(SecretsError::MissingSubRecord(Field::L1RpcUrl)),
    }
}

/// Parses `l1_rpc_url` and stores it as the URL of the L1 node. The text is
/// parsed first: a text that is no URL is reported whether or not the L1
/// section is there. Nothing is changed unless the URL is stored.
pub fn set_l1_rpc_url(secrets: &mut SecretsConfig, l1_rpc_url: String) -> (done: Result<
    (),
    SecretsError,
>)
    ensures
        match (parsed_url_text(l1_rpc_url@), old(secrets).l1) {
            (None, _) => {
                &&& done == Err::<(), SecretsError>(SecretsError::Decode(Field::L1RpcUrl))
                &&& *final(secrets) == *old(secrets)
            },
            (Some(_), None) => {
                &&& done == Err::<(), SecretsError>(SecretsError::MissingSubRecord(Field::L1RpcUrl))
                &&& *final(secrets) == *old(secrets)
            },
            (Some(text), Some(_)) => {
                &&& done == Ok::<(), SecretsError>(())
                &&& final(secrets).l1 is Some
                &&& url_text(final(secrets).l1.unwrap().l1_rpc_url) == text
                &&& final(secrets).database == old(secrets).database
                &&& final(secrets).consensus == old(secrets).consensus
            },
        },
{
    match parse_url(l1_rpc_url.as_str()) {
        Some(url) => store_l1_rpc_url(secrets, url),
        None => Err(SecretsError::Decode(Field::L1RpcUrl)),
    }
}

/// The secrets of the consensus roles for a node that owns `consensus_keys`:
/// all three keys are set, each to the text of the node's key.
pub fn get_consensus_secrets(consensus_keys: &ConsensusSecretKeys) -> (secrets: ConsensusSecrets)
    ensures
        secrets.validator_key is Some,
        secrets.attester_key is Some,
        secrets.node_key is Some,
        secrets.validator_key.unwrap().0@ == consensus_keys@.validator,
        secrets.attester_key.unwrap().0@ == consensus_keys@.attester,
        secrets.node_key.unwrap().0@ == consensus_keys@.node,
{
    ConsensusSecrets {
        validator_key: Some(ValidatorSecretKey(consensus_keys.validator_key().clone())),
        attester_key: Some(AttesterSecretKey(consensus_keys.attester_key().clone())),
        node_key: Some(NodeSecretKey(consensus_keys.node_key().clone())),
    }
}

/// What reading a secret text comes to, given what decoding it gave: a text
/// that is not set is no error, one that is set and does not decode is.
pub fn read_secret_text<T>(decoded: Option<Option<T>>, field: Field) -> (read: Result<
    Option<T>,
    SecretsError,
>)
    ensures
        read == match decoded {
            None => Ok::<Option<T>, SecretsError>(None),
            Some(None) => Err::<Option<T>, SecretsError>(SecretsError::Decode(field)),
            Some(Some(value)) => Ok::<Option<T>, SecretsError>(Some(value)),
        },
{
    match decoded {
        None => Ok(None),
        Some(None) => Err(SecretsError::Decode(field)),
        Some(Some(value)) => Ok(Some(value)),
    }
}

/// The public key of the node, derived from its secret key. A node key that
/// is not set gives `Ok(None)`; one that is set and does not decode is an
/// error.
pub fn node_public_key(secrets: &ConsensusSecrets) -> (public: Result<
    Option<NodePublicKey>,
    SecretsError,
>)
    ensures
        match secrets.node_key {
            None => public == Ok::<Option<NodePublicKey>, SecretsError>(None),
            Some(secret) => match node_public_text(secret.0@) {
                Some(text) => public is Ok && public.unwrap() is Some
                    && public.unwrap().unwrap()@ == text,
                None => public == Err::<Option<NodePublicKey>, SecretsError>(
                    SecretsError::Decode(Field::NodeKey),
                ),
            },
        },
{
    let decoded = match &secrets.node_key {
        Some(secret) => Some(node_public_key_of(&secret.0)),
        None => None,
    };
    read_secret_text(decoded, Field::NodeKey)
}

} // verus!
