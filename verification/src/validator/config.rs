//! Validator configuration: what a node's file and its peers or hosts decode to.

use crate::formatting::{from_hex, hex};
use crate::keys::{public_key_of, read_dealing_output, read_public_key, read_share};
use crate::order::bytes_eq;
use crate::rate::SamplingRate;
use crate::relayer::batches::contains_text;
use crate::text::{chars_of, find_first, find_last, push_decimal, slice_text, starts_with};
use vstd::prelude::*;

verus! {

/// The default number of verification threads.
pub fn default_rayon_threads() -> (threads: usize)
    ensures
        threads == 2,
{
    2
}

/// The default metrics port.
pub fn default_metrics_port() -> (port: u16)
    ensures
        port == 9090,
{
    9090
}

/// The default number of blocks buffered before upload.
pub fn default_upload_buffer() -> (blocks: usize)
    ensures
        blocks == 64,
{
    64
}

/// The default bound on proposed block bytes (8 MiB).
pub fn default_max_propose_bytes() -> (bytes: usize)
    ensures
        bytes == 8 * 1024 * 1024,
{
    8 * 1024 * 1024
}

/// The default bound on mempool bytes (64 MiB).
pub fn default_max_pool_bytes() -> (bytes: usize)
    ensures
        bytes == 64 * 1024 * 1024,
{
    64 * 1024 * 1024
}

/// The default bound on one network buffer: the default proposal bound.
pub fn default_network_buffer_pool_max_bytes() -> (bytes: usize)
    ensures
        bytes == 8 * 1024 * 1024,
{
    default_max_propose_bytes()
}

/// The default bound on a shard: the default proposal bound.
pub fn default_max_shard_bytes() -> (bytes: usize)
    ensures
        bytes == 8 * 1024 * 1024,
{
    default_max_propose_bytes()
}

/// The default number of views a relayed batch is retried for.
pub fn default_relayer_retry_views() -> (views: u64)
    ensures
        views == 8,
{
    8
}

/// Indexer wiring for a secondary validator.
#[derive(Debug, Clone)]
pub struct IndexerConfig {
    /// URL of the shared chain-indexer store.
    pub chain_indexer_url: String,
    /// Number of blocks buffered before upload.
    pub upload_buffer: usize,
}

/// How a node catches up when it starts.
#[derive(Debug, Clone, Copy, PartialEq, Eq, Structural)]
pub enum StartupModeConfig {
    MarshalSync,
    StateSync,
}

impl Default for StartupModeConfig {
    fn default() -> (mode: Self)
        ensures
            mode == StartupModeConfig::MarshalSync,
    {
        StartupModeConfig::MarshalSync
    }
}

/// A leader that the built-in relayer submits to.
#[derive(Debug, Clone)]
pub struct RelayerLeaderConfig {
    /// Hex-encoded ed25519 public key of the leader.
    pub public_key: String,
    /// URL of the leader.
    pub url: String,
}

/// Relayer wiring for a secondary validator.
#[derive(Debug, Clone)]
pub struct RelayerConfig {
    /// Views a batch is retried for.
    pub max_retry_views: u64,
    /// Per-leader endpoints.
    pub leaders: Vec<RelayerLeaderConfig>,
}

/// A peer used for initial discovery.
#[derive(Debug, Clone)]
pub struct NamedBootstrapperEntry {
    /// Hex-encoded ed25519 public key of the bootstrapper.
    pub public_key: String,
    /// Host name used to resolve the bootstrapper's address.
    pub name: String,
}

/// One node's configuration file.
#[derive(Debug, Clone)]
pub struct ValidatorConfig {
    /// Hex-encoded ed25519 private key.
    pub private_key: String,
    /// Hex-encoded dealing output.
    pub dkg_output: String,
    /// Hex-encoded share; empty for a secondary (non-voting) validator.
    pub dkg_share: String,
    /// Startup sync mode.
    pub startup: StartupModeConfig,
    /// p2p listen port.
    pub listen_port: u16,
    /// Hex-encoded ed25519 public key of the genesis leader.
    pub genesis_leader: String,
    /// Storage partition prefix.
    pub partition_prefix: String,
    /// Number of primary validators.
    pub num_validators: u32,
    /// Hex-encoded public keys of the primary (voting) validators, in dealing order.
    pub primary_validators: Vec<String>,
    /// Hex-encoded public keys of the secondary (non-voting) validators.
    pub secondary_validators: Vec<String>,
    /// Logging verbosity.
    pub log_level: String,
    /// Runtime worker threads.
    pub worker_threads: usize,
    /// Threads for parallel verification.
    pub rayon_threads: usize,
    /// HTTP service port.
    pub http_port: u16,
    /// Metrics port.
    pub metrics_port: u16,
    /// Maximum bytes proposed per block.
    pub max_propose_bytes: usize,
    /// Maximum mempool size in bytes.
    pub max_pool_bytes: usize,
    /// Maximum single network buffer allocation.
    pub network_buffer_pool_max_bytes: usize,
    /// Maximum accepted shard payload size.
    pub max_shard_bytes: usize,
    /// Finalized blocks before a proposed batch is reported as dropped.
    pub mempool_drop_grace_blocks: Option<u64>,
    /// Trace sampling rate.
    pub traces: SamplingRate,
    /// Traces endpoint.
    pub otel_endpoint: Option<String>,
    /// Peers used for initial discovery.
    pub bootstrappers: Vec<NamedBootstrapperEntry>,
    /// Indexer wiring.
    pub indexer: Option<IndexerConfig>,
    /// Relayer wiring.
    pub relayer: Option<RelayerConfig>,
}

/// A peer of a local deployment.
#[derive(Debug, Clone)]
pub struct PeerEntry {
    /// Host name (hex-encoded public key).
    pub name: String,
    /// p2p socket address.
    pub p2p: String,
    /// HTTP socket address.
    pub http: String,
}

/// The peers of a local deployment.
#[derive(Debug, Clone)]
pub struct PeersFile {
    /// Primary validator peers.
    pub validators: Vec<PeerEntry>,
    /// Secondary validator peers.
    pub secondaries: Vec<PeerEntry>,
}

/// A host of a remote deployment.
#[derive(Debug, Clone)]
pub struct HostEntry {
    /// Host name.
    pub name: String,
    /// Address of the host.
    pub ip: String,
}

/// Where a node is reached.
#[derive(Debug, Clone)]
pub enum NodeAddress {
    /// A socket address as written in the peers file.
    Socket(String),
    /// A host's address and a port.
    Host { ip: String, port: u16 },
}

/// What a [`NodeAddress`] says.
pub enum NodeAddressView {
    Socket(Seq<char>),
    Host { ip: Seq<char>, port: u16 },
}

impl View for NodeAddress {
    type V = NodeAddressView;

    open spec fn view(&self) -> NodeAddressView {
        match *self {
            NodeAddress::Socket(text) => NodeAddressView::Socket(text@),
            NodeAddress::Host { ip, port } => NodeAddressView::Host { ip: ip@, port },
        }
    }
}

/// A field of the configuration that holds hexadecimal text.
#[derive(Debug, Clone, Copy, PartialEq, Eq, Structural)]
pub enum HexField {
    PrivateKey,
    DkgOutput,
    DkgShare,
    GenesisLeader,
    PrimaryValidators,
    SecondaryValidators,
    BootstrapperPublicKey,
}

impl HexField {
    /// The name of the field in messages.
    pub open spec fn name(self) -> Seq<char> {
        match self {
            HexField::PrivateKey => "private_key"@,
            HexField::DkgOutput => "dkg_output"@,
            HexField::DkgShare => "dkg_share"@,
            HexField::GenesisLeader => "genesis_leader"@,
            HexField::PrimaryValidators => "primary_validators"@,
            HexField::SecondaryValidators => "secondary_validators"@,
            HexField::BootstrapperPublicKey => "bootstrapper public_key"@,
        }
    }

    /// Returns the name of the field in messages.
    pub fn as_str(self) -> (name: &'static str)
        ensures
            name@ == self.name(),
    {
        match self {
            HexField::PrivateKey => "private_key",
            HexField::DkgOutput => "dkg_output",
            HexField::DkgShare => "dkg_share",
            HexField::GenesisLeader => "genesis_leader",
            HexField::PrimaryValidators => "primary_validators",
            HexField::SecondaryValidators => "secondary_validators",
            HexField::BootstrapperPublicKey => "bootstrapper public_key",
        }
    }
}

/// An address of the peers file that a node reads.
#[derive(Debug, Clone, Copy, PartialEq, Eq, Structural)]
pub enum SocketField {
    SelfP2p,
    SelfHttp,
    BootstrapperP2p,
}

impl SocketField {
    /// The name of the address in messages.
    pub open spec fn name(self) -> Seq<char> {
        match self {
            SocketField::SelfP2p => "self p2p"@,
            SocketField::SelfHttp => "self http"@,
            SocketField::BootstrapperP2p => "bootstrapper p2p"@,
        }
    }

    /// Returns the name of the address in messages.
    pub fn as_str(self) -> (name: &'static str)
        ensures
            name@ == self.name(),
    {
        match self {
            SocketField::SelfP2p => "self p2p",
            SocketField::SelfHttp => "self http",
            SocketField::BootstrapperP2p => "bootstrapper p2p",
        }
    }
}

/// Why a configuration is rejected.
#[derive(Debug, Clone)]
pub enum ConfigError {
    /// The shard limit is below the proposal limit.
    ShardBelowPropose { max_shard_bytes: usize, max_propose_bytes: usize },
    /// The network buffer limit is below the shard limit.
    BufferBelowShard { network_buffer_pool_max_bytes: usize, max_shard_bytes: usize },
    /// A field is not hexadecimal text.
    BadHex(HexField),
    /// The private key does not decode.
    BadPrivateKey,
    /// The configuration names no primary validators.
    NoValidators,
    /// The dealing output does not decode.
    BadDkgOutput,
    /// The share does not decode.
    BadShare,
    /// A public key does not decode.
    BadPublicKey(HexField),
    /// A primary validator has a relayer section.
    RelayerOnPrimary,
    /// A secondary has both a relayer and an indexer section.
    RelayerWithIndexer,
    /// The node is in neither list of validators.
    SelfNotListed { self_hex: String },
    /// The node has no address.
    MissingSelf { name: String },
    /// A bootstrapper has no address.
    MissingBootstrapper { name: String },
    /// An address is not a socket address.
    BadSocket(SocketField),
}

/// What a [`ConfigError`] says.
pub enum ConfigProblem {
    ShardBelowPropose { max_shard_bytes: usize, max_propose_bytes: usize },
    BufferBelowShard { network_buffer_pool_max_bytes: usize, max_shard_bytes: usize },
    BadHex(HexField),
    BadPrivateKey,
    NoValidators,
    BadDkgOutput,
    BadShare,
    BadPublicKey(HexField),
    RelayerOnPrimary,
    RelayerWithIndexer,
    SelfNotListed { self_hex: Seq<char> },
    MissingSelf { name: Seq<char> },
    MissingBootstrapper { name: Seq<char> },
    BadSocket(SocketField),
}

impl View for ConfigError {
    type V = ConfigProblem;

    open spec fn view(&self) -> ConfigProblem {
        match *self {
            ConfigError::ShardBelowPropose { max_shard_bytes, max_propose_bytes } =>
                ConfigProblem::ShardBelowPropose { max_shard_bytes, max_propose_bytes },
            ConfigError::BufferBelowShard { network_buffer_pool_max_bytes, max_shard_bytes } =>
                ConfigProblem::BufferBelowShard { network_buffer_pool_max_bytes, max_shard_bytes },
            ConfigError::BadHex(field) => ConfigProblem::BadHex(field),
            ConfigError::BadPrivateKey => ConfigProblem::BadPrivateKey,
            ConfigError::NoValidators => ConfigProblem::NoValidators,
            ConfigError::BadDkgOutput => ConfigProblem::BadDkgOutput,
            ConfigError::BadShare => ConfigProblem::BadShare,
            ConfigError::BadPublicKey(field) => ConfigProblem::BadPublicKey(field),
            ConfigError::RelayerOnPrimary => ConfigProblem::RelayerOnPrimary,
            ConfigError::RelayerWithIndexer => ConfigProblem::RelayerWithIndexer,
            ConfigError::SelfNotListed { self_hex } => ConfigProblem::SelfNotListed {
                self_hex: self_hex@,
            },
            ConfigError::MissingSelf { name } => ConfigProblem::MissingSelf { name: name@ },
            ConfigError::MissingBootstrapper { name } => ConfigProblem::MissingBootstrapper {
                name: name@,
            },
            ConfigError::BadSocket(field) => ConfigProblem::BadSocket(field),
        }
    }
}

impl ConfigProblem {
    /// The explanation printed for the rejection; `source` is what addresses come from.
    pub open spec fn text(self, source: Seq<char>) -> Seq<char> {
        match self {
            ConfigProblem::ShardBelowPropose { max_shard_bytes, max_propose_bytes } =>
                "max_shard_bytes ("@ + crate::text::decimal(max_shard_bytes as nat)
                    + ") must be at least max_propose_bytes ("@
                    + crate::text::decimal(max_propose_bytes as nat) + ")"@,
            ConfigProblem::BufferBelowShard { network_buffer_pool_max_bytes, max_shard_bytes } =>
                "network_buffer_pool_max_bytes ("@
                    + crate::text::decimal(network_buffer_pool_max_bytes as nat)
                    + ") must be at least max_shard_bytes ("@
                    + crate::text::decimal(max_shard_bytes as nat) + ")"@,
            ConfigProblem::BadHex(field) => "bad "@ + field.name() + " hex"@,
            ConfigProblem::BadPrivateKey => "failed to decode private key"@,
            ConfigProblem::NoValidators => "num_validators must be > 0"@,
            ConfigProblem::BadDkgOutput => "failed to decode DKG output"@,
            ConfigProblem::BadShare => "failed to decode DKG share"@,
            ConfigProblem::BadPublicKey(_) => "failed to decode public key"@,
            ConfigProblem::RelayerOnPrimary =>
                "relayer config is only valid on secondary validators"@,
            ConfigProblem::RelayerWithIndexer =>
                "relayer and indexer configs cannot be enabled on the same secondary"@,
            ConfigProblem::SelfNotListed { self_hex } => "self public key '"@ + self_hex
                + "' not listed in primary_validators or secondary_validators"@,
            ConfigProblem::MissingSelf { name } => "missing self "@ + source + " '"@ + name + "'"@,
            ConfigProblem::MissingBootstrapper { name } => "missing bootstrapper "@ + source
                + " '"@ + name + "'"@,
            ConfigProblem::BadSocket(field) => "failed to parse "@ + field.name() + " socket"@,
        }
    }
}

impl ConfigError {
    /// Returns the explanation printed for the rejection; `source` is what addresses come from
    /// (`peer` or `host`).
    pub fn message(&self, source: &str) -> (text: String)
        ensures
            text@ == self@.text(source@),
    {
        match self {
            ConfigError::ShardBelowPropose { max_shard_bytes, max_propose_bytes } => {
                let mut text = "max_shard_bytes (".to_string();
                push_decimal(&mut text, *max_shard_bytes as u64);
                text.append(") must be at least max_propose_bytes (");
                push_decimal(&mut text, *max_propose_bytes as u64);
                text.append(")");
                text
            },
            ConfigError::BufferBelowShard { network_buffer_pool_max_bytes, max_shard_bytes } => {
                let mut text = "network_buffer_pool_max_bytes (".to_string();
                push_decimal(&mut text, *network_buffer_pool_max_bytes as u64);
                text.append(") must be at least max_shard_bytes (");
                push_decimal(&mut text, *max_shard_bytes as u64);
                text.append(")");
                text
            },
            ConfigError::BadHex(field) => {
                let mut text = "bad ".to_string();
                text.append(field.as_str());
                text.append(" hex");
                text
            },
            ConfigError::BadPrivateKey => "failed to decode private key".to_string(),
            ConfigError::NoValidators => "num_validators must be > 0".to_string(),
            ConfigError::BadDkgOutput => "failed to decode DKG output".to_string(),
            ConfigError::BadShare => "failed to decode DKG share".to_string(),
            ConfigError::BadPublicKey(_) => "failed to decode public key".to_string(),
            ConfigError::RelayerOnPrimary =>
                "relayer config is only valid on secondary validators".to_string(),
            ConfigError::RelayerWithIndexer =>
                "relayer and indexer configs cannot be enabled on the same secondary".to_string(),
            ConfigError::SelfNotListed { self_hex } => {
                let mut text = "self public key '".to_string();
                text.append(self_hex.as_str());
                text.append("' not listed in primary_validators or secondary_validators");
                text
            },
            ConfigError::MissingSelf { name } => {
                let mut text = "missing self ".to_string();
                text.append(source);
                text.append(" '");
                text.append(name.as_str());
                text.append("'");
                text
            },
            ConfigError::MissingBootstrapper { name } => {
                let mut text = "missing bootstrapper ".to_string();
                text.append(source);
                text.append(" '");
                text.append(name.as_str());
                text.append("'");
                text
            },
            ConfigError::BadSocket(field) => {
                let mut text = "failed to parse ".to_string();
                text.append(field.as_str());
                text.append(" socket");
                text
            },
        }
    }
}

/// Decoded key material and network info.
pub struct DecodedConfig {
    /// Encoded private key.
    pub signer: Vec<u8>,
    /// Encoded public key.
    pub public_key: Vec<u8>,
    /// Encoded dealing output.
    pub dkg_output: Vec<u8>,
    /// Encoded share; `None` for a secondary (non-voting) validator.
    pub share: Option<Vec<u8>>,
    /// Encoded public key of the genesis leader.
    pub genesis_leader: Vec<u8>,
    /// Socket address that the p2p service binds.
    pub listen_bind: String,
    /// Address that peers reach the node at.
    pub listen_advertise: NodeAddress,
    /// Primary (voting) validators in dealing order.
    pub primary_participants: Vec<Vec<u8>>,
    /// Secondary (non-voting) validators.
    pub secondary_participants: Vec<Vec<u8>>,
    /// Peers used for initial discovery.
    pub bootstrappers: Vec<(Vec<u8>, NodeAddress)>,
    /// Storage partition prefix.
    pub partition_prefix: String,
}

/// Everything a node needs to start.
pub struct LoadedConfig {
    pub decoded: DecodedConfig,
    pub startup: StartupModeConfig,
    pub log_level: String,
    pub worker_threads: usize,
    pub rayon_threads: usize,
    pub http_listen: String,
    pub metrics_listen: String,
    pub max_propose_bytes: usize,
    pub max_pool_bytes: usize,
    pub network_buffer_pool_max_bytes: usize,
    pub max_shard_bytes: usize,
    pub mempool_drop_grace_blocks: Option<u64>,
    pub otel: Option<(String, SamplingRate)>,
    pub json_logs: bool,
    pub deployer_managed: bool,
    pub indexer: Option<IndexerConfig>,
    pub relayer: Option<RelayerConfig>,
}

/// The private key that a text stands for.
pub open spec fn private_key_in(text: Seq<char>) -> Result<Seq<u8>, ConfigProblem> {
    match crate::formatting::hex_bytes(text) {
        None => Err(ConfigProblem::BadHex(HexField::PrivateKey)),
        Some(bytes) => if bytes.len() < crate::keys::PRIVATE_KEY_BYTES {
            Err(ConfigProblem::BadPrivateKey)
        } else {
            Ok(bytes.take(crate::keys::PRIVATE_KEY_BYTES as int))
        },
    }
}

/// The public key that a text stands for.
pub open spec fn public_key_in(text: Seq<char>, field: HexField) -> Result<
    Seq<u8>,
    ConfigProblem,
> {
    match crate::formatting::hex_bytes(text) {
        None => Err(ConfigProblem::BadHex(field)),
        Some(bytes) => if crate::keys::encodes_public_key(bytes) {
            Ok(bytes.take(crate::keys::PUBLIC_KEY_BYTES as int))
        } else {
            Err(ConfigProblem::BadPublicKey(field))
        },
    }
}

/// The dealing output that a text stands for.
pub open spec fn dkg_output_in(text: Seq<char>, num_validators: u32) -> Result<
    Seq<u8>,
    ConfigProblem,
> {
    match crate::formatting::hex_bytes(text) {
        None => Err(ConfigProblem::BadHex(HexField::DkgOutput)),
        Some(bytes) => if num_validators == 0 {
            Err(ConfigProblem::NoValidators)
        } else {
            match crate::keys::dealing_output_in(bytes, num_validators) {
                Some((output, _)) => Ok(output),
                None => Err(ConfigProblem::BadDkgOutput),
            }
        },
    }
}

/// The share that a text stands for; the empty text marks a node without one.
pub open spec fn share_opt_in(text: Seq<char>) -> Result<Option<Seq<u8>>, ConfigProblem> {
    if text.len() == 0 {
        Ok(None)
    } else {
        match crate::formatting::hex_bytes(text) {
            None => Err(ConfigProblem::BadHex(HexField::DkgShare)),
            Some(bytes) => match crate::keys::share_in(bytes) {
                Some(share) => Ok(Some(share)),
                None => Err(ConfigProblem::BadShare),
            },
        }
    }
}

/// The public keys that a list of texts stands for; the first bad one rejects the list.
pub open spec fn public_keys_in(items: Seq<Seq<char>>, field: HexField) -> Result<
    Seq<Seq<u8>>,
    ConfigProblem,
>
    decreases items.len(),
{
    if items.len() == 0 {
        Ok(Seq::empty())
    } else {
        match public_keys_in(items.drop_last(), field) {
            Err(problem) => Err(problem),
            Ok(keys) => match public_key_in(items.last(), field) {
                Err(problem) => Err(problem),
                Ok(key) => Ok(keys.push(key)),
            },
        }
    }
}

/// Decodes a field of hexadecimal text.
pub fn decode_hex(field: HexField, text: &str) -> (bytes: Result<Vec<u8>, ConfigError>)
    ensures
        match bytes {
            Ok(bytes) => crate::formatting::hex_bytes(text@) == Some(bytes@),
            Err(error) => crate::formatting::hex_bytes(text@) is None && error
                == ConfigError::BadHex(field),
        },
{
    match from_hex(text) {
        Some(bytes) => Ok(bytes),
        None => Err(ConfigError::BadHex(field)),
    }
}

/// Decodes a private key: the first 32 bytes of the text.
pub fn decode_private_key(text: &str) -> (key: Result<Vec<u8>, ConfigError>)
    ensures
        match key {
            Ok(key) => private_key_in(text@) == Ok::<Seq<u8>, ConfigProblem>(key@) && key@.len()
                == crate::keys::PRIVATE_KEY_BYTES,
            Err(error) => private_key_in(text@) == Err::<Seq<u8>, ConfigProblem>(error@),
        },
{
    let bytes = match decode_hex(HexField::PrivateKey, text) {
        Ok(bytes) => bytes,
        Err(error) => return Err(error),
    };
    if bytes.len() < crate::keys::PRIVATE_KEY_BYTES {
        return Err(ConfigError::BadPrivateKey);
    }
    let mut key = bytes;
    key.truncate(crate::keys::PRIVATE_KEY_BYTES);
    Ok(key)
}

/// Decodes a dealing output among `num_validators` participants.
pub fn decode_dkg_output(text: &str, num_validators: u32) -> (output: Result<Vec<u8>, ConfigError>)
    ensures
        match output {
            Ok(output) => dkg_output_in(text@, num_validators) == Ok::<Seq<u8>, ConfigProblem>(
                output@,
            ),
            Err(error) => dkg_output_in(text@, num_validators) == Err::<Seq<u8>, ConfigProblem>(
                error@,
            ),
        },
{
    let bytes = match decode_hex(HexField::DkgOutput, text) {
        Ok(bytes) => bytes,
        Err(error) => return Err(error),
    };
    if num_validators == 0 {
        return Err(ConfigError::NoValidators);
    }
    match read_dealing_output(&bytes, num_validators) {
        Some((output, _)) => Ok(output),
        None => Err(ConfigError::BadDkgOutput),
    }
}

/// Decodes an optional share; the empty text is how secondary validators are marked.
pub fn decode_share_opt(text: &str) -> (share: Result<Option<Vec<u8>>, ConfigError>)
    ensures
        match share {
            Ok(Some(share)) => share_opt_in(text@) == Ok::<Option<Seq<u8>>, ConfigProblem>(
                Some(share@),
            ),
            Ok(None) => share_opt_in(text@) == Ok::<Option<Seq<u8>>, ConfigProblem>(None),
            Err(error) => share_opt_in(text@) == Err::<Option<Seq<u8>>, ConfigProblem>(error@),
        },
{
    if text.unicode_len() == 0 {
        return Ok(None);
    }
    let bytes = match decode_hex(HexField::DkgShare, text) {
        Ok(bytes) => bytes,
        Err(error) => return Err(error),
    };
    match read_share(&bytes) {
        Some(share) => Ok(Some(share)),
        None => Err(ConfigError::BadShare),
    }
}

/// Decodes a public key: the first 32 bytes of the text.
pub fn decode_public_key(field: HexField, text: &str) -> (key: Result<Vec<u8>, ConfigError>)
    ensures
        match key {
            Ok(key) => public_key_in(text@, field) == Ok::<Seq<u8>, ConfigProblem>(key@),
            Err(error) => public_key_in(text@, field) == Err::<Seq<u8>, ConfigProblem>(error@),
        },
{
    let bytes = match decode_hex(field, text) {
        Ok(bytes) => bytes,
        Err(error) => return Err(error),
    };
    match read_public_key(&bytes) {
        Some(key) => Ok(key),
        None => Err(ConfigError::BadPublicKey(field)),
    }
}

/// Decodes a list of public keys.
fn decode_public_keys(field: HexField, items: &Vec<String>) -> (keys: Result<
    Vec<Vec<u8>>,
    ConfigError,
>)
    ensures
        match keys {
            Ok(keys) => public_keys_in(crate::text::texts(items@), field) == Ok::<
                Seq<Seq<u8>>,
                ConfigProblem,
            >(crate::keys::blobs(keys@)),
            Err(error) => public_keys_in(crate::text::texts(items@), field) == Err::<
                Seq<Seq<u8>>,
                ConfigProblem,
            >(error@),
        },
{
    let mut keys: Vec<Vec<u8>> = Vec::new();
    let ghost all = crate::text::texts(items@);
    let mut i: usize = 0;
    proof {
        assert(crate::keys::blobs(keys@) =~= Seq::<Seq<u8>>::empty());
    }
    while i < items.len()
        invariant
            i <= items.len(),
            all == crate::text::texts(items@),
            public_keys_in(all.take(i as int), field) == Ok::<Seq<Seq<u8>>, ConfigProblem>(
                crate::keys::blobs(keys@),
            ),
        decreases items.len() - i,
    {
        let ghost before = crate::keys::blobs(keys@);
        proof {
            assert(all.take(i + 1).drop_last() =~= all.take(i as int));
            assert(all.take(i + 1).last() == items@[i as int]@);
        }
        match decode_public_key(field, items[i].as_str()) {
            Ok(key) => {
                keys.push(key);
                proof {
                    assert(crate::keys::blobs(keys@) =~= before.push(key@));
                }
            },
            Err(error) => {
                proof {
                    public_keys_stay_bad(all, field, i + 1);
                }
                return Err(error);
            },
        }
        i += 1;
    }
    proof {
        assert(all.take(i as int) =~= all);
    }
    Ok(keys)
}

/// A list whose front is rejected is rejected for the same reason.
proof fn public_keys_stay_bad(items: Seq<Seq<char>>, field: HexField, count: int)
    requires
        0 <= count <= items.len(),
        public_keys_in(items.take(count), field) is Err,
    ensures
        public_keys_in(items, field) == public_keys_in(items.take(count), field),
    decreases items.len() - count,
{
    if count == items.len() {
        assert(items.take(count) =~= items);
    } else {
        assert(items.take(count + 1).drop_last() =~= items.take(count));
        public_keys_stay_bad(items, field, count + 1);
    }
}

/// Returns whether a key is in a list.
fn contains_key(keys: &Vec<Vec<u8>>, key: &Vec<u8>) -> (found: bool)
    ensures
        found == crate::keys::blobs(keys@).contains(key@),
{
    let mut i: usize = 0;
    while i < keys.len()
        invariant
            i <= keys.len(),
            forall|j: int| 0 <= j < i ==> #[trigger] crate::keys::blobs(keys@)[j] != key@,
        decreases keys.len() - i,
    {
        if bytes_eq(&keys[i], key) {
            proof {
                assert(crate::keys::blobs(keys@)[i as int] == key@);
            }
            return true;
        }
        i += 1;
    }
    false
}

/// The participants that the two lists declare, if the node itself is among them.
pub open spec fn participants_in(
    primary: Seq<Seq<char>>,
    secondary: Seq<Seq<char>>,
    self_key: Seq<u8>,
) -> Result<(Seq<Seq<u8>>, Seq<Seq<u8>>), ConfigProblem> {
    match public_keys_in(primary, HexField::PrimaryValidators) {
        Err(problem) => Err(problem),
        Ok(primary) => match public_keys_in(secondary, HexField::SecondaryValidators) {
            Err(problem) => Err(problem),
            Ok(secondary) => if primary.contains(self_key) || secondary.contains(self_key) {
                Ok((primary, secondary))
            } else {
                Err(
                    ConfigProblem::SelfNotListed {
                        self_hex: crate::formatting::hex_text(self_key),
                    },
                )
            },
        },
    }
}

/// Decodes the primary and secondary lists; every node must be explicitly declared in one of them.
pub fn decode_participants(
    primary_hex: &Vec<String>,
    secondary_hex: &Vec<String>,
    self_key: &Vec<u8>,
) -> (participants: Result<(Vec<Vec<u8>>, Vec<Vec<u8>>), ConfigError>)
    ensures
        ({
            let expected = participants_in(
                crate::text::texts(primary_hex@),
                crate::text::texts(secondary_hex@),
                self_key@,
            );
            match participants {
                Ok((primary, secondary)) => expected == Ok::<
                    (Seq<Seq<u8>>, Seq<Seq<u8>>),
                    ConfigProblem,
                >((crate::keys::blobs(primary@), crate::keys::blobs(secondary@))),
                Err(error) => expected == Err::<(Seq<Seq<u8>>, Seq<Seq<u8>>), ConfigProblem>(
                    error@,
                ),
            }
        }),
{
    let primary = match decode_public_keys(HexField::PrimaryValidators, primary_hex) {
        Ok(keys) => keys,
        Err(error) => return Err(error),
    };
    let secondary = match decode_public_keys(HexField::SecondaryValidators, secondary_hex) {
        Ok(keys) => keys,
        Err(error) => return Err(error),
    };
    if !contains_key(&primary, self_key) && !contains_key(&secondary, self_key) {
        return Err(ConfigError::SelfNotListed { self_hex: hex(self_key.as_slice()) });
    }
    Ok((primary, secondary))
}

/// Why a configuration cannot run on any network, if it cannot.
pub open spec fn network_rejection(config: ValidatorConfig) -> Option<ConfigProblem> {
    if config.max_shard_bytes < config.max_propose_bytes {
        Some(
            ConfigProblem::ShardBelowPropose {
                max_shard_bytes: config.max_shard_bytes,
                max_propose_bytes: config.max_propose_bytes,
            },
        )
    } else if config.network_buffer_pool_max_bytes < config.max_shard_bytes {
        Some(
            ConfigProblem::BufferBelowShard {
                network_buffer_pool_max_bytes: config.network_buffer_pool_max_bytes,
                max_shard_bytes: config.max_shard_bytes,
            },
        )
    } else if private_key_in(config.private_key@) is Err {
        Some(private_key_in(config.private_key@)->Err_0)
    } else if dkg_output_in(config.dkg_output@, config.num_validators) is Err {
        Some(dkg_output_in(config.dkg_output@, config.num_validators)->Err_0)
    } else if share_opt_in(config.dkg_share@) is Err {
        Some(share_opt_in(config.dkg_share@)->Err_0)
    } else if share_opt_in(config.dkg_share@)->Ok_0 is Some && config.relayer is Some {
        Some(ConfigProblem::RelayerOnPrimary)
    } else if config.indexer is Some && config.relayer is Some {
        Some(ConfigProblem::RelayerWithIndexer)
    } else if public_key_in(config.genesis_leader@, HexField::GenesisLeader) is Err {
        Some(public_key_in(config.genesis_leader@, HexField::GenesisLeader)->Err_0)
    } else {
        None
    }
}

/// The socket address that a service binds on every interface.
pub open spec fn bind_address(port: u16) -> Seq<char> {
    "0.0.0.0:"@ + crate::text::decimal(port as nat)
}

/// Returns the socket address that a service binds on every interface.
pub fn bind_all(port: u16) -> (address: String)
    ensures
        address@ == bind_address(port),
{
    let mut address = "0.0.0.0:".to_string();
    push_decimal(&mut address, port as u64);
    address
}

/// Whether `decoded` is the key material of `config`.
pub open spec fn decodes_material(decoded: DecodedConfig, config: ValidatorConfig) -> bool {
    &&& private_key_in(config.private_key@) == Ok::<Seq<u8>, ConfigProblem>(decoded.signer@)
    &&& decoded.public_key@ == crate::keys::derived_public_key(decoded.signer@)
    &&& dkg_output_in(config.dkg_output@, config.num_validators) == Ok::<Seq<u8>, ConfigProblem>(
        decoded.dkg_output@,
    )
    &&& share_opt_in(config.dkg_share@) == Ok::<Option<Seq<u8>>, ConfigProblem>(
        match decoded.share {
            Some(share) => Some(share@),
            None => None,
        },
    )
    &&& public_key_in(config.genesis_leader@, HexField::GenesisLeader) == Ok::<
        Seq<u8>,
        ConfigProblem,
    >(decoded.genesis_leader@)
    &&& decoded.listen_bind@ == bind_address(config.listen_port)
    &&& decoded.partition_prefix == config.partition_prefix
}

/// Whether `loaded` carries the settings of `config` over.
pub open spec fn carries_settings(loaded: LoadedConfig, config: ValidatorConfig) -> bool {
    &&& loaded.startup == config.startup
    &&& loaded.log_level == config.log_level
    &&& loaded.worker_threads == config.worker_threads
    &&& loaded.rayon_threads == config.rayon_threads
    &&& loaded.http_listen@ == bind_address(config.http_port)
    &&& loaded.metrics_listen@ == bind_address(config.metrics_port)
    &&& loaded.max_propose_bytes == config.max_propose_bytes
    &&& loaded.max_pool_bytes == config.max_pool_bytes
    &&& loaded.network_buffer_pool_max_bytes == config.network_buffer_pool_max_bytes
    &&& loaded.max_shard_bytes == config.max_shard_bytes
    &&& loaded.mempool_drop_grace_blocks == config.mempool_drop_grace_blocks
    &&& loaded.indexer == config.indexer
    &&& loaded.relayer == config.relayer
}

/// Decodes a configuration whose network has been resolved.
pub fn decode_with_network(
    config: ValidatorConfig,
    listen_advertise: NodeAddress,
    primary_participants: Vec<Vec<u8>>,
    secondary_participants: Vec<Vec<u8>>,
    bootstrappers: Vec<(Vec<u8>, NodeAddress)>,
    otel: Option<(String, SamplingRate)>,
    json_logs: bool,
) -> (loaded: Result<LoadedConfig, ConfigError>)
    ensures
        match loaded {
            Ok(loaded) => {
                &&& network_rejection(config) is None
                &&& decodes_material(loaded.decoded, config)
                &&& carries_settings(loaded, config)
                &&& loaded.decoded.listen_advertise == listen_advertise
                &&& loaded.decoded.primary_participants == primary_participants
                &&& loaded.decoded.secondary_participants == secondary_participants
                &&& loaded.decoded.bootstrappers == bootstrappers
                &&& loaded.otel == otel
                &&& loaded.json_logs == json_logs
                &&& loaded.deployer_managed == json_logs
            },
            Err(error) => network_rejection(config) == Some(error@),
        },
{
    if config.max_shard_bytes < config.max_propose_bytes {
        return Err(
            ConfigError::ShardBelowPropose {
                max_shard_bytes: config.max_shard_bytes,
                max_propose_bytes: config.max_propose_bytes,
            },
        );
    }
    if config.network_buffer_pool_max_bytes < config.max_shard_bytes {
        return Err(
            ConfigError::BufferBelowShard {
                network_buffer_pool_max_bytes: config.network_buffer_pool_max_bytes,
                max_shard_bytes: config.max_shard_bytes,
            },
        );
    }
    let signer = match decode_private_key(config.private_key.as_str()) {
        Ok(signer) => signer,
        Err(error) => return Err(error),
    };
    let public_key = public_key_of(&signer);
    let dkg_output = match decode_dkg_output(config.dkg_output.as_str(), config.num_validators) {
        Ok(output) => output,
        Err(error) => return Err(error),
    };
    let share = match decode_share_opt(config.dkg_share.as_str()) {
        Ok(share) => share,
        Err(error) => return Err(error),
    };
    if share.is_some() && config.relayer.is_some() {
        return Err(ConfigError::RelayerOnPrimary);
    }
    if config.indexer.is_some() && config.relayer.is_some() {
        return Err(ConfigError::RelayerWithIndexer);
    }
    let genesis_leader = match decode_public_key(
        HexField::GenesisLeader,
        config.genesis_leader.as_str(),
    ) {
        Ok(key) => key,
        Err(error) => return Err(error),
    };
    Ok(
        LoadedConfig {
            decoded: DecodedConfig {
                signer,
                public_key,
                dkg_output,
                share,
                genesis_leader,
                listen_bind: bind_all(config.listen_port),
                listen_advertise,
                primary_participants,
                secondary_participants,
                bootstrappers,
                partition_prefix: config.partition_prefix,
            },
            startup: config.startup,
            log_level: config.log_level,
            worker_threads: config.worker_threads,
            rayon_threads: config.rayon_threads,
            http_listen: bind_all(config.http_port),
            metrics_listen: bind_all(config.metrics_port),
            max_propose_bytes: config.max_propose_bytes,
            max_pool_bytes: config.max_pool_bytes,
            network_buffer_pool_max_bytes: config.network_buffer_pool_max_bytes,
            max_shard_bytes: config.max_shard_bytes,
            mempool_drop_grace_blocks: config.mempool_drop_grace_blocks,
            otel,
            json_logs,
            deployer_managed: json_logs,
            indexer: config.indexer,
            relayer: config.relayer,
        },
    )
}

/// The address filed under `name`; of several entries the last counts.
pub open spec fn address_of(entries: Seq<(Seq<char>, Seq<char>)>, name: Seq<char>) -> Option<
    Seq<char>,
>
    decreases entries.len(),
{
    if entries.len() == 0 {
        None
    } else if entries.last().0 == name {
        Some(entries.last().1)
    } else {
        address_of(entries.drop_last(), name)
    }
}

/// The p2p address of every peer, by name.
pub open spec fn peer_addresses(peers: Seq<PeerEntry>) -> Seq<(Seq<char>, Seq<char>)> {
    Seq::new(peers.len(), |i: int| (peers[i].name@, peers[i].p2p@))
}

/// The HTTP address of every peer, by name.
pub open spec fn http_addresses(peers: Seq<PeerEntry>) -> Seq<(Seq<char>, Seq<char>)> {
    Seq::new(peers.len(), |i: int| (peers[i].name@, peers[i].http@))
}

/// The address of every host, by name.
pub open spec fn host_addresses(hosts: Seq<HostEntry>) -> Seq<(Seq<char>, Seq<char>)> {
    Seq::new(hosts.len(), |i: int| (hosts[i].name@, hosts[i].ip@))
}

/// Returns the last peer called `name`.
pub fn find_peer<'a>(peers: &'a Vec<PeerEntry>, name: &String) -> (peer: Option<&'a PeerEntry>)
    ensures
        match peer {
            Some(peer) => {
                &&& peers@.contains(*peer)
                &&& peer.name@ == name@
                &&& address_of(peer_addresses(peers@), name@) == Some(peer.p2p@)
                &&& address_of(http_addresses(peers@), name@) == Some(peer.http@)
            },
            None => address_of(peer_addresses(peers@), name@) is None,
        },
{
    let ghost all = peer_addresses(peers@);
    let ghost http = http_addresses(peers@);
    let mut i: usize = peers.len();
    proof {
        assert(all.take(i as int) =~= all);
        assert(http.take(i as int) =~= http);
    }
    while i > 0
        invariant
            i <= peers.len(),
            all == peer_addresses(peers@),
            http == http_addresses(peers@),
            address_of(all, name@) == address_of(all.take(i as int), name@),
            address_of(http, name@) == address_of(http.take(i as int), name@),
        decreases i,
    {
        proof {
            assert(all.take(i as int).drop_last() =~= all.take(i - 1));
            assert(all.take(i as int).last() == all[i - 1]);
            assert(http.take(i as int).drop_last() =~= http.take(i - 1));
            assert(http.take(i as int).last() == http[i - 1]);
        }
        i = i - 1;
        if peers[i].name == *name {
            return Some(&peers[i]);
        }
    }
    None
}

/// Returns the address of the last host called `name`.
pub fn find_host<'a>(hosts: &'a Vec<HostEntry>, name: &String) -> (ip: Option<&'a String>)
    ensures
        match ip {
            Some(ip) => address_of(host_addresses(hosts@), name@) == Some(ip@),
            None => address_of(host_addresses(hosts@), name@) is None,
        },
{
    let ghost all = host_addresses(hosts@);
    let mut i: usize = hosts.len();
    proof {
        assert(all.take(i as int) =~= all);
    }
    while i > 0
        invariant
            i <= hosts.len(),
            all == host_addresses(hosts@),
            address_of(all, name@) == address_of(all.take(i as int), name@),
        decreases i,
    {
        proof {
            assert(all.take(i as int).drop_last() =~= all.take(i - 1));
            assert(all.take(i as int).last() == all[i - 1]);
        }
        i = i - 1;
        if hosts[i].name == *name {
            return Some(&hosts[i].ip);
        }
    }
    None
}

/// A URL with its named host replaced by the host's address.
///
/// Only `http://host:port` URLs, with or without a path, whose host is known are rewritten.
pub open spec fn resolved_url(url: Seq<char>, hosts: Seq<(Seq<char>, Seq<char>)>) -> Seq<char> {
    if !crate::text::begins_with(url, "http://"@) {
        url
    } else {
        let rest = url.skip("http://"@.len() as int);
        let cut = match rest.index_of_first('/') {
            Some(at) => at,
            None => rest.len() as int,
        };
        let authority = rest.take(cut);
        match authority.index_of_last(':') {
            None => url,
            Some(at) => match address_of(hosts, authority.take(at)) {
                None => url,
                Some(ip) => "http://"@ + ip + ":"@ + authority.skip(at + 1) + rest.skip(cut),
            },
        }
    }
}

/// Replaces the named host of an HTTP URL by the host's address.
pub fn resolve_named_http_url(url: &String, hosts: &Vec<HostEntry>) -> (resolved: String)
    ensures
        resolved@ == resolved_url(url@, host_addresses(hosts@)),
{
    if !starts_with(url.as_str(), "http://") {
        return url.clone();
    }
    proof {
        reveal_strlit("http://");
    }
    let chars = chars_of(url.as_str());
    let scheme: usize = "http://".unicode_len();
    let rest_text = slice_text(&chars, scheme, chars.len());
    let rest = chars_of(rest_text.as_str());
    proof {
        assert(rest@ =~= url@.skip(scheme as int));
    }
    let cut: usize = match find_first(&rest, '/') {
        Some(at) => at,
        None => rest.len(),
    };
    let authority_text = slice_text(&rest, 0, cut);
    let authority = chars_of(authority_text.as_str());
    proof {
        assert(authority@ =~= rest@.take(cut as int));
    }
    let at: usize = match find_last(&authority, ':') {
        Some(at) => at,
        None => return url.clone(),
    };
    let host = slice_text(&authority, 0, at);
    proof {
        assert(host@ =~= authority@.take(at as int));
    }
    let ip = match find_host(hosts, &host) {
        Some(ip) => ip,
        None => return url.clone(),
    };
    let port = slice_text(&authority, at + 1, authority.len());
    let suffix = slice_text(&rest, cut, rest.len());
    proof {
        assert(port@ =~= authority@.skip(at + 1));
        assert(suffix@ =~= rest@.skip(cut as int));
    }
    let mut resolved = "http://".to_string();
    resolved.append(ip.as_str());
    resolved.append(":");
    resolved.append(port.as_str());
    resolved.append(suffix.as_str());
    resolved
}

/// The public key and name of every bootstrapper.
pub open spec fn bootstrapper_texts(entries: Seq<NamedBootstrapperEntry>) -> Seq<
    (Seq<char>, Seq<char>),
> {
    Seq::new(entries.len(), |i: int| (entries[i].public_key@, entries[i].name@))
}

/// The address of a node found under a file entry: a written socket, or a host and a port.
pub open spec fn node_address(found: Seq<char>, port: Option<u16>) -> NodeAddressView {
    match port {
        Some(port) => NodeAddressView::Host { ip: found, port },
        None => NodeAddressView::Socket(found),
    }
}

/// Where the addresses of nodes are filed.
pub struct AddressBook {
    /// The p2p address of every node, by name.
    pub p2p: Seq<(Seq<char>, Seq<char>)>,
    /// The HTTP address of every node, by name, where it is filed.
    pub http: Seq<(Seq<char>, Seq<char>)>,
    /// The addresses that are not socket addresses.
    pub malformed: Seq<Seq<char>>,
    /// The port of every node, where addresses are hosts.
    pub port: Option<u16>,
}

/// Every peer of a local deployment: the primaries, then the secondaries.
pub open spec fn all_peers(peers: PeersFile) -> Seq<PeerEntry> {
    peers.validators@ + peers.secondaries@
}

/// The addresses of a local deployment, some of which may be no socket addresses.
pub open spec fn peer_book(peers: Seq<PeerEntry>, malformed: Seq<String>) -> AddressBook {
    AddressBook {
        p2p: peer_addresses(peers),
        http: http_addresses(peers),
        malformed: crate::text::texts(malformed),
        port: None,
    }
}

/// The addresses of a remote deployment.
pub open spec fn host_book(hosts: Seq<HostEntry>, port: u16) -> AddressBook {
    AddressBook {
        p2p: host_addresses(hosts),
        http: Seq::empty(),
        malformed: Seq::empty(),
        port: Some(port),
    }
}

/// The bootstrappers that entries resolve to; the first bad one rejects the list.
pub open spec fn bootstrappers_in(
    entries: Seq<(Seq<char>, Seq<char>)>,
    book: AddressBook,
) -> Result<Seq<(Seq<u8>, NodeAddressView)>, ConfigProblem>
    decreases entries.len(),
{
    if entries.len() == 0 {
        Ok(Seq::empty())
    } else {
        match bootstrappers_in(entries.drop_last(), book) {
            Err(problem) => Err(problem),
            Ok(found) => {
                let (key, name) = entries.last();
                match public_key_in(key, HexField::BootstrapperPublicKey) {
                    Err(problem) => Err(problem),
                    Ok(key) => match address_of(book.p2p, name) {
                        None => Err(ConfigProblem::MissingBootstrapper { name }),
                        Some(address) => if book.malformed.contains(address) {
                            Err(ConfigProblem::BadSocket(SocketField::BootstrapperP2p))
                        } else {
                            Ok(found.push((key, node_address(address, book.port))))
                        },
                    },
                }
            },
        }
    }
}

/// What a list of resolved bootstrappers says.
pub open spec fn bootstrapper_views(found: Seq<(Vec<u8>, NodeAddress)>) -> Seq<
    (Seq<u8>, NodeAddressView),
> {
    Seq::new(found.len(), |i: int| (found[i].0@, found[i].1@))
}

proof fn bootstrappers_stay_bad(
    entries: Seq<(Seq<char>, Seq<char>)>,
    book: AddressBook,
    count: int,
)
    requires
        0 <= count <= entries.len(),
        bootstrappers_in(entries.take(count), book) is Err,
    ensures
        bootstrappers_in(entries, book) == bootstrappers_in(entries.take(count), book),
    decreases entries.len() - count,
{
    if count == entries.len() {
        assert(entries.take(count) =~= entries);
    } else {
        assert(entries.take(count + 1).drop_last() =~= entries.take(count));
        bootstrappers_stay_bad(entries, book, count + 1);
    }
}

/// Resolves bootstrappers to the sockets written in the peers file.
fn peer_bootstrappers(
    entries: &Vec<NamedBootstrapperEntry>,
    peers: &Vec<PeerEntry>,
    malformed: &Vec<String>,
) -> (found: Result<Vec<(Vec<u8>, NodeAddress)>, ConfigError>)
    ensures
        ({
            let expected = bootstrappers_in(
                bootstrapper_texts(entries@),
                peer_book(peers@, malformed@),
            );
            match found {
                Ok(found) => expected == Ok::<Seq<(Seq<u8>, NodeAddressView)>, ConfigProblem>(
                    bootstrapper_views(found@),
                ),
                Err(error) => expected == Err::<Seq<(Seq<u8>, NodeAddressView)>, ConfigProblem>(
                    error@,
                ),
            }
        }),
{
    let mut found: Vec<(Vec<u8>, NodeAddress)> = Vec::new();
    let ghost all = bootstrapper_texts(entries@);
    let ghost book = peer_book(peers@, malformed@);
    proof {
        assert(bootstrapper_views(found@) =~= Seq::<(Seq<u8>, NodeAddressView)>::empty());
    }
    let mut i: usize = 0;
    while i < entries.len()
        invariant
            i <= entries.len(),
            all == bootstrapper_texts(entries@),
            book == peer_book(peers@, malformed@),
            bootstrappers_in(all.take(i as int), book) == Ok::<
                Seq<(Seq<u8>, NodeAddressView)>,
                ConfigProblem,
            >(bootstrapper_views(found@)),
        decreases entries.len() - i,
    {
        let ghost before = bootstrapper_views(found@);
        proof {
            assert(all.take(i + 1).drop_last() =~= all.take(i as int));
            assert(all.take(i + 1).last() == all[i as int]);
        }
        let entry = &entries[i];
        let key = match decode_public_key(
            HexField::BootstrapperPublicKey,
            entry.public_key.as_str(),
        ) {
            Ok(key) => key,
            Err(error) => {
                proof {
                    bootstrappers_stay_bad(all, book, i + 1);
                }
                return Err(error);
            },
        };
        match find_peer(peers, &entry.name) {
            Some(peer) => {
                if contains_text(malformed, &peer.p2p) {
                    proof {
                        bootstrappers_stay_bad(all, book, i + 1);
                    }
                    return Err(ConfigError::BadSocket(SocketField::BootstrapperP2p));
                }
                found.push((key, NodeAddress::Socket(peer.p2p.clone())));
                proof {
                    assert(bootstrapper_views(found@) =~= before.push(
                        (key@, NodeAddressView::Socket(peer.p2p@)),
                    ));
                }
            },
            None => {
                proof {
                    bootstrappers_stay_bad(all, book, i + 1);
                }
                return Err(ConfigError::MissingBootstrapper { name: entry.name.clone() });
            },
        }
        i += 1;
    }
    proof {
        assert(all.take(i as int) =~= all);
    }
    Ok(found)
}

/// Resolves bootstrappers to the hosts of a remote deployment.
fn host_bootstrappers(
    entries: &Vec<NamedBootstrapperEntry>,
    hosts: &Vec<HostEntry>,
    port: u16,
) -> (found: Result<Vec<(Vec<u8>, NodeAddress)>, ConfigError>)
    ensures
        ({
            let expected = bootstrappers_in(
                bootstrapper_texts(entries@),
                host_book(hosts@, port),
            );
            match found {
                Ok(found) => expected == Ok::<Seq<(Seq<u8>, NodeAddressView)>, ConfigProblem>(
                    bootstrapper_views(found@),
                ),
                Err(error) => expected == Err::<Seq<(Seq<u8>, NodeAddressView)>, ConfigProblem>(
                    error@,
                ),
            }
        }),
{
    let mut found: Vec<(Vec<u8>, NodeAddress)> = Vec::new();
    let ghost all = bootstrapper_texts(entries@);
    let ghost book = host_book(hosts@, port);
    proof {
        assert(bootstrapper_views(found@) =~= Seq::<(Seq<u8>, NodeAddressView)>::empty());
    }
    let mut i: usize = 0;
    while i < entries.len()
        invariant
            i <= entries.len(),
            all == bootstrapper_texts(entries@),
            book == host_book(hosts@, port),
            bootstrappers_in(all.take(i as int), book) == Ok::<
                Seq<(Seq<u8>, NodeAddressView)>,
                ConfigProblem,
            >(bootstrapper_views(found@)),
        decreases entries.len() - i,
    {
        let ghost before = bootstrapper_views(found@);
        proof {
            assert(all.take(i + 1).drop_last() =~= all.take(i as int));
            assert(all.take(i + 1).last() == all[i as int]);
        }
        let entry = &entries[i];
        let key = match decode_public_key(
            HexField::BootstrapperPublicKey,
            entry.public_key.as_str(),
        ) {
            Ok(key) => key,
            Err(error) => {
                proof {
                    bootstrappers_stay_bad(all, book, i + 1);
                }
                return Err(error);
            },
        };
        match find_host(hosts, &entry.name) {
            Some(ip) => {
                found.push((key, NodeAddress::Host { ip: ip.clone(), port }));
                proof {
                    assert(bootstrapper_views(found@) =~= before.push(
                        (key@, NodeAddressView::Host { ip: ip@, port }),
                    ));
                }
            },
            None => {
                proof {
                    bootstrappers_stay_bad(all, book, i + 1);
                }
                return Err(ConfigError::MissingBootstrapper { name: entry.name.clone() });
            },
        }
        i += 1;
    }
    proof {
        assert(all.take(i as int) =~= all);
    }
    Ok(found)
}

/// The traces endpoint and rate of a node: none while the rate is zero, else the configured
/// endpoint or the fallback.
pub open spec fn otel_choice(config: ValidatorConfig, fallback: Seq<char>) -> Option<
    (Seq<char>, SamplingRate),
> {
    if config.traces.positive() {
        Some(
            (
                match config.otel_endpoint {
                    Some(endpoint) => endpoint@,
                    None => fallback,
                },
                config.traces,
            ),
        )
    } else {
        None
    }
}

/// What an optional traces endpoint says.
pub open spec fn otel_view(otel: Option<(String, SamplingRate)>) -> Option<
    (Seq<char>, SamplingRate),
> {
    match otel {
        Some((endpoint, rate)) => Some((endpoint@, rate)),
        None => None,
    }
}

fn choose_otel(config: &ValidatorConfig, fallback: String) -> (otel: Option<(String, SamplingRate)>)
    ensures
        otel_view(otel) == otel_choice(*config, fallback@),
{
    if config.traces.is_positive() {
        let endpoint = match &config.otel_endpoint {
            Some(endpoint) => endpoint.clone(),
            None => fallback,
        };
        Some((endpoint, config.traces))
    } else {
        None
    }
}

/// The collector of a local deployment.
pub open spec fn local_collector() -> Seq<char> {
    "http://127.0.0.1:4318/v1/traces"@
}

/// The collector on the monitoring host.
pub open spec fn monitoring_collector(host: Seq<char>) -> Seq<char> {
    "http://"@ + host + ":4318/v1/traces"@
}

/// Returns the traces endpoint of a local node.
pub fn local_otel(config: &ValidatorConfig) -> (otel: Option<(String, SamplingRate)>)
    ensures
        otel_view(otel) == otel_choice(*config, local_collector()),
{
    choose_otel(config, "http://127.0.0.1:4318/v1/traces".to_string())
}

/// What the network around a node resolves to, before its own settings are decoded.
pub struct NetworkView {
    pub listen_advertise: NodeAddressView,
    pub primary: Seq<Seq<u8>>,
    pub secondary: Seq<Seq<u8>>,
    pub bootstrappers: Seq<(Seq<u8>, NodeAddressView)>,
}

/// Whether an optional address is no socket address.
pub open spec fn is_malformed(address: Option<Seq<char>>, book: AddressBook) -> bool {
    address matches Some(address) && book.malformed.contains(address)
}

/// The network around a node whose addresses are filed in `book`.
pub open spec fn network_in(config: ValidatorConfig, book: AddressBook) -> Result<
    NetworkView,
    ConfigProblem,
> {
    match private_key_in(config.private_key@) {
        Err(problem) => Err(problem),
        Ok(signer) => {
            let self_key = crate::keys::derived_public_key(signer);
            match participants_in(
                crate::text::texts(config.primary_validators@),
                crate::text::texts(config.secondary_validators@),
                self_key,
            ) {
                Err(problem) => Err(problem),
                Ok((primary, secondary)) => {
                    let self_name = crate::formatting::hex_text(self_key);
                    match address_of(book.p2p, self_name) {
                        None => Err(ConfigProblem::MissingSelf { name: self_name }),
                        Some(found) => if book.malformed.contains(found) {
                            Err(ConfigProblem::BadSocket(SocketField::SelfP2p))
                        } else if is_malformed(address_of(book.http, self_name), book) {
                            Err(ConfigProblem::BadSocket(SocketField::SelfHttp))
                        } else {
                            match bootstrappers_in(
                                bootstrapper_texts(config.bootstrappers@),
                                book,
                            ) {
                                Err(problem) => Err(problem),
                                Ok(bootstrappers) => Ok(
                                    NetworkView {
                                        listen_advertise: node_address(found, book.port),
                                        primary,
                                        secondary,
                                        bootstrappers,
                                    },
                                ),
                            }
                        },
                    }
                },
            }
        },
    }
}

/// Whether `loaded` stands in the network that `network` describes.
pub open spec fn stands_in(loaded: LoadedConfig, network: NetworkView) -> bool {
    &&& loaded.decoded.listen_advertise@ == network.listen_advertise
    &&& crate::keys::blobs(loaded.decoded.primary_participants@) == network.primary
    &&& crate::keys::blobs(loaded.decoded.secondary_participants@) == network.secondary
    &&& bootstrapper_views(loaded.decoded.bootstrappers@) == network.bootstrappers
}

/// Whether `loaded` is what `config` decodes to, or `loaded` is the reason why it does not.
pub open spec fn loads(
    loaded: Result<LoadedConfig, ConfigError>,
    config: ValidatorConfig,
    network: Result<NetworkView, ConfigProblem>,
    otel: Option<(Seq<char>, SamplingRate)>,
    json_logs: bool,
) -> bool {
    match loaded {
        Ok(loaded) => {
            &&& network_rejection(config) is None
            &&& network is Ok
            &&& stands_in(loaded, network->Ok_0)
            &&& decodes_material(loaded.decoded, config)
            &&& carries_settings(loaded, config)
            &&& otel_view(loaded.otel) == otel
            &&& loaded.json_logs == json_logs
            &&& loaded.deployer_managed == json_logs
        },
        Err(error) => match network {
            Err(problem) => error@ == problem,
            Ok(_) => network_rejection(config) == Some(error@),
        },
    }
}

/// Loads a node of a local deployment, whose peers are written with their socket addresses.
/// `malformed` holds those of the addresses that are not socket addresses: the node's own, and those
/// of its bootstrappers, may not be among them. The addresses are handed on as written.
pub fn load_local_config(
    peers: PeersFile,
    malformed: &Vec<String>,
    config: ValidatorConfig,
) -> (loaded: Result<LoadedConfig, ConfigError>)
    ensures
        loads(
            loaded,
            config,
            network_in(config, peer_book(all_peers(peers), malformed@)),
            otel_choice(config, local_collector()),
            false,
        ),
{
    let signer = match decode_private_key(config.private_key.as_str()) {
        Ok(signer) => signer,
        Err(error) => return Err(error),
    };
    let self_key = public_key_of(&signer);
    let self_name = hex(self_key.as_slice());
    let (primary, secondary) = match decode_participants(
        &config.primary_validators,
        &config.secondary_validators,
        &self_key,
    ) {
        Ok(participants) => participants,
        Err(error) => return Err(error),
    };
    let mut entries = peers.validators;
    let mut others = peers.secondaries;
    entries.append(&mut others);
    let listen = match find_peer(&entries, &self_name) {
        Some(peer) => {
            if contains_text(malformed, &peer.p2p) {
                return Err(ConfigError::BadSocket(SocketField::SelfP2p));
            }
            if contains_text(malformed, &peer.http) {
                return Err(ConfigError::BadSocket(SocketField::SelfHttp));
            }
            NodeAddress::Socket(peer.p2p.clone())
        },
        None => return Err(ConfigError::MissingSelf { name: self_name }),
    };
    let bootstrappers = match peer_bootstrappers(&config.bootstrappers, &entries, malformed) {
        Ok(bootstrappers) => bootstrappers,
        Err(error) => return Err(error),
    };
    let otel = local_otel(&config);
    decode_with_network(config, listen, primary, secondary, bootstrappers, otel, false)
}

/// Whether `after` is `before` with the host of its URL resolved.
pub open spec fn leader_resolved(
    before: RelayerLeaderConfig,
    after: RelayerLeaderConfig,
    hosts: Seq<HostEntry>,
) -> bool {
    &&& after.public_key == before.public_key
    &&& after.url@ == resolved_url(before.url@, host_addresses(hosts))
}

/// Whether `after` is `before` with the hosts of its URLs resolved.
pub open spec fn urls_resolved(
    before: ValidatorConfig,
    after: ValidatorConfig,
    hosts: Seq<HostEntry>,
) -> bool {
    &&& after == (ValidatorConfig { indexer: after.indexer, relayer: after.relayer, ..before })
    &&& match (before.indexer, after.indexer) {
        (None, None) => true,
        (Some(before), Some(after)) => {
            &&& after.upload_buffer == before.upload_buffer
            &&& after.chain_indexer_url@ == resolved_url(
                before.chain_indexer_url@,
                host_addresses(hosts),
            )
        },
        _ => false,
    }
    &&& match (before.relayer, after.relayer) {
        (None, None) => true,
        (Some(before), Some(after)) => {
            &&& after.max_retry_views == before.max_retry_views
            &&& after.leaders@.len() == before.leaders@.len()
            &&& forall|i: int|
                0 <= i < before.leaders@.len() ==> leader_resolved(
                    before.leaders@[i],
                    #[trigger] after.leaders@[i],
                    hosts,
                )
        },
        _ => false,
    }
}

/// Resolves the hosts named in the indexer and relayer URLs of a configuration.
pub fn resolve_urls(config: ValidatorConfig, hosts: &Vec<HostEntry>) -> (resolved: ValidatorConfig)
    ensures
        urls_resolved(config, resolved, hosts@),
{
    let mut resolved = config;
    resolved.indexer = match resolved.indexer {
        Some(indexer) => {
            let url = resolve_named_http_url(&indexer.chain_indexer_url, hosts);
            Some(IndexerConfig { chain_indexer_url: url, upload_buffer: indexer.upload_buffer })
        },
        None => None,
    };
    resolved.relayer = match resolved.relayer {
        Some(relayer) => {
            let mut leaders: Vec<RelayerLeaderConfig> = Vec::new();
            let mut i: usize = 0;
            while i < relayer.leaders.len()
                invariant
                    i <= relayer.leaders.len(),
                    leaders@.len() == i,
                    forall|j: int|
                        0 <= j < i ==> leader_resolved(
                            relayer.leaders@[j],
                            #[trigger] leaders@[j],
                            hosts@,
                        ),
                decreases relayer.leaders.len() - i,
            {
                let leader = &relayer.leaders[i];
                leaders.push(
                    RelayerLeaderConfig {
                        public_key: leader.public_key.clone(),
                        url: resolve_named_http_url(&leader.url, hosts),
                    },
                );
                i += 1;
            }
            Some(RelayerConfig { max_retry_views: relayer.max_retry_views, leaders })
        },
        None => None,
    };
    resolved
}

/// Loads a node of a remote deployment, whose hosts are known by name.
pub fn load_deployer_config(
    hosts: &Vec<HostEntry>,
    monitoring_private: &str,
    config: ValidatorConfig,
) -> (loaded: Result<LoadedConfig, ConfigError>)
    ensures
        exists|resolved: ValidatorConfig|
            {
                &&& #[trigger] urls_resolved(config, resolved, hosts@)
                &&& loads(
                    loaded,
                    resolved,
                    network_in(config, host_book(hosts@, config.listen_port)),
                    otel_choice(config, monitoring_collector(monitoring_private@)),
                    true,
                )
            },
{
    let ghost original = config;
    let config = resolve_urls(config, hosts);
    proof {
        assert(urls_resolved(original, config, hosts@));
    }
    let signer = match decode_private_key(config.private_key.as_str()) {
        Ok(signer) => signer,
        Err(error) => return Err(error),
    };
    let self_key = public_key_of(&signer);
    let self_name = hex(self_key.as_slice());
    let (primary, secondary) = match decode_participants(
        &config.primary_validators,
        &config.secondary_validators,
        &self_key,
    ) {
        Ok(participants) => participants,
        Err(error) => return Err(error),
    };
    let listen = match find_host(hosts, &self_name) {
        Some(ip) => NodeAddress::Host { ip: ip.clone(), port: config.listen_port },
        None => return Err(ConfigError::MissingSelf { name: self_name }),
    };
    let bootstrappers = match host_bootstrappers(
        &config.bootstrappers,
        hosts,
        config.listen_port,
    ) {
        Ok(bootstrappers) => bootstrappers,
        Err(error) => return Err(error),
    };
    let mut fallback = "http://".to_string();
    fallback.append(monitoring_private);
    fallback.append(":4318/v1/traces");
    let otel = choose_otel(&config, fallback);
    decode_with_network(config, listen, primary, secondary, bootstrappers, otel, true)
}

/// A loaded node is always one of its own declared participants.
pub proof fn loaded_node_is_listed(
    loaded: LoadedConfig,
    config: ValidatorConfig,
    book: AddressBook,
)
    requires
        network_in(config, book) is Ok,
        stands_in(loaded, network_in(config, book)->Ok_0),
        decodes_material(loaded.decoded, config),
    ensures
        crate::keys::blobs(loaded.decoded.primary_participants@).contains(
            loaded.decoded.public_key@,
        ) || crate::keys::blobs(loaded.decoded.secondary_participants@).contains(
            loaded.decoded.public_key@,
        ),
{
}

/// A configuration that loads holds a full proposal in one shard and a full shard in one network
/// buffer, and runs a relayer only on a secondary without an indexer.
pub proof fn loaded_limits_nest(config: ValidatorConfig)
    requires
        network_rejection(config) is None,
    ensures
        config.max_propose_bytes <= config.max_shard_bytes,
        config.max_shard_bytes <= config.network_buffer_pool_max_bytes,
        config.relayer is Some ==> config.dkg_share@.len() == 0 && config.indexer is None,
{
}

/// Of several entries of a name the last counts, and a name without an entry has no address.
pub proof fn last_entry_counts(entries: Seq<(Seq<char>, Seq<char>)>, name: Seq<char>, at: int)
    ensures
        0 <= at < entries.len() && entries[at].0 == name && (forall|later: int|
            at < later < entries.len() ==> (#[trigger] entries[later]).0 != name) ==> address_of(
            entries,
            name,
        ) == Some(entries[at].1),
        (forall|i: int| 0 <= i < entries.len() ==> (#[trigger] entries[i]).0 != name)
            ==> address_of(entries, name) is None,
    decreases entries.len(),
{
    if entries.len() > 0 {
        let front = entries.drop_last();
        assert(entries[entries.len() - 1] == entries.last());
        if entries.last().0 != name {
            last_entry_counts(front, name, at);
            assert forall|i: int| 0 <= i < front.len() implies front[i] == entries[i] by {}
        }
    }
}

/// Keys are decoded one for one and in order.
pub proof fn keys_are_decoded_in_order(items: Seq<Seq<char>>, field: HexField, index: int)
    requires
        public_keys_in(items, field) is Ok,
        0 <= index < items.len(),
    ensures
        public_keys_in(items, field)->Ok_0.len() == items.len(),
        public_key_in(items[index], field) == Ok::<Seq<u8>, ConfigProblem>(
            public_keys_in(items, field)->Ok_0[index],
        ),
    decreases items.len(),
{
    let front = items.drop_last();
    assert(items[items.len() - 1] == items.last());
    decoded_keys_match(front, field);
    if index < front.len() {
        keys_are_decoded_in_order(front, field, index);
        assert(front[index] == items[index]);
    }
}

proof fn decoded_keys_match(items: Seq<Seq<char>>, field: HexField)
    ensures
        public_keys_in(items, field) is Ok ==> public_keys_in(items, field)->Ok_0.len()
            == items.len(),
    decreases items.len(),
{
    if items.len() > 0 {
        decoded_keys_match(items.drop_last(), field);
    }
}

/// Bootstrappers are resolved one for one and in order, each to the key that its entry spells out
/// and to the address filed under its name.
pub proof fn bootstrappers_are_resolved_in_order(
    entries: Seq<(Seq<char>, Seq<char>)>,
    book: AddressBook,
    index: int,
)
    requires
        bootstrappers_in(entries, book) is Ok,
        0 <= index < entries.len(),
    ensures
        ({
            let found = bootstrappers_in(entries, book)->Ok_0;
            &&& found.len() == entries.len()
            &&& public_key_in(entries[index].0, HexField::BootstrapperPublicKey) == Ok::<
                Seq<u8>,
                ConfigProblem,
            >(found[index].0)
            &&& address_of(book.p2p, entries[index].1) matches Some(address)
            &&& !book.malformed.contains(address)
            &&& found[index].1 == match book.port {
                Some(port) => NodeAddressView::Host { ip: address, port },
                None => NodeAddressView::Socket(address),
            }
        }),
    decreases entries.len(),
{
    let front = entries.drop_last();
    assert(entries[entries.len() - 1] == entries.last());
    resolved_bootstrappers_match(front, book);
    if index < front.len() {
        bootstrappers_are_resolved_in_order(front, book, index);
        assert(front[index] == entries[index]);
    }
}

proof fn resolved_bootstrappers_match(entries: Seq<(Seq<char>, Seq<char>)>, book: AddressBook)
    ensures
        bootstrappers_in(entries, book) is Ok ==> bootstrappers_in(entries, book)->Ok_0.len()
            == entries.len(),
    decreases entries.len(),
{
    if entries.len() > 0 {
        resolved_bootstrappers_match(entries.drop_last(), book);
    }
}

/// A node of a local deployment that loads advertises the p2p socket that the peers file has for its
/// own public key, listens on its own ports on every interface, and keeps its limits, which nest. A
/// relayer runs only on a secondary without an indexer, and logs are for people.
pub proof fn local_node_stands_where_filed(
    peers: PeersFile,
    malformed: Vec<String>,
    config: ValidatorConfig,
    loaded: LoadedConfig,
    at: int,
)
    requires
        call_ensures(
            load_local_config,
            (peers, &malformed, config),
            Ok::<LoadedConfig, ConfigError>(loaded),
        ),
        0 <= at < all_peers(peers).len(),
        all_peers(peers)[at].name@ == crate::formatting::hex_text(loaded.decoded.public_key@),
        forall|later: int|
            at < later < all_peers(peers).len() ==> (#[trigger] all_peers(peers)[later]).name@
                != crate::formatting::hex_text(loaded.decoded.public_key@),
    ensures
        loaded.decoded.listen_advertise@ == NodeAddressView::Socket(all_peers(peers)[at].p2p@),
        crate::formatting::hex_bytes(config.private_key@) matches Some(bytes)
            && loaded.decoded.signer@ == bytes.take(32),
        loaded.decoded.public_key@ == crate::keys::derived_public_key(loaded.decoded.signer@),
        loaded.decoded.listen_bind@ == "0.0.0.0:"@ + crate::text::decimal(
            config.listen_port as nat,
        ),
        loaded.http_listen@ == "0.0.0.0:"@ + crate::text::decimal(config.http_port as nat),
        loaded.metrics_listen@ == "0.0.0.0:"@ + crate::text::decimal(config.metrics_port as nat),
        loaded.max_propose_bytes == config.max_propose_bytes,
        loaded.max_shard_bytes == config.max_shard_bytes,
        loaded.network_buffer_pool_max_bytes == config.network_buffer_pool_max_bytes,
        loaded.max_propose_bytes <= loaded.max_shard_bytes
            <= loaded.network_buffer_pool_max_bytes,
        loaded.decoded.share is None <==> config.dkg_share@.len() == 0,
        loaded.relayer is Some ==> loaded.decoded.share is None && loaded.indexer is None,
        !loaded.json_logs,
{
    let book = peer_book(all_peers(peers), malformed@);
    let name = crate::formatting::hex_text(loaded.decoded.public_key@);
    assert(book.p2p[at] == (all_peers(peers)[at].name@, all_peers(peers)[at].p2p@));
    assert forall|later: int| at < later < book.p2p.len() implies (#[trigger] book.p2p[later]).0
        != name by {
        assert(book.p2p[later].0 == all_peers(peers)[later].name@);
    }
    last_entry_counts(book.p2p, name, at);
}

/// A node of a remote deployment that loads advertises the address of the host that is named after
/// its own public key, at its own listening port, and writes logs for machines.
pub proof fn remote_node_stands_where_filed(
    hosts: Vec<HostEntry>,
    monitoring_private: &str,
    config: ValidatorConfig,
    loaded: LoadedConfig,
    at: int,
)
    requires
        call_ensures(
            load_deployer_config,
            (&hosts, monitoring_private, config),
            Ok::<LoadedConfig, ConfigError>(loaded),
        ),
        0 <= at < hosts@.len(),
        hosts@[at].name@ == crate::formatting::hex_text(loaded.decoded.public_key@),
        forall|later: int|
            at < later < hosts@.len() ==> (#[trigger] hosts@[later]).name@
                != crate::formatting::hex_text(loaded.decoded.public_key@),
    ensures
        loaded.decoded.listen_advertise@ == (NodeAddressView::Host {
            ip: hosts@[at].ip@,
            port: config.listen_port,
        }),
        loaded.decoded.public_key@ == crate::keys::derived_public_key(loaded.decoded.signer@),
        loaded.decoded.listen_bind@ == "0.0.0.0:"@ + crate::text::decimal(
            config.listen_port as nat,
        ),
        loaded.http_listen@ == "0.0.0.0:"@ + crate::text::decimal(config.http_port as nat),
        loaded.max_propose_bytes <= loaded.max_shard_bytes
            <= loaded.network_buffer_pool_max_bytes,
        loaded.relayer is Some ==> loaded.decoded.share is None && loaded.indexer is None,
        loaded.json_logs,
        loaded.otel matches Some((endpoint, rate)) ==> rate == config.traces && rate.positive() && (
        config.otel_endpoint is None ==> endpoint@ == "http://"@ + monitoring_private@
            + ":4318/v1/traces"@),
{
    let book = host_book(hosts@, config.listen_port);
    let name = crate::formatting::hex_text(loaded.decoded.public_key@);
    assert(book.p2p[at] == (hosts@[at].name@, hosts@[at].ip@));
    assert forall|later: int| at < later < book.p2p.len() implies (#[trigger] book.p2p[later]).0
        != name by {
        assert(book.p2p[later].0 == hosts@[later].name@);
    }
    last_entry_counts(book.p2p, name, at);
}

proof fn first_slash(front: Seq<char>, path: Seq<char>)
    requires
        !front.contains('/'),
        path.len() == 0 || path[0] == '/',
    ensures
        path.len() > 0 ==> (front + path).index_of_first('/') == Some(front.len() as int),
        path.len() == 0 ==> (front + path).index_of_first('/') is None,
{
    let all = front + path;
    all.index_of_first_ensures('/');
    assert forall|i: int| 0 <= i < front.len() implies all[i] != '/' by {
        assert(all[i] == front[i]);
        assert(front.contains(front[i]));
    }
    if path.len() > 0 {
        assert(all[front.len() as int] == '/');
        assert(all.contains('/'));
    } else {
        assert(all =~= front);
    }
}

proof fn last_colon(host: Seq<char>, port: Seq<char>)
    requires
        !port.contains(':'),
    ensures
        (host + seq![':'] + port).index_of_last(':') == Some(host.len() as int),
{
    let all = host + seq![':'] + port;
    all.index_of_last_ensures(':');
    assert(all[host.len() as int] == ':');
    assert(all.contains(':'));
    assert forall|i: int| host.len() < i < all.len() implies all[i] != ':' by {
        assert(all[i] == port[i - host.len() - 1]);
        assert(port.contains(port[i - host.len() - 1]));
    }
}

/// A URL of a host, a port and maybe a path gets the address of the last host of that name in place
/// of the name, and keeps its port and its path. The URL of an unknown host is left alone.
pub proof fn named_hosts_are_replaced(
    url: String,
    hosts: Vec<HostEntry>,
    resolved: String,
    host: Seq<char>,
    port: Seq<char>,
    path: Seq<char>,
    at: int,
)
    requires
        call_ensures(resolve_named_http_url, (&url, &hosts), resolved),
        url@ == "http://"@ + host + ":"@ + port + path,
        !host.contains('/'),
        !port.contains('/'),
        !port.contains(':'),
        path.len() == 0 || path[0] == '/',
    ensures
        0 <= at < hosts@.len() && hosts@[at].name@ == host && (forall|later: int|
            at < later < hosts@.len() ==> (#[trigger] hosts@[later]).name@ != host) ==> resolved@
            == "http://"@ + hosts@[at].ip@ + ":"@ + port + path,
        (forall|i: int| 0 <= i < hosts@.len() ==> (#[trigger] hosts@[i]).name@ != host)
            ==> resolved@ == url@,
{
    let scheme = "http://"@;
    reveal_strlit("http://");
    reveal_strlit(":");
    assert(":"@ =~= seq![':']);
    let authority = host + ":"@ + port;
    let rest = authority + path;
    assert(url@ =~= scheme + rest);
    assert(url@.subrange(0, scheme.len() as int) =~= scheme);
    assert(url@.skip(scheme.len() as int) =~= rest);
    assert(!authority.contains('/')) by {
        if authority.contains('/') {
            let i = choose|i: int| 0 <= i < authority.len() && authority[i] == '/';
            if i < host.len() {
                assert(host.contains(host[i]));
            } else if i > host.len() {
                assert(port.contains(port[i - host.len() - 1]));
            }
        }
    }
    first_slash(authority, path);
    last_colon(host, port);
    assert(rest.take(authority.len() as int) =~= authority);
    assert(rest.skip(authority.len() as int) =~= path);
    assert(authority.take(host.len() as int) =~= host);
    assert(authority.skip(host.len() as int + 1) =~= port);
    let entries = host_addresses(hosts@);
    assert forall|i: int| 0 <= i < entries.len() implies (#[trigger] entries[i]).0
        == hosts@[i].name@ && entries[i].1 == hosts@[i].ip@ by {}
    last_entry_counts(entries, host, at);
    if path.len() == 0 {
        assert(rest =~= authority);
    }
}

/// The private key of a config is read from the first 32 of the bytes that its text spells, so the
/// rendering of a key reads back as the key; fewer bytes, or no hexadecimal text, are no key.
pub proof fn private_keys_read_back(
    text: &str,
    key: Result<Vec<u8>, ConfigError>,
    bytes: Seq<u8>,
)
    requires
        call_ensures(decode_private_key, (text,), key),
    ensures
        text@ == crate::formatting::hex_text(bytes) && bytes.len() == 32 ==> (key matches Ok(key)
            && key@ == bytes),
        text@ == crate::formatting::hex_text(bytes) && bytes.len() < 32 ==> (key matches Err(error)
            && error@ is BadPrivateKey),
        crate::formatting::hex_bytes(text@) is None ==> (key matches Err(error) && error@
            == ConfigProblem::BadHex(HexField::PrivateKey)),
        key matches Ok(key) ==> key@.len() == 32,
{
    crate::formatting::hex_round_trip(bytes);
    assert(bytes.len() == 32 ==> bytes.take(32) =~= bytes);
}

/// An empty text is a node without a share, and any other is a share or an error.
pub proof fn empty_share_is_no_share(text: &str, share: Result<Option<Vec<u8>>, ConfigError>)
    requires
        call_ensures(decode_share_opt, (text,), share),
    ensures
        share == Ok::<Option<Vec<u8>>, ConfigError>(None) <==> text@.len() == 0,
        text@.len() > 0 && crate::formatting::hex_bytes(text@) is None ==> (share matches Err(error)
            && error@ == ConfigProblem::BadHex(HexField::DkgShare)),
{
}

/// Participants are the declared keys, in order, primaries and secondaries apart, and the node itself
/// is among them.
pub proof fn participants_are_declared(
    primary_hex: Vec<String>,
    secondary_hex: Vec<String>,
    self_key: Vec<u8>,
    primary: Vec<Vec<u8>>,
    secondary: Vec<Vec<u8>>,
    index: int,
)
    requires
        call_ensures(
            decode_participants,
            (&primary_hex, &secondary_hex, &self_key),
            Ok::<(Vec<Vec<u8>>, Vec<Vec<u8>>), ConfigError>((primary, secondary)),
        ),
    ensures
        primary@.len() == primary_hex@.len(),
        secondary@.len() == secondary_hex@.len(),
        0 <= index < primary@.len() ==> (crate::formatting::hex_bytes(
            primary_hex@[index]@,
        ) matches Some(bytes) && primary@[index]@ == bytes.take(32)),
        0 <= index < secondary@.len() ==> (crate::formatting::hex_bytes(
            secondary_hex@[index]@,
        ) matches Some(bytes) && secondary@[index]@ == bytes.take(32)),
        crate::keys::blobs(primary@).contains(self_key@) || crate::keys::blobs(
            secondary@,
        ).contains(self_key@),
{
    let left = crate::text::texts(primary_hex@);
    let right = crate::text::texts(secondary_hex@);
    decoded_keys_match(left, HexField::PrimaryValidators);
    decoded_keys_match(right, HexField::SecondaryValidators);
    assert(crate::keys::blobs(primary@).len() == primary@.len());
    assert(crate::keys::blobs(secondary@).len() == secondary@.len());
    if 0 <= index < primary@.len() {
        keys_are_decoded_in_order(left, HexField::PrimaryValidators, index);
        assert(left[index] == primary_hex@[index]@);
        assert(crate::keys::blobs(primary@)[index] == primary@[index]@);
    }
    if 0 <= index < secondary@.len() {
        keys_are_decoded_in_order(right, HexField::SecondaryValidators, index);
        assert(right[index] == secondary_hex@[index]@);
        assert(crate::keys::blobs(secondary@)[index] == secondary@[index]@);
    }
}

/// Resolving the URLs of a config changes nothing else in it: leaders keep their number, their order
/// and their keys, and each URL is resolved as [`resolve_named_http_url`] resolves it.
pub proof fn only_urls_are_resolved(
    config: ValidatorConfig,
    hosts: Vec<HostEntry>,
    resolved: ValidatorConfig,
    index: int,
    url: String,
)
    requires
        call_ensures(resolve_urls, (config, &hosts), resolved),
        config.relayer matches Some(relayer) && 0 <= index < relayer.leaders@.len()
            && call_ensures(
            resolve_named_http_url,
            (&relayer.leaders@[index].url, &hosts),
            url,
        ),
    ensures
        resolved.relayer matches Some(relayer) && {
            &&& relayer.leaders@.len() == config.relayer.unwrap().leaders@.len()
            &&& relayer.max_retry_views == config.relayer.unwrap().max_retry_views
            &&& relayer.leaders@[index].public_key == config.relayer.unwrap().leaders@[index].public_key
            &&& relayer.leaders@[index].url@ == url@
        },
        resolved.private_key == config.private_key,
        resolved.listen_port == config.listen_port,
        resolved.primary_validators == config.primary_validators,
        resolved.bootstrappers == config.bootstrappers,
        resolved.indexer is Some <==> config.indexer is Some,
{
    let relayer = resolved.relayer.unwrap();
    assert(
        leader_resolved(
            config.relayer.unwrap().leaders@[index],
            relayer.leaders@[index],
            hosts@,
        )
    );
}

/// Traces go to the configured endpoint, or to the local collector where none is configured, exactly
/// while the rate is above zero.
pub proof fn local_traces_go_to_collector(
    config: ValidatorConfig,
    otel: Option<(String, SamplingRate)>,
)
    requires
        call_ensures(local_otel, (&config,), otel),
    ensures
        otel is Some <==> config.traces.positive(),
        otel matches Some((endpoint, rate)) ==> {
            &&& rate == config.traces
            &&& config.otel_endpoint matches Some(configured) ==> endpoint@ == configured@
            &&& config.otel_endpoint is None ==> endpoint@ == "http://127.0.0.1:4318/v1/traces"@
        },
{
}

/// Why a config whose network is resolved is refused first: its limits do not nest. With limits that
/// do and keys that read, a relayer is refused on a voter, and next to an indexer.
pub proof fn limits_are_checked_first(
    config: ValidatorConfig,
    listen_advertise: NodeAddress,
    primary_participants: Vec<Vec<u8>>,
    secondary_participants: Vec<Vec<u8>>,
    bootstrappers: Vec<(Vec<u8>, NodeAddress)>,
    otel: Option<(String, SamplingRate)>,
    json_logs: bool,
    loaded: Result<LoadedConfig, ConfigError>,
)
    requires
        call_ensures(
            decode_with_network,
            (
                config,
                listen_advertise,
                primary_participants,
                secondary_participants,
                bootstrappers,
                otel,
                json_logs,
            ),
            loaded,
        ),
    ensures
        config.max_shard_bytes < config.max_propose_bytes <==> (loaded matches Err(error) && error@
            is ShardBelowPropose),
        config.max_shard_bytes >= config.max_propose_bytes && config.network_buffer_pool_max_bytes
            < config.max_shard_bytes <==> (loaded matches Err(error) && error@ is BufferBelowShard),
        (loaded matches Err(error) && error@ is RelayerOnPrimary) ==> config.relayer is Some
            && config.dkg_share@.len() > 0,
        (loaded matches Err(error) && error@ is RelayerWithIndexer) ==> config.relayer is Some
            && config.indexer is Some,
        config.relayer is Some && (config.indexer is Some || config.dkg_share@.len() > 0)
            ==> loaded is Err,
        loaded matches Ok(loaded) ==> {
            &&& loaded.decoded.listen_advertise == listen_advertise
            &&& loaded.decoded.primary_participants == primary_participants
            &&& loaded.decoded.secondary_participants == secondary_participants
            &&& loaded.decoded.bootstrappers == bootstrappers
            &&& loaded.json_logs == json_logs
            &&& loaded.deployer_managed == json_logs
        },
{
}

/// A node that its own config does not list, or that the peers file does not name, does not load.
pub proof fn strangers_do_not_load(
    peers: PeersFile,
    malformed: Vec<String>,
    config: ValidatorConfig,
    loaded: Result<LoadedConfig, ConfigError>,
    signer: Seq<u8>,
)
    requires
        call_ensures(load_local_config, (peers, &malformed, config), loaded),
        config.private_key@ == crate::formatting::hex_text(signer),
        signer.len() == 32,
    ensures
        (forall|i: int|
            0 <= i < all_peers(peers).len() ==> (#[trigger] all_peers(peers)[i]).name@
                != crate::formatting::hex_text(crate::keys::derived_public_key(signer)))
            ==> loaded is Err,
        loaded matches Ok(loaded) ==> {
            &&& loaded.decoded.public_key@ == crate::keys::derived_public_key(signer)
            &&& crate::keys::blobs(loaded.decoded.primary_participants@).contains(
                loaded.decoded.public_key@,
            ) || crate::keys::blobs(loaded.decoded.secondary_participants@).contains(
                loaded.decoded.public_key@,
            )
        },
{
    crate::formatting::hex_round_trip(signer);
    assert(signer.take(32) =~= signer);
    let book = peer_book(all_peers(peers), malformed@);
    let name = crate::formatting::hex_text(crate::keys::derived_public_key(signer));
    if forall|i: int|
        0 <= i < all_peers(peers).len() ==> (#[trigger] all_peers(peers)[i]).name@ != name {
        assert forall|i: int| 0 <= i < book.p2p.len() implies (#[trigger] book.p2p[i]).0 != name by {
            assert(book.p2p[i].0 == all_peers(peers)[i].name@);
        }
        last_entry_counts(book.p2p, name, 0);
    }
    if let Ok(loaded) = loaded {
        loaded_node_is_listed(loaded, config, book);
    }
}

} // verus!
