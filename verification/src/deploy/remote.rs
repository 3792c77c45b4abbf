//! Remote deployments: one instance per node, spread over regions, and shared services.

use crate::deploy::local::{join_path, number_text};
use crate::deploy::material::{default_bootstrappers, ClusterMaterial};
use crate::deploy::plan::{default_max_pool_bytes, default_max_propose_bytes};
use crate::formatting::hex;
use crate::text::{push_decimal, push_hexadecimal};
use crate::validator::config::{
    NamedBootstrapperEntry, RelayerLeaderConfig, StartupModeConfig,
};
use vstd::prelude::*;

verus! {

/// Blocks an indexer secondary buffers before upload.
pub const DEFAULT_INDEXER_UPLOAD_BUFFER: usize = 64;

/// What a secondary uploads.
#[derive(Debug, Clone, Copy, PartialEq, Eq, Structural)]
pub enum IndexerMode {
    Full,
    MetadataOnly,
}

/// The options of the generate command that a remote deployment is written from.
pub struct GenerateArgs {
    /// Number of primary (voting) validators.
    pub validators: u32,
    /// Number of secondary (non-voting) validators.
    pub secondaries: u32,
    /// Logging verbosity.
    pub log_level: String,
    /// Runtime worker threads per validator.
    pub worker_threads: usize,
    /// Verification threads per validator.
    pub rayon_threads: usize,
    /// Startup sync mode.
    pub startup: StartupModeConfig,
    /// Whether a spammer instance is created.
    pub spammer: bool,
    /// Whether a relayer instance is created.
    pub relayer: bool,
    /// Number of spam accounts.
    pub spammer_accounts: u32,
    /// Transfer value per spam transaction.
    pub spammer_value: u64,
    /// Seed offset for spam account keys.
    pub spammer_seed_offset: u64,
    /// Fractional account-count jitter per batch, as written on the command line.
    pub spammer_accounts_jitter: String,
}

/// The options that place a remote deployment.
pub struct RemoteArgs {
    /// Regions to spread validators across.
    pub regions: Vec<String>,
    /// Instance type of every node.
    pub instance_type: String,
    /// Volume size of every node in GiB.
    pub storage_size: i32,
    /// Instance type of the monitoring host.
    pub monitoring_instance_type: String,
    /// Volume size of the monitoring host in GiB.
    pub monitoring_storage_size: i32,
    /// p2p listen port.
    pub listen_port: u16,
    /// HTTP port.
    pub http_port: u16,
    /// Ranges allowed to reach the HTTP port.
    pub http_cidrs: Vec<String>,
    /// Whether secondaries upload everything.
    pub indexer: bool,
    /// Whether secondaries upload metadata only.
    pub indexer_metadata_only: bool,
    /// Port of the shared `chain-indexer` store.
    pub chain_indexer_port: u16,
    /// Port of the shared `metadata-indexer` service.
    pub metadata_indexer_port: u16,
    /// Whether validators are profiled.
    pub profiling: bool,
    /// Instance type of the spammer, if it differs.
    pub spammer_instance_type: Option<String>,
    /// Volume size of the spammer in GiB.
    pub spammer_storage_size: i32,
}

impl RemoteArgs {
    /// What secondaries upload, if anything.
    pub open spec fn mode(self) -> Option<IndexerMode> {
        if self.indexer_metadata_only {
            Some(IndexerMode::MetadataOnly)
        } else if self.indexer {
            Some(IndexerMode::Full)
        } else {
            None
        }
    }

    /// Returns what secondaries upload, if anything.
    pub fn indexer_mode(&self) -> (mode: Option<IndexerMode>)
        ensures
            mode == self.mode(),
    {
        if self.indexer_metadata_only {
            Some(IndexerMode::MetadataOnly)
        } else if self.indexer {
            Some(IndexerMode::Full)
        } else {
            None
        }
    }
}

/// Indexer wiring of a secondary.
#[derive(Debug, Clone)]
pub struct IndexerConfig {
    /// What is uploaded.
    pub mode: IndexerMode,
    /// URL of the shared store.
    pub chain_indexer_url: String,
    /// Blocks buffered before upload.
    pub upload_buffer: usize,
}

/// One node's configuration file.
pub struct ValidatorConfig {
    pub private_key: String,
    pub dkg_output: String,
    pub dkg_share: String,
    pub startup: StartupModeConfig,
    pub listen_port: u16,
    pub genesis_leader: String,
    pub partition_prefix: String,
    pub num_validators: u32,
    pub primary_validators: Vec<String>,
    pub secondary_validators: Vec<String>,
    pub log_level: String,
    pub worker_threads: usize,
    pub rayon_threads: usize,
    pub http_port: u16,
    pub metrics_port: u16,
    pub max_propose_bytes: usize,
    pub max_pool_bytes: usize,
    pub bootstrappers: Vec<NamedBootstrapperEntry>,
    pub indexer: Option<IndexerConfig>,
}

/// A generated node.
pub struct GeneratedValidator {
    /// Hex-encoded public key, which names the instance.
    pub public_key_hex: String,
    /// Name of the config file.
    pub config_name: String,
    /// Path of the config file.
    pub config_file: String,
    /// The config.
    pub config: ValidatorConfig,
}

/// Standalone relayer configuration.
pub struct RelayerConfig {
    /// Socket address that the relayer binds.
    pub listen: String,
    /// Leaders to forward a batch to; all of them when unset.
    pub leader_fanout: Option<usize>,
    /// Per-leader endpoints.
    pub leaders: Vec<RelayerLeaderConfig>,
}

/// Spammer configuration.
pub struct SpammerConfig {
    pub accounts: u32,
    pub value: u64,
    pub seed_offset: u64,
    pub http_port: u16,
    pub relayer_url: Option<String>,
    pub relayer_submitters: usize,
    pub primary_validators: Vec<String>,
    pub accounts_jitter: String,
}

/// Configuration of the shared `chain-indexer` store.
pub struct ChainIndexerConfig {
    pub port: u16,
    pub data_dir: String,
}

/// Configuration of the shared `metadata-indexer` service.
pub struct MetadataIndexerConfig {
    pub port: u16,
    pub chain_indexer_url: String,
}

/// An instance to create.
pub struct InstanceConfig {
    pub name: String,
    pub region: String,
    pub instance_type: String,
    pub storage_size: i32,
    pub storage_class: String,
    pub storage_iops: Option<i32>,
    pub binary: String,
    pub config: String,
    pub profiling: bool,
}

/// What an [`InstanceConfig`] says.
pub struct InstanceView {
    pub name: Seq<char>,
    pub region: Seq<char>,
    pub instance_type: Seq<char>,
    pub storage_size: i32,
    pub storage_class: Seq<char>,
    pub storage_iops: Option<i32>,
    pub binary: Seq<char>,
    pub config: Seq<char>,
    pub profiling: bool,
}

impl View for InstanceConfig {
    type V = InstanceView;

    open spec fn view(&self) -> InstanceView {
        InstanceView {
            name: self.name@,
            region: self.region@,
            instance_type: self.instance_type@,
            storage_size: self.storage_size,
            storage_class: self.storage_class@,
            storage_iops: self.storage_iops,
            binary: self.binary@,
            config: self.config@,
            profiling: self.profiling,
        }
    }
}

/// The monitoring host to create.
pub struct MonitoringConfig {
    pub instance_type: String,
    pub storage_size: i32,
    pub storage_class: String,
    pub storage_iops: Option<i32>,
    pub dashboard: String,
}

/// A port to open.
pub struct PortConfig {
    pub protocol: String,
    pub port: u16,
    pub cidr: String,
}

/// A full description of the instances to create.
pub struct DeployerConfig {
    pub tag: String,
    pub monitoring: MonitoringConfig,
    pub instances: Vec<InstanceConfig>,
    pub ports: Vec<PortConfig>,
}

/// Why a remote deployment is rejected.
#[derive(Debug, Clone, Copy, PartialEq, Eq, Structural)]
pub enum RemoteError {
    /// There is no validator.
    NoValidators,
    /// There is no region.
    NoRegions,
    /// Some region would have no validator.
    TooManyRegions,
    /// Indexers were asked for, but nothing would upload to them.
    IndexerNeedsSecondary,
    /// A primary validator has no share.
    MissingShare,
}

/// Why the options are rejected, if they are.
pub open spec fn remote_rejection(args: GenerateArgs, remote: RemoteArgs) -> Option<RemoteError> {
    if args.validators < 1 {
        Some(RemoteError::NoValidators)
    } else if remote.regions@.len() == 0 {
        Some(RemoteError::NoRegions)
    } else if remote.regions@.len() > args.validators {
        Some(RemoteError::TooManyRegions)
    } else if remote.mode() is Some && args.secondaries < 1 {
        Some(RemoteError::IndexerNeedsSecondary)
    } else {
        None
    }
}

/// Checks the options of a remote deployment.
pub fn validate_remote_args(args: &GenerateArgs, remote: &RemoteArgs) -> (verdict: Result<
    (),
    RemoteError,
>)
    ensures
        match verdict {
            Ok(()) => remote_rejection(*args, *remote) is None,
            Err(error) => remote_rejection(*args, *remote) == Some(error),
        },
{
    if args.validators < 1 {
        return Err(RemoteError::NoValidators);
    }
    if remote.regions.len() == 0 {
        return Err(RemoteError::NoRegions);
    }
    if remote.regions.len() as u64 > args.validators as u64 {
        return Err(RemoteError::TooManyRegions);
    }
    if remote.indexer_mode().is_some() && args.secondaries < 1 {
        return Err(RemoteError::IndexerNeedsSecondary);
    }
    Ok(())
}

/// Returns whether the deployment has a relayer.
pub fn relayer_enabled(args: &GenerateArgs) -> (enabled: bool)
    ensures
        enabled == args.relayer,
{
    args.relayer
}

/// Whether a config holds what every node of the deployment has in common.
pub open spec fn common_config(
    config: ValidatorConfig,
    args: GenerateArgs,
    remote: RemoteArgs,
    material: ClusterMaterial,
    metrics_port: u16,
) -> bool {
    &&& config.dkg_output@ == crate::formatting::hex_text(material.dealing.output@)
    &&& config.startup == args.startup
    &&& config.listen_port == remote.listen_port
    &&& config.genesis_leader == material.genesis_leader
    &&& config.num_validators == args.validators
    &&& crate::text::texts(config.primary_validators@) == crate::deploy::material::hex_texts(
        material.public_keys@,
    )
    &&& crate::text::texts(config.secondary_validators@) == crate::deploy::material::hex_texts(
        material.secondary_public_keys@,
    )
    &&& config.log_level == args.log_level
    &&& config.worker_threads == args.worker_threads
    &&& config.rayon_threads == args.rayon_threads
    &&& config.http_port == remote.http_port
    &&& config.metrics_port == metrics_port
    &&& config.max_propose_bytes == 8 * 1024 * 1024
    &&& config.max_pool_bytes == 64 * 1024 * 1024
    &&& crate::deploy::material::bootstraps(config.bootstrappers@, material.public_keys@)
}

/// Whether a node is named and filed after `key`.
pub open spec fn filed_under(
    node: GeneratedValidator,
    key: Seq<u8>,
    output_dir: Seq<char>,
) -> bool {
    &&& node.public_key_hex@ == crate::formatting::hex_text(key)
    &&& node.config_name@ == crate::formatting::hex_text(key) + ".yaml"@
    &&& node.config_file@ == crate::deploy::local::joined_path(output_dir, node.config_name@)
}

/// Whether a node is the primary validator at `index`.
pub open spec fn is_primary(
    node: GeneratedValidator,
    args: GenerateArgs,
    remote: RemoteArgs,
    output_dir: Seq<char>,
    material: ClusterMaterial,
    metrics_port: u16,
    index: int,
) -> bool {
    let key = material.public_keys@[index]@;
    &&& filed_under(node, key, output_dir)
    &&& common_config(node.config, args, remote, material, metrics_port)
    &&& node.config.private_key@ == crate::formatting::hex_text(material.signers@[index]@)
    &&& material.share_position(key) is Some
    &&& node.config.dkg_share@ == crate::formatting::hex_text(
        material.dealing.shares@[material.share_position(key).unwrap()].1@,
    )
    &&& node.config.partition_prefix@ == crate::deploy::local::numbered(
        "validator-"@,
        index as nat,
        ""@,
    )
    &&& node.config.indexer is None
}

/// Whether a node is the secondary at `index`.
pub open spec fn is_secondary(
    node: GeneratedValidator,
    args: GenerateArgs,
    remote: RemoteArgs,
    output_dir: Seq<char>,
    material: ClusterMaterial,
    metrics_port: u16,
    index: int,
) -> bool {
    &&& filed_under(node, material.secondary_public_keys@[index]@, output_dir)
    &&& common_config(node.config, args, remote, material, metrics_port)
    &&& node.config.private_key@ == crate::formatting::hex_text(
        material.secondary_signers@[index]@,
    )
    &&& node.config.dkg_share@.len() == 0
    &&& node.config.partition_prefix@ == crate::deploy::local::numbered(
        "secondary-"@,
        index as nat,
        ""@,
    )
    &&& match remote.mode() {
        None => node.config.indexer is None,
        Some(mode) => node.config.indexer matches Some(indexer) && wires(
            indexer,
            mode,
            remote.chain_indexer_port,
        ),
    }
}

/// The URL of the shared store.
pub open spec fn store_url(port: u16) -> Seq<char> {
    "http://chain-indexer:"@ + crate::text::decimal(port as nat)
}

/// Whether indexer wiring uploads what `mode` says to the shared store.
pub open spec fn wires(config: IndexerConfig, mode: IndexerMode, port: u16) -> bool {
    &&& config.mode == mode
    &&& config.chain_indexer_url@ == store_url(port)
    &&& config.upload_buffer == DEFAULT_INDEXER_UPLOAD_BUFFER
}

/// Returns the indexer wiring of the secondaries.
pub fn remote_indexer_config(mode: IndexerMode, port: u16) -> (config: IndexerConfig)
    ensures
        wires(config, mode, port),
{
    let mut url = "http://chain-indexer:".to_string();
    push_decimal(&mut url, port as u64);
    IndexerConfig { mode, chain_indexer_url: url, upload_buffer: DEFAULT_INDEXER_UPLOAD_BUFFER }
}

/// A node's own part of its config.
struct NodePart {
    private_key: String,
    dkg_share: String,
    partition_prefix: String,
    indexer: Option<IndexerConfig>,
}

fn generate_node(
    args: &GenerateArgs,
    remote: &RemoteArgs,
    output_dir: &str,
    material: &ClusterMaterial,
    metrics_port: u16,
    key: &Vec<u8>,
    part: NodePart,
) -> (node: GeneratedValidator)
    ensures
        filed_under(node, key@, output_dir@),
        common_config(node.config, *args, *remote, *material, metrics_port),
        node.config.private_key == part.private_key,
        node.config.dkg_share == part.dkg_share,
        node.config.partition_prefix == part.partition_prefix,
        node.config.indexer == part.indexer,
{
    let config = ValidatorConfig {
        private_key: part.private_key,
        dkg_output: hex(material.dealing.output.as_slice()),
        dkg_share: part.dkg_share,
        startup: args.startup,
        listen_port: remote.listen_port,
        genesis_leader: material.genesis_leader.clone(),
        partition_prefix: part.partition_prefix,
        num_validators: args.validators,
        primary_validators: material.primary_hex(),
        secondary_validators: material.secondary_hex(),
        log_level: args.log_level.clone(),
        worker_threads: args.worker_threads,
        rayon_threads: args.rayon_threads,
        http_port: remote.http_port,
        metrics_port,
        max_propose_bytes: default_max_propose_bytes(),
        max_pool_bytes: default_max_pool_bytes(),
        bootstrappers: default_bootstrappers(&material.public_keys),
        indexer: part.indexer,
    };
    let public_key_hex = hex(key.as_slice());
    let mut config_name = public_key_hex.clone();
    config_name.append(".yaml");
    let config_file = join_path(output_dir, config_name.as_str());
    GeneratedValidator { public_key_hex, config_name, config_file, config }
}

/// Generates the primary validators.
pub fn build_validators(
    args: &GenerateArgs,
    remote: &RemoteArgs,
    output_dir: &str,
    material: &ClusterMaterial,
    metrics_port: u16,
) -> (nodes: Result<Vec<GeneratedValidator>, RemoteError>)
    requires
        material.public_keys@.len() >= args.validators,
        material.signers@.len() >= args.validators,
    ensures
        match nodes {
            Ok(nodes) => {
                &&& nodes@.len() == args.validators
                &&& forall|i: int|
                    0 <= i < args.validators ==> is_primary(
                        #[trigger] nodes@[i],
                        *args,
                        *remote,
                        output_dir@,
                        *material,
                        metrics_port,
                        i,
                    )
            },
            Err(error) => {
                &&& error == RemoteError::MissingShare
                &&& exists|i: int|
                    0 <= i < args.validators && material.share_position(
                        (#[trigger] material.public_keys@[i])@,
                    ) is None
            },
        },
{
    let mut nodes: Vec<GeneratedValidator> = Vec::new();
    let mut index: u32 = 0;
    while index < args.validators
        invariant
            index <= args.validators,
            material.public_keys@.len() >= args.validators,
            material.signers@.len() >= args.validators,
            nodes@.len() == index,
            forall|i: int|
                0 <= i < index ==> is_primary(
                    #[trigger] nodes@[i],
                    *args,
                    *remote,
                    output_dir@,
                    *material,
                    metrics_port,
                    i,
                ),
        decreases args.validators - index,
    {
        let public_key = &material.public_keys[index as usize];
        let share = match material.share_for(public_key) {
            Some(share) => share,
            None => {
                assert(material.share_position(material.public_keys@[index as int]@) is None);
                return Err(RemoteError::MissingShare);
            },
        };
        let node = generate_node(
            args,
            remote,
            output_dir,
            material,
            metrics_port,
            public_key,
            NodePart {
                private_key: hex(material.signers[index as usize].as_slice()),
                dkg_share: hex(share.as_slice()),
                partition_prefix: number_text("validator-", index as u64, ""),
                indexer: None,
            },
        );
        nodes.push(node);
        index += 1;
    }
    Ok(nodes)
}

/// Generates the secondaries.
pub fn build_secondaries(
    args: &GenerateArgs,
    remote: &RemoteArgs,
    output_dir: &str,
    material: &ClusterMaterial,
    metrics_port: u16,
) -> (nodes: Vec<GeneratedValidator>)
    requires
        material.secondary_public_keys@.len() >= args.secondaries,
        material.secondary_signers@.len() >= args.secondaries,
    ensures
        nodes@.len() == args.secondaries,
        forall|i: int|
            0 <= i < args.secondaries ==> is_secondary(
                #[trigger] nodes@[i],
                *args,
                *remote,
                output_dir@,
                *material,
                metrics_port,
                i,
            ),
{
    let mut nodes: Vec<GeneratedValidator> = Vec::new();
    let mut index: u32 = 0;
    while index < args.secondaries
        invariant
            index <= args.secondaries,
            material.secondary_public_keys@.len() >= args.secondaries,
            material.secondary_signers@.len() >= args.secondaries,
            nodes@.len() == index,
            forall|i: int|
                0 <= i < index ==> is_secondary(
                    #[trigger] nodes@[i],
                    *args,
                    *remote,
                    output_dir@,
                    *material,
                    metrics_port,
                    i,
                ),
        decreases args.secondaries - index,
    {
        let indexer = match remote.indexer_mode() {
            Some(mode) => Some(remote_indexer_config(mode, remote.chain_indexer_port)),
            None => None,
        };
        let node = generate_node(
            args,
            remote,
            output_dir,
            material,
            metrics_port,
            &material.secondary_public_keys[index as usize],
            NodePart {
                private_key: hex(material.secondary_signers[index as usize].as_slice()),
                dkg_share: String::new(),
                partition_prefix: number_text("secondary-", index as u64, ""),
                indexer,
            },
        );
        nodes.push(node);
        index += 1;
    }
    nodes
}

/// Whether a relayer configuration submits to every primary by its host name.
pub open spec fn relays_to_primaries(
    config: RelayerConfig,
    remote: RemoteArgs,
    material: ClusterMaterial,
) -> bool {
    &&& config.listen@ == "0.0.0.0:"@ + crate::text::decimal(remote.http_port as nat)
    &&& config.leader_fanout is None
    &&& config.leaders@.len() == material.public_keys@.len()
    &&& forall|i: int|
        0 <= i < config.leaders@.len() ==> {
            let name = crate::formatting::hex_text(material.public_keys@[i]@);
            &&& (#[trigger] config.leaders@[i]).public_key@ == name
            &&& config.leaders@[i].url@ == "http://"@ + name + ":"@ + crate::text::decimal(
                remote.http_port as nat,
            )
        }
}

/// Returns the configuration of the relayer instance.
pub fn remote_relayer_config(remote: &RemoteArgs, material: &ClusterMaterial) -> (config:
    RelayerConfig)
    ensures
        relays_to_primaries(config, *remote, *material),
{
    let mut leaders: Vec<RelayerLeaderConfig> = Vec::new();
    let mut i: usize = 0;
    while i < material.public_keys.len()
        invariant
            i <= material.public_keys@.len(),
            leaders@.len() == i,
            forall|j: int|
                0 <= j < i ==> {
                    let name = crate::formatting::hex_text(material.public_keys@[j]@);
                    &&& (#[trigger] leaders@[j]).public_key@ == name
                    &&& leaders@[j].url@ == "http://"@ + name + ":"@ + crate::text::decimal(
                        remote.http_port as nat,
                    )
                },
        decreases material.public_keys.len() - i,
    {
        let public_key = hex(material.public_keys[i].as_slice());
        let mut url = "http://".to_string();
        url.append(public_key.as_str());
        url.append(":");
        push_decimal(&mut url, remote.http_port as u64);
        leaders.push(RelayerLeaderConfig { public_key, url });
        i += 1;
    }
    let mut listen = "0.0.0.0:".to_string();
    push_decimal(&mut listen, remote.http_port as u64);
    RelayerConfig { listen, leader_fanout: None, leaders }
}

/// Whether a spammer configuration drives the deployment, through the relayer if there is one.
pub open spec fn spams(
    config: SpammerConfig,
    args: GenerateArgs,
    remote: RemoteArgs,
    material: ClusterMaterial,
) -> bool {
    &&& config.accounts == args.spammer_accounts
    &&& config.value == args.spammer_value
    &&& config.seed_offset == args.spammer_seed_offset
    &&& config.http_port == remote.http_port
    &&& match config.relayer_url {
        Some(url) => args.relayer && url@ == "http://relayer:"@ + crate::text::decimal(
            remote.http_port as nat,
        ),
        None => !args.relayer,
    }
    &&& args.relayer ==> config.relayer_submitters == args.validators
    &&& !args.relayer ==> config.relayer_submitters == 0
    &&& crate::text::texts(config.primary_validators@) == crate::deploy::material::hex_texts(
        material.public_keys@,
    )
    &&& config.accounts_jitter == args.spammer_accounts_jitter
}

/// Returns the configuration of the spammer instance.
pub fn remote_spammer_config(
    args: &GenerateArgs,
    remote: &RemoteArgs,
    material: &ClusterMaterial,
) -> (config: SpammerConfig)
    ensures
        spams(config, *args, *remote, *material),
{
    let relayer_url = if relayer_enabled(args) {
        let mut url = "http://relayer:".to_string();
        push_decimal(&mut url, remote.http_port as u64);
        Some(url)
    } else {
        None
    };
    SpammerConfig {
        accounts: args.spammer_accounts,
        value: args.spammer_value,
        seed_offset: args.spammer_seed_offset,
        http_port: remote.http_port,
        relayer_url,
        relayer_submitters: if relayer_enabled(args) { args.validators as usize } else { 0 },
        primary_validators: material.primary_hex(),
        accounts_jitter: args.spammer_accounts_jitter.clone(),
    }
}

/// Returns the configuration of the shared store, if there is one.
pub fn chain_indexer_config(remote: &RemoteArgs) -> (config: Option<ChainIndexerConfig>)
    ensures
        match config {
            Some(config) => remote.mode() is Some && config.port == remote.chain_indexer_port
                && config.data_dir@ == "chain-indexer"@,
            None => remote.mode() is None,
        },
{
    if remote.indexer_mode().is_some() {
        Some(
            ChainIndexerConfig {
                port: remote.chain_indexer_port,
                data_dir: "chain-indexer".to_string(),
            },
        )
    } else {
        None
    }
}

/// Returns the configuration of the shared metadata service, if there is one.
pub fn metadata_indexer_config(remote: &RemoteArgs) -> (config: Option<MetadataIndexerConfig>)
    ensures
        match config {
            Some(config) => remote.mode() is Some && config.port == remote.metadata_indexer_port
                && config.chain_indexer_url@ == store_url(remote.chain_indexer_port),
            None => remote.mode() is None,
        },
{
    if remote.indexer_mode().is_some() {
        let mut url = "http://chain-indexer:".to_string();
        push_decimal(&mut url, remote.chain_indexer_port as u64);
        Some(MetadataIndexerConfig { port: remote.metadata_indexer_port, chain_indexer_url: url })
    } else {
        None
    }
}

/// The instance of the node at `index` of its list.
pub open spec fn node_instance(
    remote: RemoteArgs,
    binary: Seq<char>,
    node: GeneratedValidator,
    index: int,
) -> InstanceView {
    InstanceView {
        name: node.public_key_hex@,
        region: remote.regions@[index % remote.regions@.len() as int]@,
        instance_type: remote.instance_type@,
        storage_size: remote.storage_size,
        storage_class: "gp3"@,
        storage_iops: None,
        binary,
        config: node.config_name@,
        profiling: remote.profiling,
    }
}

/// The instance of a shared service in the first region.
pub open spec fn service_instance(
    remote: RemoteArgs,
    name: Seq<char>,
    instance_type: Seq<char>,
    storage_size: i32,
    binary: Seq<char>,
    config: Seq<char>,
) -> InstanceView {
    InstanceView {
        name,
        region: remote.regions@[0]@,
        instance_type,
        storage_size,
        storage_class: "gp3"@,
        storage_iops: None,
        binary,
        config,
        profiling: false,
    }
}

/// The instances of a list of nodes.
pub open spec fn node_instances(
    remote: RemoteArgs,
    binary: Seq<char>,
    nodes: Seq<GeneratedValidator>,
) -> Seq<InstanceView> {
    Seq::new(nodes.len(), |i: int| node_instance(remote, binary, nodes[i], i))
}

/// The instances of the shared indexer services.
pub open spec fn indexer_instances(remote: RemoteArgs) -> Seq<InstanceView> {
    if remote.mode() is Some {
        seq![
            service_instance(
                remote,
                "chain-indexer"@,
                remote.instance_type@,
                remote.storage_size,
                "chain-indexer"@,
                "chain-indexer.yaml"@,
            ),
            service_instance(
                remote,
                "metadata-indexer"@,
                remote.instance_type@,
                remote.storage_size,
                "metadata-indexer"@,
                "metadata-indexer.yaml"@,
            ),
        ]
    } else {
        seq![]
    }
}

/// The instance of the spammer.
pub open spec fn spammer_instances(args: GenerateArgs, remote: RemoteArgs) -> Seq<InstanceView> {
    if args.spammer {
        seq![
            service_instance(
                remote,
                "spammer"@,
                match remote.spammer_instance_type {
                    Some(instance_type) => instance_type@,
                    None => remote.instance_type@,
                },
                remote.spammer_storage_size,
                "spammer"@,
                "spammer.yaml"@,
            ),
        ]
    } else {
        seq![]
    }
}

/// The instance of the relayer.
pub open spec fn relayer_instances(args: GenerateArgs, remote: RemoteArgs) -> Seq<InstanceView> {
    if args.relayer {
        seq![
            service_instance(
                remote,
                "relayer"@,
                remote.instance_type@,
                remote.storage_size,
                "relayer"@,
                "relayer.yaml"@,
            ),
        ]
    } else {
        seq![]
    }
}

/// All instances of a deployment, in order.
pub open spec fn all_instances(
    args: GenerateArgs,
    remote: RemoteArgs,
    binary: Seq<char>,
    validators: Seq<GeneratedValidator>,
    secondaries: Seq<GeneratedValidator>,
) -> Seq<InstanceView> {
    node_instances(remote, binary, validators) + node_instances(remote, binary, secondaries)
        + indexer_instances(remote) + spammer_instances(args, remote) + relayer_instances(
        args,
        remote,
    )
}

/// What a list of instances says.
pub open spec fn instance_views(instances: Seq<InstanceConfig>) -> Seq<InstanceView> {
    Seq::new(instances.len(), |i: int| instances[i]@)
}

fn push_nodes(
    instances: &mut Vec<InstanceConfig>,
    remote: &RemoteArgs,
    binary: &str,
    nodes: &Vec<GeneratedValidator>,
)
    requires
        remote.regions@.len() > 0,
    ensures
        instance_views(final(instances)@) == instance_views(old(instances)@) + node_instances(
            *remote,
            binary@,
            nodes@,
        ),
{
    let ghost before = instance_views(instances@);
    let ghost all = node_instances(*remote, binary@, nodes@);
    let mut index: usize = 0;
    proof {
        assert(instance_views(instances@) =~= before + all.take(0));
    }
    while index < nodes.len()
        invariant
            index <= nodes.len(),
            remote.regions@.len() > 0,
            all == node_instances(*remote, binary@, nodes@),
            instance_views(instances@) == before + all.take(index as int),
        decreases nodes.len() - index,
    {
        let node = &nodes[index];
        let ghost so_far = instance_views(instances@);
        let instance = InstanceConfig {
            name: node.public_key_hex.clone(),
            region: remote.regions[index % remote.regions.len()].clone(),
            instance_type: remote.instance_type.clone(),
            storage_size: remote.storage_size,
            storage_class: "gp3".to_string(),
            storage_iops: None,
            binary: binary.to_string(),
            config: node.config_name.clone(),
            profiling: remote.profiling,
        };
        proof {
            assert(instance@ == all[index as int]);
        }
        instances.push(instance);
        proof {
            assert(instance_views(instances@) =~= so_far.push(all[index as int]));
            assert(before + all.take(index + 1) =~= (before + all.take(index as int)).push(
                all[index as int],
            ));
        }
        index += 1;
    }
    proof {
        assert(all.take(index as int) =~= all);
    }
}

fn service(
    remote: &RemoteArgs,
    name: &str,
    instance_type: &str,
    storage_size: i32,
    config: &str,
) -> (instance: InstanceConfig)
    requires
        remote.regions@.len() > 0,
    ensures
        instance@ == service_instance(
            *remote,
            name@,
            instance_type@,
            storage_size,
            name@,
            config@,
        ),
{
    InstanceConfig {
        name: name.to_string(),
        region: remote.regions[0].clone(),
        instance_type: instance_type.to_string(),
        storage_size,
        storage_class: "gp3".to_string(),
        storage_iops: None,
        binary: name.to_string(),
        config: config.to_string(),
        profiling: false,
    }
}

/// Whether a monitoring host is the one that the options ask for.
pub open spec fn monitors(
    monitoring: MonitoringConfig,
    remote: RemoteArgs,
    dashboard: Seq<char>,
) -> bool {
    &&& monitoring.instance_type == remote.monitoring_instance_type
    &&& monitoring.storage_size == remote.monitoring_storage_size
    &&& monitoring.storage_class@ == "gp3"@
    &&& monitoring.storage_iops is None
    &&& monitoring.dashboard@ == dashboard
}

/// Describes the instances of a deployment: validators and secondaries spread over the regions
/// independently, and shared services in the first region.
pub fn build_deployer_config(
    args: &GenerateArgs,
    remote: &RemoteArgs,
    validator_binary: &str,
    dashboard: &str,
    tag: String,
    validators: &Vec<GeneratedValidator>,
    secondaries: &Vec<GeneratedValidator>,
) -> (config: DeployerConfig)
    requires
        remote.regions@.len() > 0,
    ensures
        config.tag == tag,
        monitors(config.monitoring, *remote, dashboard@),
        instance_views(config.instances@) == all_instances(
            *args,
            *remote,
            validator_binary@,
            validators@,
            secondaries@,
        ),
        port_views(config.ports@) == open_ports(*remote),
{
    let mut instances: Vec<InstanceConfig> = Vec::new();
    push_nodes(&mut instances, remote, validator_binary, validators);
    let ghost first = instance_views(instances@);
    proof {
        assert(first =~= node_instances(*remote, validator_binary@, validators@));
    }
    push_nodes(&mut instances, remote, validator_binary, secondaries);
    let ghost nodes = instance_views(instances@);
    if remote.indexer_mode().is_some() {
        instances.push(
            service(
                remote,
                "chain-indexer",
                remote.instance_type.as_str(),
                remote.storage_size,
                "chain-indexer.yaml",
            ),
        );
        instances.push(
            service(
                remote,
                "metadata-indexer",
                remote.instance_type.as_str(),
                remote.storage_size,
                "metadata-indexer.yaml",
            ),
        );
    }
    let ghost indexed = instance_views(instances@);
    proof {
        assert(indexed =~= nodes + indexer_instances(*remote));
    }
    if args.spammer {
        let instance_type = match &remote.spammer_instance_type {
            Some(instance_type) => instance_type.as_str(),
            None => remote.instance_type.as_str(),
        };
        instances.push(
            service(
                remote,
                "spammer",
                instance_type,
                remote.spammer_storage_size,
                "spammer.yaml",
            ),
        );
    }
    let ghost spammed = instance_views(instances@);
    proof {
        assert(spammed =~= indexed + spammer_instances(*args, *remote));
    }
    if relayer_enabled(args) {
        instances.push(
            service(
                remote,
                "relayer",
                remote.instance_type.as_str(),
                remote.storage_size,
                "relayer.yaml",
            ),
        );
    }
    proof {
        assert(instance_views(instances@) =~= spammed + relayer_instances(*args, *remote));
    }
    DeployerConfig {
        tag,
        monitoring: MonitoringConfig {
            instance_type: remote.monitoring_instance_type.clone(),
            storage_size: remote.monitoring_storage_size,
            storage_class: "gp3".to_string(),
            storage_iops: None,
            dashboard: dashboard.to_string(),
        },
        instances,
        ports: port_configs(remote),
    }
}

/// What a list of ports says: the protocol, the port, and the range it is open to.
pub open spec fn port_views(ports: Seq<PortConfig>) -> Seq<(Seq<char>, u16, Seq<char>)> {
    Seq::new(ports.len(), |i: int| (ports[i].protocol@, ports[i].port, ports[i].cidr@))
}

/// The ports a deployment opens: p2p and the shared services to everyone, HTTP to the named ranges.
pub open spec fn open_ports(remote: RemoteArgs) -> Seq<(Seq<char>, u16, Seq<char>)> {
    seq![("tcp"@, remote.listen_port, "0.0.0.0/0"@)] + (if remote.mode() is Some {
        seq![
            ("tcp"@, remote.chain_indexer_port, "0.0.0.0/0"@),
            ("tcp"@, remote.metadata_indexer_port, "0.0.0.0/0"@),
        ]
    } else {
        seq![]
    }) + Seq::new(
        remote.http_cidrs@.len(),
        |i: int| ("tcp"@, remote.http_port, remote.http_cidrs@[i]@),
    )
}

fn tcp(port: u16, cidr: &str) -> (config: PortConfig)
    ensures
        config.protocol@ == "tcp"@,
        config.port == port,
        config.cidr@ == cidr@,
{
    PortConfig { protocol: "tcp".to_string(), port, cidr: cidr.to_string() }
}

/// Lists the ports a deployment opens.
pub fn port_configs(remote: &RemoteArgs) -> (ports: Vec<PortConfig>)
    ensures
        port_views(ports@) == open_ports(*remote),
{
    let mut ports: Vec<PortConfig> = Vec::new();
    ports.push(tcp(remote.listen_port, "0.0.0.0/0"));
    if remote.indexer_mode().is_some() {
        ports.push(tcp(remote.chain_indexer_port, "0.0.0.0/0"));
        ports.push(tcp(remote.metadata_indexer_port, "0.0.0.0/0"));
    }
    let ghost before = port_views(ports@);
    let ghost http = Seq::new(
        remote.http_cidrs@.len(),
        |i: int| ("tcp"@, remote.http_port, remote.http_cidrs@[i]@),
    );
    proof {
        assert(before + http =~= open_ports(*remote));
        assert(port_views(ports@) =~= before + http.take(0));
    }
    let mut i: usize = 0;
    while i < remote.http_cidrs.len()
        invariant
            i <= remote.http_cidrs@.len(),
            http == Seq::new(
                remote.http_cidrs@.len(),
                |i: int| ("tcp"@, remote.http_port, remote.http_cidrs@[i]@),
            ),
            port_views(ports@) == before + http.take(i as int),
        decreases remote.http_cidrs.len() - i,
    {
        let ghost so_far = port_views(ports@);
        ports.push(tcp(remote.http_port, remote.http_cidrs[i].as_str()));
        proof {
            assert(port_views(ports@) =~= so_far.push(http[i as int]));
            assert(before + http.take(i + 1) =~= (before + http.take(i as int)).push(
                http[i as int],
            ));
        }
        i += 1;
    }
    proof {
        assert(http.take(i as int) =~= http);
    }
    ports
}

/// The HTTP port is open to the named ranges and to nothing else, unless it is the port of another
/// open service.
pub proof fn http_is_open_only_to_named_ranges(remote: RemoteArgs, at: int)
    requires
        0 <= at < open_ports(remote).len(),
        open_ports(remote)[at].1 == remote.http_port,
        remote.http_port != remote.listen_port,
        remote.mode() is Some ==> remote.http_port != remote.chain_indexer_port
            && remote.http_port != remote.metadata_indexer_port,
    ensures
        exists|i: int|
            0 <= i < remote.http_cidrs@.len() && open_ports(remote)[at].2
                == (#[trigger] remote.http_cidrs@[i])@,
{
    let fixed = if remote.mode() is Some {
        3int
    } else {
        1int
    };
    assert(open_ports(remote)[at].2 == remote.http_cidrs@[at - fixed]@);
}

/// With as many validators as regions, every region holds a validator.
pub proof fn every_region_holds_a_validator(
    args: GenerateArgs,
    remote: RemoteArgs,
    binary: Seq<char>,
    validators: Seq<GeneratedValidator>,
    region: int,
)
    requires
        remote_rejection(args, remote) is None,
        validators.len() == args.validators,
        0 <= region < remote.regions@.len(),
    ensures
        node_instances(remote, binary, validators)[region].region == remote.regions@[region]@,
{
    vstd::arithmetic::div_mod::lemma_small_mod(region as nat, remote.regions@.len());
}

/// The tag of a deployment made at `timestamp` by process `process_id`.
pub open spec fn tag_text(timestamp: u128, process_id: u32) -> Seq<char> {
    crate::text::hexadecimal(timestamp as nat) + "-"@ + crate::text::hexadecimal(process_id as nat)
}

/// Returns the tag of a deployment made at `timestamp` by process `process_id`.
pub fn generate_deployer_tag(timestamp: u128, process_id: u32) -> (tag: String)
    ensures
        tag@ == tag_text(timestamp, process_id),
{
    let mut tag = String::new();
    push_hexadecimal(&mut tag, timestamp);
    tag.append("-");
    push_hexadecimal(&mut tag, process_id as u128);
    proof {
        assert(tag@ =~= tag_text(timestamp, process_id));
    }
    tag
}

/// A remote deployment, ready to be written.
pub struct RemoteBundle {
    pub validators: Vec<GeneratedValidator>,
    pub secondaries: Vec<GeneratedValidator>,
    pub chain_indexer: Option<ChainIndexerConfig>,
    pub metadata_indexer: Option<MetadataIndexerConfig>,
    pub relayer: Option<RelayerConfig>,
    pub spammer: Option<SpammerConfig>,
    pub deployer: DeployerConfig,
    pub binaries: Vec<String>,
    pub create_command: String,
}

/// The binaries that the operator builds before creating a deployment.
pub open spec fn binary_paths(
    args: GenerateArgs,
    remote: RemoteArgs,
    output_dir: Seq<char>,
) -> Seq<Seq<char>> {
    seq![crate::deploy::local::joined_path(output_dir, "validator"@)] + (if remote.mode() is Some {
        seq![
            crate::deploy::local::joined_path(output_dir, "chain-indexer"@),
            crate::deploy::local::joined_path(output_dir, "metadata-indexer"@),
        ]
    } else {
        seq![]
    }) + (if args.relayer {
        seq![crate::deploy::local::joined_path(output_dir, "relayer"@)]
    } else {
        seq![]
    }) + (if args.spammer {
        seq![crate::deploy::local::joined_path(output_dir, "spammer"@)]
    } else {
        seq![]
    })
}

fn list_binaries(args: &GenerateArgs, remote: &RemoteArgs, output_dir: &str) -> (paths: Vec<String>)
    ensures
        crate::text::texts(paths@) == binary_paths(*args, *remote, output_dir@),
{
    let mut paths: Vec<String> = Vec::new();
    paths.push(join_path(output_dir, "validator"));
    if remote.indexer_mode().is_some() {
        paths.push(join_path(output_dir, "chain-indexer"));
        paths.push(join_path(output_dir, "metadata-indexer"));
    }
    if relayer_enabled(args) {
        paths.push(join_path(output_dir, "relayer"));
    }
    if args.spammer {
        paths.push(join_path(output_dir, "spammer"));
    }
    proof {
        assert(crate::text::texts(paths@) =~= binary_paths(*args, *remote, output_dir@));
    }
    paths
}

/// Returns how many secondary identities a deployment needs: one per secondary and one for the
/// relayer.
pub fn secondary_identities(args: &GenerateArgs) -> (count: u32)
    requires
        args.relayer ==> args.secondaries < u32::MAX,
    ensures
        count == args.secondaries + (if args.relayer {
            1int
        } else {
            0int
        }),
{
    if relayer_enabled(args) {
        args.secondaries + 1
    } else {
        args.secondaries
    }
}

/// Generates a remote deployment.
pub fn generate(
    args: &GenerateArgs,
    remote: &RemoteArgs,
    output_dir: &str,
    material: &ClusterMaterial,
    metrics_port: u16,
    tag: String,
) -> (bundle: Result<RemoteBundle, RemoteError>)
    requires
        material.public_keys@.len() >= args.validators,
        material.signers@.len() >= args.validators,
        material.secondary_public_keys@.len() >= args.secondaries,
        material.secondary_signers@.len() >= args.secondaries,
    ensures
        match bundle {
            Ok(bundle) => {
                &&& remote_rejection(*args, *remote) is None
                &&& bundle.validators@.len() == args.validators
                &&& forall|i: int|
                    0 <= i < args.validators ==> is_primary(
                        #[trigger] bundle.validators@[i],
                        *args,
                        *remote,
                        output_dir@,
                        *material,
                        metrics_port,
                        i,
                    )
                &&& bundle.secondaries@.len() == args.secondaries
                &&& forall|i: int|
                    0 <= i < args.secondaries ==> is_secondary(
                        #[trigger] bundle.secondaries@[i],
                        *args,
                        *remote,
                        output_dir@,
                        *material,
                        metrics_port,
                        i,
                    )
                &&& bundle.chain_indexer is Some <==> remote.mode() is Some
                &&& bundle.chain_indexer matches Some(config) ==> config.port
                    == remote.chain_indexer_port && config.data_dir@ == "chain-indexer"@
                &&& bundle.metadata_indexer is Some <==> remote.mode() is Some
                &&& bundle.metadata_indexer matches Some(config) ==> config.port
                    == remote.metadata_indexer_port && config.chain_indexer_url@ == store_url(
                    remote.chain_indexer_port,
                )
                &&& bundle.relayer is Some <==> args.relayer
                &&& bundle.relayer matches Some(config) ==> relays_to_primaries(
                    config,
                    *remote,
                    *material,
                )
                &&& bundle.spammer is Some <==> args.spammer
                &&& bundle.spammer matches Some(config) ==> spams(
                    config,
                    *args,
                    *remote,
                    *material,
                )
                &&& bundle.deployer.tag == tag
                &&& monitors(bundle.deployer.monitoring, *remote, "dashboard.json"@)
                &&& instance_views(bundle.deployer.instances@) == all_instances(
                    *args,
                    *remote,
                    "validator"@,
                    bundle.validators@,
                    bundle.secondaries@,
                )
                &&& port_views(bundle.deployer.ports@) == open_ports(*remote)
                &&& crate::text::texts(bundle.binaries@) == binary_paths(
                    *args,
                    *remote,
                    output_dir@,
                )
                &&& bundle.create_command@ == "cd "@ + output_dir@
                    + " && deployer aws create --config config.yaml"@
            },
            Err(error) => {
                ||| remote_rejection(*args, *remote) == Some(error)
                ||| {
                    &&& remote_rejection(*args, *remote) is None
                    &&& error == RemoteError::MissingShare
                    &&& exists|i: int|
                        0 <= i < args.validators && material.share_position(
                            (#[trigger] material.public_keys@[i])@,
                        ) is None
                }
            },
        },
{
    match validate_remote_args(args, remote) {
        Ok(()) => {},
        Err(error) => return Err(error),
    }
    let validators = match build_validators(args, remote, output_dir, material, metrics_port) {
        Ok(nodes) => nodes,
        Err(error) => return Err(error),
    };
    let secondaries = build_secondaries(args, remote, output_dir, material, metrics_port);
    let relayer = if relayer_enabled(args) {
        Some(remote_relayer_config(remote, material))
    } else {
        None
    };
    let spammer = if args.spammer {
        Some(remote_spammer_config(args, remote, material))
    } else {
        None
    };
    let deployer = build_deployer_config(
        args,
        remote,
        "validator",
        "dashboard.json",
        tag,
        &validators,
        &secondaries,
    );
    let mut create_command = "cd ".to_string();
    create_command.append(output_dir);
    create_command.append(" && deployer aws create --config config.yaml");
    Ok(
        RemoteBundle {
            validators,
            secondaries,
            chain_indexer: chain_indexer_config(remote),
            metadata_indexer: metadata_indexer_config(remote),
            relayer,
            spammer,
            deployer,
            binaries: list_binaries(args, remote, output_dir),
            create_command,
        },
    )
}

/// The relayer of a generated deployment submits to every primary at the host that was named for it
/// and at the port on which it serves, and listens on that port itself.
pub proof fn relayer_leads_to_instances(
    args: GenerateArgs,
    remote: RemoteArgs,
    output_dir: &str,
    material: ClusterMaterial,
    metrics_port: u16,
    tag: String,
    bundle: RemoteBundle,
    index: int,
)
    requires
        call_ensures(
            generate,
            (&args, &remote, output_dir, &material, metrics_port, tag),
            Ok::<RemoteBundle, RemoteError>(bundle),
        ),
        material.public_keys@.len() == args.validators,
        args.relayer,
        0 <= index < bundle.validators@.len(),
    ensures
        ({
            let node = bundle.validators@[index];
            let instance = bundle.deployer.instances@[index];
            &&& bundle.relayer matches Some(relayer)
            &&& relayer.leader_fanout is None
            &&& relayer.leaders@.len() == bundle.validators@.len()
            &&& relayer.leaders@[index].public_key@ == instance.name@
            &&& relayer.leaders@[index].url@ == "http://"@ + instance.name@ + ":"@
                + crate::text::decimal(node.config.http_port as nat)
            &&& relayer.listen@ == "0.0.0.0:"@ + crate::text::decimal(node.config.http_port as nat)
        }),
{
    let node = bundle.validators@[index];
    assert(is_primary(node, args, remote, output_dir@, material, metrics_port, index));
    let views = instance_views(bundle.deployer.instances@);
    let nodes = node_instances(remote, "validator"@, bundle.validators@);
    assert(views.len() == bundle.deployer.instances@.len());
    assert(views.len() >= nodes.len());
    assert(views[index] == nodes[index]);
    assert(views[index] == bundle.deployer.instances@[index]@);
}

/// Every node of a generated deployment has an instance that is named after its public key and runs
/// its config. The public key belongs to the private key in the config, and a primary's share is
/// the one dealt to that key.
pub proof fn instances_run_generated_nodes(
    args: GenerateArgs,
    remote: RemoteArgs,
    output_dir: &str,
    material: ClusterMaterial,
    metrics_port: u16,
    tag: String,
    bundle: RemoteBundle,
    index: int,
)
    requires
        call_ensures(
            generate,
            (&args, &remote, output_dir, &material, metrics_port, tag),
            Ok::<RemoteBundle, RemoteError>(bundle),
        ),
        material.well_formed(),
        material.public_keys@.len() == args.validators,
        material.secondary_public_keys@.len() >= args.secondaries,
        0 <= index < bundle.validators@.len() + bundle.secondaries@.len(),
    ensures
        ({
            let primaries = bundle.validators@.len() as int;
            let node = if index < primaries {
                bundle.validators@[index]
            } else {
                bundle.secondaries@[index - primaries]
            };
            let instance = bundle.deployer.instances@[index];
            &&& instance.name@ == node.public_key_hex@
            &&& instance.config@ == node.config_name@
            &&& instance.binary@ == "validator"@
            &&& instance.profiling == remote.profiling
            &&& node.config_name@ == instance.name@ + ".yaml"@
            &&& crate::formatting::hex_bytes(node.config.private_key@) matches Some(signer)
            &&& crate::formatting::hex_bytes(instance.name@) == Some(
                crate::keys::derived_public_key(signer),
            )
            &&& index < primaries ==> exists|at: int|
                {
                    &&& 0 <= at < material.dealing.shares@.len()
                    &&& crate::formatting::hex_bytes(instance.name@) == Some(
                        (#[trigger] material.dealing.shares@[at]).0@,
                    )
                    &&& crate::formatting::hex_bytes(node.config.dkg_share@) == Some(
                        material.dealing.shares@[at].1@,
                    )
                }
            &&& index >= primaries ==> node.config.dkg_share@.len() == 0
        }),
{
    let primaries = bundle.validators@.len() as int;
    let views = instance_views(bundle.deployer.instances@);
    let front = node_instances(remote, "validator"@, bundle.validators@);
    let back = node_instances(remote, "validator"@, bundle.secondaries@);
    let all = all_instances(
        args,
        remote,
        "validator"@,
        bundle.validators@,
        bundle.secondaries@,
    );
    assert(views == all);
    assert(views[index] == bundle.deployer.instances@[index]@);
    if index < primaries {
        let node = bundle.validators@[index];
        assert(is_primary(node, args, remote, output_dir@, material, metrics_port, index));
        assert(all[index] == front[index]);
        let key = material.public_keys@[index]@;
        crate::formatting::hex_round_trip(material.signers@[index]@);
        crate::formatting::hex_round_trip(key);
        crate::deploy::material::primaries_hold_shares(material, index);
        let at = material.share_position(key).unwrap();
        crate::formatting::hex_round_trip(material.dealing.shares@[at].1@);
        assert(material.dealing.shares@[at].0@ == key);
    } else {
        let at = index - primaries;
        let node = bundle.secondaries@[at];
        assert(is_secondary(node, args, remote, output_dir@, material, metrics_port, at));
        assert(all[index] == back[at]);
        crate::formatting::hex_round_trip(material.secondary_signers@[at]@);
        crate::formatting::hex_round_trip(material.secondary_public_keys@[at]@);
    }
}

/// Validators go round the regions, and so do the secondaries on their own: the node whose index in
/// its list is congruent to a region's stands in that region.
pub proof fn nodes_go_round_regions(
    args: GenerateArgs,
    remote: RemoteArgs,
    output_dir: &str,
    material: ClusterMaterial,
    metrics_port: u16,
    tag: String,
    bundle: RemoteBundle,
    index: int,
    region: int,
)
    requires
        call_ensures(
            generate,
            (&args, &remote, output_dir, &material, metrics_port, tag),
            Ok::<RemoteBundle, RemoteError>(bundle),
        ),
        0 <= region < remote.regions@.len(),
        0 <= index,
        (index - region) % remote.regions@.len() as int == 0,
    ensures
        index < bundle.validators@.len() ==> bundle.deployer.instances@[index].region@
            == remote.regions@[region]@,
        index < bundle.secondaries@.len() ==> bundle.deployer.instances@[bundle.validators@.len()
            + index].region@ == remote.regions@[region]@,
{
    let count = remote.regions@.len() as int;
    vstd::arithmetic::div_mod::lemma_fundamental_div_mod(index - region, count);
    let turns = (index - region) / count;
    assert(count * turns == turns * count) by (nonlinear_arith);
    vstd::arithmetic::div_mod::lemma_fundamental_div_mod_converse(index, count, turns, region);
    let views = instance_views(bundle.deployer.instances@);
    let front = node_instances(remote, "validator"@, bundle.validators@);
    let back = node_instances(remote, "validator"@, bundle.secondaries@);
    let primaries = bundle.validators@.len() as int;
    assert(views.len() == bundle.deployer.instances@.len());
    assert(views.len() >= front.len() + back.len());
    if index < primaries {
        assert(views[index] == front[index]);
        assert(views[index] == bundle.deployer.instances@[index]@);
    }
    if index < bundle.secondaries@.len() {
        assert(views[primaries + index] == back[index]);
        assert(views[primaries + index] == bundle.deployer.instances@[primaries + index]@);
    }
}

/// Behind the nodes stand the shared services, each one once where it was asked for: the store and
/// the metadata service, the spammer, and the relayer last, all in the first region.
pub proof fn services_follow_nodes(
    args: GenerateArgs,
    remote: RemoteArgs,
    output_dir: &str,
    material: ClusterMaterial,
    metrics_port: u16,
    tag: String,
    bundle: RemoteBundle,
    index: int,
)
    requires
        call_ensures(
            generate,
            (&args, &remote, output_dir, &material, metrics_port, tag),
            Ok::<RemoteBundle, RemoteError>(bundle),
        ),
        bundle.validators@.len() + bundle.secondaries@.len() <= index
            < bundle.deployer.instances@.len(),
    ensures
        ({
            let instances = bundle.deployer.instances@;
            let nodes = bundle.validators@.len() + bundle.secondaries@.len() as int;
            let indexers = if remote.indexer || remote.indexer_metadata_only {
                2int
            } else {
                0
            };
            let spammers = if args.spammer {
                1int
            } else {
                0
            };
            let relayers = if args.relayer {
                1int
            } else {
                0
            };
            &&& instances.len() == nodes + indexers + spammers + relayers
            &&& instances[index].region@ == remote.regions@[0]@
            &&& instances[index].binary@ == instances[index].name@
            &&& instances[index].config@ == instances[index].name@ + ".yaml"@
            &&& !instances[index].profiling
            &&& indexers > 0 ==> instances[nodes].name@ == "chain-indexer"@ && instances[nodes
                + 1].name@ == "metadata-indexer"@
            &&& args.spammer ==> instances[nodes + indexers].name@ == "spammer"@
            &&& args.relayer ==> instances[instances.len() - 1].name@ == "relayer"@
        }),
{
    let views = instance_views(bundle.deployer.instances@);
    let all = all_instances(
        args,
        remote,
        "validator"@,
        bundle.validators@,
        bundle.secondaries@,
    );
    assert(views == all);
    assert(views.len() == bundle.deployer.instances@.len());
    assert forall|i: int| 0 <= i < views.len() implies #[trigger] views[i]
        == bundle.deployer.instances@[i]@ by {}
    reveal_strlit(".yaml");
    reveal_strlit("chain-indexer");
    reveal_strlit("chain-indexer.yaml");
    reveal_strlit("metadata-indexer");
    reveal_strlit("metadata-indexer.yaml");
    reveal_strlit("spammer");
    reveal_strlit("spammer.yaml");
    reveal_strlit("relayer");
    reveal_strlit("relayer.yaml");
    assert("chain-indexer.yaml"@ =~= "chain-indexer"@ + ".yaml"@);
    assert("metadata-indexer.yaml"@ =~= "metadata-indexer"@ + ".yaml"@);
    assert("spammer.yaml"@ =~= "spammer"@ + ".yaml"@);
    assert("relayer.yaml"@ =~= "relayer"@ + ".yaml"@);
    let nodes = bundle.validators@.len() + bundle.secondaries@.len() as int;
    let indexers = indexer_instances(remote);
    let spammers = spammer_instances(args, remote);
    let relayers = relayer_instances(args, remote);
    assert(all.len() == nodes + indexers.len() + spammers.len() + relayers.len());
    let tail = indexers + spammers + relayers;
    assert forall|i: int| nodes <= i < all.len() implies #[trigger] all[i] == tail[i - nodes] by {}
    assert(views[index] == tail[index - nodes]);
    let count = indexers.len() as int;
    if count > 0 {
        assert(views[nodes] == tail[0]);
        assert(views[nodes + 1] == tail[1]);
        assert(tail[0] == indexers[0]);
        assert(tail[1] == indexers[1]);
    }
    if args.spammer {
        assert(views[nodes + count] == tail[count]);
        assert(tail[count] == spammers[0]);
    }
    if args.relayer {
        assert(views[views.len() - 1] == tail[tail.len() - 1]);
        assert(tail[tail.len() - 1] == relayers[0]);
    }
    let at = index - nodes;
    if at < count {
        assert(tail[at] == indexers[at]);
    } else if at < count + spammers.len() {
        assert(tail[at] == spammers[0]);
    } else {
        assert(tail[at] == relayers[0]);
    }
}

/// Who talks to a shared service finds it: the spammer calls the relayer's host at the port that the
/// relayer listens on, and the secondaries and the metadata service call the store's host at the
/// store's port.
pub proof fn services_are_found(
    args: GenerateArgs,
    remote: RemoteArgs,
    output_dir: &str,
    material: ClusterMaterial,
    metrics_port: u16,
    tag: String,
    bundle: RemoteBundle,
    index: int,
)
    requires
        call_ensures(
            generate,
            (&args, &remote, output_dir, &material, metrics_port, tag),
            Ok::<RemoteBundle, RemoteError>(bundle),
        ),
    ensures
        bundle.spammer matches Some(spammer) ==> {
            &&& spammer.relayer_url is Some <==> bundle.relayer is Some
            &&& bundle.relayer matches Some(relayer) ==> exists|port: nat|
                relayer.listen@ == "0.0.0.0:"@ + #[trigger] crate::text::decimal(port)
                    && spammer.relayer_url.unwrap()@ == "http://relayer:"@ + crate::text::decimal(
                    port,
                )
            &&& bundle.relayer is Some ==> spammer.relayer_submitters == bundle.validators@.len()
            &&& bundle.relayer is None ==> spammer.relayer_submitters == 0
        },
        bundle.chain_indexer is Some <==> remote.indexer || remote.indexer_metadata_only,
        bundle.metadata_indexer is Some <==> bundle.chain_indexer is Some,
        bundle.chain_indexer matches Some(store) ==> {
            let url = "http://chain-indexer:"@ + crate::text::decimal(store.port as nat);
            &&& bundle.metadata_indexer matches Some(metadata) && metadata.chain_indexer_url@ == url
            &&& 0 <= index < bundle.secondaries@.len() ==> (
            bundle.secondaries@[index].config.indexer matches Some(indexer)
                && indexer.chain_indexer_url@ == url)
        },
        bundle.chain_indexer is None && 0 <= index < bundle.secondaries@.len()
            ==> bundle.secondaries@[index].config.indexer is None,
        0 <= index < bundle.validators@.len() ==> bundle.validators@[index].config.indexer is None,
{
    if 0 <= index < bundle.secondaries@.len() {
        assert(
            is_secondary(
                bundle.secondaries@[index],
                args,
                remote,
                output_dir@,
                material,
                metrics_port,
                index,
            )
        );
    }
    if 0 <= index < bundle.validators@.len() {
        assert(
            is_primary(
                bundle.validators@[index],
                args,
                remote,
                output_dir@,
                material,
                metrics_port,
                index,
            )
        );
    }
}

/// The p2p port is open to everyone, the ports of the shared services are where there are any, and
/// the HTTP port is open to each named range.
pub proof fn asked_ports_are_open(remote: RemoteArgs, ports: Vec<PortConfig>, range: int)
    requires
        call_ensures(port_configs, (&remote,), ports),
    ensures
        ports@.len() == 1 + remote.http_cidrs@.len() + (if remote.indexer
            || remote.indexer_metadata_only {
            2int
        } else {
            0
        }),
        port_views(ports@).contains(("tcp"@, remote.listen_port, "0.0.0.0/0"@)),
        remote.indexer || remote.indexer_metadata_only ==> port_views(ports@).contains(
            ("tcp"@, remote.chain_indexer_port, "0.0.0.0/0"@),
        ) && port_views(ports@).contains(("tcp"@, remote.metadata_indexer_port, "0.0.0.0/0"@)),
        0 <= range < remote.http_cidrs@.len() ==> port_views(ports@).contains(
            ("tcp"@, remote.http_port, remote.http_cidrs@[range]@),
        ),
{
    let open = open_ports(remote);
    let shared = if remote.mode() is Some {
        2int
    } else {
        0
    };
    assert(port_views(ports@).len() == ports@.len());
    assert(open[0] == ("tcp"@, remote.listen_port, "0.0.0.0/0"@));
    if shared > 0 {
        assert(open[1] == ("tcp"@, remote.chain_indexer_port, "0.0.0.0/0"@));
        assert(open[2] == ("tcp"@, remote.metadata_indexer_port, "0.0.0.0/0"@));
    }
    if 0 <= range < remote.http_cidrs@.len() {
        assert(open[1 + shared + range] == (
            "tcp"@,
            remote.http_port,
            remote.http_cidrs@[range]@,
        ));
    }
}

/// When [`validate_remote_args`] passes: there are validators and regions, no more regions than
/// validators, and a secondary where there is something to upload to.
pub proof fn remote_options_pass_when_placeable(
    args: GenerateArgs,
    remote: RemoteArgs,
    verdict: Result<(), RemoteError>,
)
    requires
        call_ensures(validate_remote_args, (&args, &remote), verdict),
    ensures
        verdict is Ok <==> {
            &&& 1 <= remote.regions@.len() <= args.validators
            &&& remote.indexer || remote.indexer_metadata_only ==> args.secondaries >= 1
        },
        verdict == Err::<(), RemoteError>(RemoteError::TooManyRegions) ==> remote.regions@.len()
            > args.validators >= 1,
        verdict == Err::<(), RemoteError>(RemoteError::NoValidators) <==> args.validators == 0,
{
}

/// Every binary that an instance runs is among those that the operator is told to build.
pub proof fn every_binary_is_built(
    args: GenerateArgs,
    remote: RemoteArgs,
    output_dir: &str,
    material: ClusterMaterial,
    metrics_port: u16,
    tag: String,
    bundle: RemoteBundle,
    index: int,
)
    requires
        call_ensures(
            generate,
            (&args, &remote, output_dir, &material, metrics_port, tag),
            Ok::<RemoteBundle, RemoteError>(bundle),
        ),
        0 <= index < bundle.deployer.instances@.len(),
    ensures
        crate::text::texts(bundle.binaries@).contains(
            crate::deploy::local::joined_path(
                output_dir@,
                bundle.deployer.instances@[index].binary@,
            ),
        ),
{
    let views = instance_views(bundle.deployer.instances@);
    let all = all_instances(
        args,
        remote,
        "validator"@,
        bundle.validators@,
        bundle.secondaries@,
    );
    let paths = binary_paths(args, remote, output_dir@);
    assert(views == all);
    assert(views[index] == bundle.deployer.instances@[index]@);
    let nodes = bundle.validators@.len() + bundle.secondaries@.len() as int;
    let indexers = indexer_instances(remote);
    let spammers = spammer_instances(args, remote);
    let relayers = relayer_instances(args, remote);
    assert(paths[0] == crate::deploy::local::joined_path(output_dir@, "validator"@));
    if index >= nodes {
        let tail = indexers + spammers + relayers;
        assert(all[index] == tail[index - nodes]);
        let at = index - nodes;
        if at < indexers.len() {
            assert(paths[1 + at] == crate::deploy::local::joined_path(
                output_dir@,
                all[index].binary,
            ));
        } else if at < indexers.len() + spammers.len() {
            assert(all[index] == spammers[0]);
            assert(paths[paths.len() - 1] == crate::deploy::local::joined_path(
                output_dir@,
                "spammer"@,
            ));
        } else {
            assert(all[index] == relayers[0]);
            assert(paths[1 + indexers.len() as int] == crate::deploy::local::joined_path(
                output_dir@,
                "relayer"@,
            ));
        }
    } else {
        assert(all[index].binary == "validator"@) by {
            let front = node_instances(remote, "validator"@, bundle.validators@);
            let back = node_instances(remote, "validator"@, bundle.secondaries@);
            if index < front.len() {
                assert(all[index] == front[index]);
            } else {
                assert(all[index] == back[index - front.len()]);
            }
        }
    }
}

/// A remote deployment whose material holds together is generated exactly if its nodes can be placed:
/// there are validators and regions, no more regions than validators, and a secondary where there is
/// something to upload to.
pub proof fn placeable_deployment_is_generated(
    args: GenerateArgs,
    remote: RemoteArgs,
    output_dir: &str,
    material: ClusterMaterial,
    metrics_port: u16,
    tag: String,
    bundle: Result<RemoteBundle, RemoteError>,
)
    requires
        call_ensures(
            generate,
            (&args, &remote, output_dir, &material, metrics_port, tag),
            bundle,
        ),
        material.well_formed(),
        material.public_keys@.len() == args.validators,
    ensures
        bundle is Ok <==> {
            &&& 1 <= remote.regions@.len() <= args.validators
            &&& remote.indexer || remote.indexer_metadata_only ==> args.secondaries >= 1
        },
{
    assert forall|i: int| 0 <= i < args.validators implies material.share_position(
        (#[trigger] material.public_keys@[i])@,
    ) is Some by {
        crate::deploy::material::primaries_hold_shares(material, i);
    }
}

/// Tags of deployments tell apart when they were made and by whom: the time comes first, a dash ends
/// it, and the process follows, both in base sixteen.
pub proof fn tags_name_time_and_process(timestamp: u128, process_id: u32, tag: String, dash: int)
    requires
        call_ensures(generate_deployer_tag, (timestamp, process_id), tag),
        0 <= dash < tag@.len(),
        tag@[dash] == '-',
    ensures
        crate::text::denoted(tag@.take(dash), 16) == timestamp,
        crate::text::denoted(tag@.skip(dash + 1), 16) == process_id,
{
    let time = crate::text::hexadecimal(timestamp as nat);
    let process = crate::text::hexadecimal(process_id as nat);
    crate::text::hexadecimal_denotes_value(timestamp as nat);
    crate::text::hexadecimal_denotes_value(process_id as nat);
    reveal_strlit("-");
    assert(tag@ =~= time + seq!['-'] + process);
    if dash < time.len() {
        assert(tag@[dash] == time[dash]);
    } else if dash > time.len() {
        assert(tag@[dash] == process[dash - time.len() - 1]);
    }
    assert(dash == time.len());
    assert(tag@.take(dash) =~= time);
    assert(tag@.skip(dash + 1) =~= process);
}

/// Secondaries upload metadata only where that was asked for, everything where the full indexer was
/// asked for instead, and nothing otherwise.
pub proof fn metadata_only_goes_first(remote: RemoteArgs, mode: Option<IndexerMode>)
    requires
        call_ensures(RemoteArgs::indexer_mode, (&remote,), mode),
    ensures
        mode == Some(IndexerMode::MetadataOnly) <==> remote.indexer_metadata_only,
        mode == Some(IndexerMode::Full) <==> remote.indexer && !remote.indexer_metadata_only,
        mode is None <==> !remote.indexer && !remote.indexer_metadata_only,
{
}

/// A deployment needs one identity for each secondary and one more for a relayer.
pub proof fn relayer_needs_an_identity(args: GenerateArgs, count: u32)
    requires
        call_ensures(secondary_identities, (&args,), count),
    ensures
        args.relayer ==> count == args.secondaries + 1,
        !args.relayer ==> count == args.secondaries,
{
}

/// Instances are sized as asked: nodes and shared services alike, except that the spammer has its own
/// volume and may have its own instance type. The monitoring host has its own of both.
pub proof fn instances_are_sized_as_asked(
    args: GenerateArgs,
    remote: RemoteArgs,
    output_dir: &str,
    material: ClusterMaterial,
    metrics_port: u16,
    tag: String,
    bundle: RemoteBundle,
    index: int,
)
    requires
        call_ensures(
            generate,
            (&args, &remote, output_dir, &material, metrics_port, tag),
            Ok::<RemoteBundle, RemoteError>(bundle),
        ),
        0 <= index < bundle.deployer.instances@.len(),
    ensures
        ({
            let instance = bundle.deployer.instances@[index];
            let indexers = if remote.indexer || remote.indexer_metadata_only {
                2int
            } else {
                0
            };
            let spammer = bundle.validators@.len() + bundle.secondaries@.len() + indexers;
            &&& args.spammer && index == spammer ==> {
                &&& instance.storage_size == remote.spammer_storage_size
                &&& remote.spammer_instance_type matches Some(own) ==> instance.instance_type@
                    == own@
                &&& remote.spammer_instance_type is None ==> instance.instance_type@
                    == remote.instance_type@
            }
            &&& !(args.spammer && index == spammer) ==> {
                &&& instance.storage_size == remote.storage_size
                &&& instance.instance_type@ == remote.instance_type@
            }
            &&& instance.storage_class@ == "gp3"@
            &&& instance.storage_iops is None
        }),
        bundle.deployer.monitoring.instance_type == remote.monitoring_instance_type,
        bundle.deployer.monitoring.storage_size == remote.monitoring_storage_size,
        bundle.deployer.tag == tag,
{
    let views = instance_views(bundle.deployer.instances@);
    let all = all_instances(
        args,
        remote,
        "validator"@,
        bundle.validators@,
        bundle.secondaries@,
    );
    assert(views == all);
    assert(views.len() == bundle.deployer.instances@.len());
    assert(views[index] == bundle.deployer.instances@[index]@);
    let front = node_instances(remote, "validator"@, bundle.validators@);
    let back = node_instances(remote, "validator"@, bundle.secondaries@);
    let indexers = indexer_instances(remote);
    let spammers = spammer_instances(args, remote);
    let relayers = relayer_instances(args, remote);
    let nodes = bundle.validators@.len() + bundle.secondaries@.len() as int;
    if index < front.len() {
        assert(all[index] == front[index]);
    } else if index < nodes {
        assert(all[index] == back[index - front.len()]);
    } else {
        let tail = indexers + spammers + relayers;
        let at = index - nodes;
        assert(all[index] == tail[at]);
        if at < indexers.len() {
            assert(tail[at] == indexers[at]);
        } else if at < indexers.len() + spammers.len() {
            assert(tail[at] == spammers[0]);
        } else {
            assert(tail[at] == relayers[0]);
        }
    }
}

/// The spammer of a generated deployment runs with the options that were asked for and knows the
/// primaries by their keys.
pub proof fn spammer_carries_options(
    args: GenerateArgs,
    remote: RemoteArgs,
    output_dir: &str,
    material: ClusterMaterial,
    metrics_port: u16,
    tag: String,
    bundle: RemoteBundle,
    index: int,
)
    requires
        call_ensures(
            generate,
            (&args, &remote, output_dir, &material, metrics_port, tag),
            Ok::<RemoteBundle, RemoteError>(bundle),
        ),
        material.public_keys@.len() == args.validators,
        0 <= index < bundle.validators@.len(),
    ensures
        bundle.spammer is Some <==> args.spammer,
        bundle.relayer is Some <==> args.relayer,
        bundle.spammer matches Some(spammer) ==> {
            &&& spammer.accounts == args.spammer_accounts
            &&& spammer.value == args.spammer_value
            &&& spammer.seed_offset == args.spammer_seed_offset
            &&& spammer.accounts_jitter == args.spammer_accounts_jitter
            &&& spammer.http_port == bundle.validators@[index].config.http_port
            &&& spammer.primary_validators@.len() == bundle.validators@.len()
            &&& spammer.primary_validators@[index]@ == bundle.validators@[index].public_key_hex@
        },
{
    assert(
        is_primary(
            bundle.validators@[index],
            args,
            remote,
            output_dir@,
            material,
            metrics_port,
            index,
        )
    );
    if let Some(spammer) = bundle.spammer {
        let names = crate::text::texts(spammer.primary_validators@);
        assert(names.len() == spammer.primary_validators@.len());
        assert(names[index] == spammer.primary_validators@[index]@);
    }
}

/// Every node of a generated deployment carries the settings that were asked for, listens on the common
/// ports, proposes at most 8 MiB out of a mempool of 64 MiB, and knows all primaries in order.
pub proof fn nodes_carry_settings(
    args: GenerateArgs,
    remote: RemoteArgs,
    output_dir: &str,
    material: ClusterMaterial,
    metrics_port: u16,
    tag: String,
    bundle: RemoteBundle,
    index: int,
)
    requires
        call_ensures(
            generate,
            (&args, &remote, output_dir, &material, metrics_port, tag),
            Ok::<RemoteBundle, RemoteError>(bundle),
        ),
        material.public_keys@.len() == args.validators,
        0 <= index < bundle.validators@.len() + bundle.secondaries@.len(),
    ensures
        ({
            let primaries = bundle.validators@.len() as int;
            let config = if index < primaries {
                bundle.validators@[index].config
            } else {
                bundle.secondaries@[index - primaries].config
            };
            &&& config.listen_port == remote.listen_port
            &&& config.http_port == remote.http_port
            &&& config.metrics_port == metrics_port
            &&& config.num_validators == primaries
            &&& config.max_propose_bytes == 8_388_608
            &&& config.max_pool_bytes == 67_108_864
            &&& config.worker_threads == args.worker_threads
            &&& config.rayon_threads == args.rayon_threads
            &&& config.startup == args.startup
            &&& config.log_level == args.log_level
            &&& config.genesis_leader == material.genesis_leader
            &&& config.primary_validators@.len() == primaries
            &&& forall|i: int|
                0 <= i < primaries ==> (#[trigger] config.primary_validators@[i])@
                    == bundle.validators@[i].public_key_hex@
        }),
{
    let primaries = bundle.validators@.len() as int;
    let config = if index < primaries {
        bundle.validators@[index].config
    } else {
        bundle.secondaries@[index - primaries].config
    };
    if index < primaries {
        assert(
            is_primary(
                bundle.validators@[index],
                args,
                remote,
                output_dir@,
                material,
                metrics_port,
                index,
            )
        );
    } else {
        assert(
            is_secondary(
                bundle.secondaries@[index - primaries],
                args,
                remote,
                output_dir@,
                material,
                metrics_port,
                index - primaries,
            )
        );
    }
    assert(common_config(config, args, remote, material, metrics_port));
    let names = crate::text::texts(config.primary_validators@);
    assert(names.len() == config.primary_validators@.len());
    assert forall|i: int| 0 <= i < primaries implies (#[trigger] config.primary_validators@[i])@
        == bundle.validators@[i].public_key_hex@ by {
        assert(
            is_primary(
                bundle.validators@[i],
                args,
                remote,
                output_dir@,
                material,
                metrics_port,
                i,
            )
        );
        assert(names[i] == config.primary_validators@[i]@);
    }
}

} // verus!
