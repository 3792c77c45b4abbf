//! Local deployments: every node on the loopback host, with its own ports.

use crate::deploy::material::{default_bootstrappers, ClusterMaterial};
use crate::deploy::plan::{list_roles, SecondaryRole, SpammerProofMode, SpammerWorkload};
use crate::formatting::hex;
use crate::rate::SamplingRate;
use crate::text::{join, push_decimal};
use crate::validator::config::{
    IndexerConfig, PeerEntry, PeersFile, RelayerConfig, RelayerLeaderConfig, StartupModeConfig,
    ValidatorConfig,
};
use vstd::prelude::*;

verus! {

/// Blocks an indexer secondary buffers before upload.
pub const INDEXER_UPLOAD_BUFFER: usize = 64;

/// The options of the generate command that a local deployment is written from.
pub struct GenerateArgs {
    /// Number of primary (voting) validators.
    pub validators: u32,
    /// Whether the full indexer secondary and the shared indexer services are generated.
    pub indexer: bool,
    /// Whether a transaction relayer secondary is generated.
    pub relayer: bool,
    /// Views the relayer retries a batch for.
    pub relayer_max_retry_views: u64,
    /// Logging verbosity.
    pub log_level: String,
    /// Runtime worker threads per validator.
    pub worker_threads: usize,
    /// Verification threads per validator.
    pub rayon_threads: usize,
    /// Maximum bytes proposed per block.
    pub max_propose_bytes: usize,
    /// Maximum mempool size in bytes.
    pub max_pool_bytes: usize,
    /// Maximum single network buffer allocation.
    pub network_buffer_pool_max_bytes: usize,
    /// Maximum accepted shard payload size.
    pub max_shard_bytes: usize,
    /// Finalized blocks before a proposed batch is reported as dropped.
    pub mempool_drop_grace_blocks: Option<u64>,
    /// Startup sync mode.
    pub startup: StartupModeConfig,
    /// Whether a spammer is started.
    pub spammer: bool,
    /// Number of spam accounts.
    pub spammer_accounts: u32,
    /// Transfer value per spam transaction.
    pub spammer_value: u64,
    /// Seed offset for spam account keys.
    pub spammer_seed_offset: u64,
    /// Runtime worker threads of the spammer.
    pub spammer_worker_threads: usize,
    /// Signing threads of the spammer.
    pub spammer_rayon_threads: usize,
    /// Fractional account-count jitter per batch, as written on the command line.
    pub spammer_accounts_jitter: String,
    /// Fully signed batches to keep ready per submitter.
    pub spammer_presigned_batches: usize,
    /// Transaction mix the spammer generates.
    pub spammer_workload: SpammerWorkload,
    /// Groups of private accounts.
    pub spammer_private_groups: usize,
    /// Proof mode for private transfers.
    pub spammer_private_proof_mode: SpammerProofMode,
}

/// The options that place a local deployment on the loopback host.
pub struct LocalArgs {
    /// Base p2p listen port; each node is offset from this.
    pub base_port: u16,
    /// Base HTTP port; each node is offset from this.
    pub base_http_port: u16,
    /// Base metrics port; each node is offset from this.
    pub base_metrics_port: u16,
    /// Port of the `chain-indexer` store.
    pub chain_indexer_port: u16,
    /// Port of the `metadata-indexer` read service.
    pub metadata_indexer_port: u16,
    /// Port of the `qmdb-indexer` read service.
    pub qmdb_indexer_port: u16,
    /// Trace sampling rate.
    pub traces: SamplingRate,
    /// Traces endpoint.
    pub otel_endpoint: String,
}

/// A generated node: its config, where the config is written, and how peers reach it.
pub struct GeneratedValidator {
    /// Path of the config file.
    pub config_file: String,
    /// The config.
    pub config: ValidatorConfig,
    /// How peers reach the node.
    pub peer: PeerEntry,
}

/// Why a local deployment cannot be generated.
#[derive(Debug, Clone, Copy, PartialEq, Eq, Structural)]
pub enum LocalError {
    /// A primary validator has no share.
    MissingShare,
    /// A p2p port is out of range.
    ListenPortOverflow,
    /// An HTTP port is out of range.
    HttpPortOverflow,
    /// A metrics port is out of range.
    MetricsPortOverflow,
    /// The offset of a secondary's ports is out of range.
    SecondaryOffsetOverflow,
    /// A secondary's p2p port is out of range.
    SecondaryListenPortOverflow,
    /// A secondary's HTTP port is out of range.
    SecondaryHttpPortOverflow,
    /// A secondary's metrics port is out of range.
    SecondaryMetricsPortOverflow,
    /// The HTTP port of a leader is out of range.
    RelayerHttpPortOverflow,
}

/// The path of `name` inside `dir`. An absolute name is a path of its own.
pub open spec fn joined_path(dir: Seq<char>, name: Seq<char>) -> Seq<char> {
    if name.len() > 0 && name[0] == '/' {
        name
    } else if dir.len() == 0 || dir.last() == '/' {
        dir + name
    } else {
        dir + "/"@ + name
    }
}

/// Returns the path of `name` inside `dir`. An absolute name is a path of its own.
pub fn join_path(dir: &str, name: &str) -> (path: String)
    ensures
        path@ == joined_path(dir@, name@),
{
    if name.unicode_len() > 0 && name.get_char(0) == '/' {
        return name.to_string();
    }
    let length: usize = dir.unicode_len();
    let mut path = dir.to_string();
    if length > 0 && dir.get_char(length - 1) != '/' {
        path.append("/");
    }
    path.append(name);
    path
}

/// `prefix` followed by a decimal number and `suffix`.
pub open spec fn numbered(prefix: Seq<char>, number: nat, suffix: Seq<char>) -> Seq<char> {
    prefix + crate::text::decimal(number) + suffix
}

/// Returns `prefix` followed by a decimal number and `suffix`.
pub fn number_text(prefix: &str, number: u64, suffix: &str) -> (text: String)
    ensures
        text@ == numbered(prefix@, number as nat, suffix@),
{
    let mut text = prefix.to_string();
    push_decimal(&mut text, number);
    text.append(suffix);
    text
}

/// The low half of a node index, by which its ports are offset.
pub open spec fn port_offset(index: int) -> int {
    index % 0x1_0000
}

/// Returns the low half of a node index.
pub(crate) fn low_half(index: u32) -> (offset: u16)
    ensures
        offset == port_offset(index as int),
{
    proof {
        assert(index as u16 == index % 0x1_0000) by (bit_vector);
    }
    #[verifier::truncate]
    let offset: u16 = index as u16;
    offset
}

/// The socket address of a port on the loopback host.
pub open spec fn loopback(port: int) -> Seq<char> {
    "127.0.0.1:"@ + crate::text::decimal(port as nat)
}

/// The URL of a port on the loopback host.
pub open spec fn loopback_url(port: int) -> Seq<char> {
    "http://127.0.0.1:"@ + crate::text::decimal(port as nat)
}

/// Returns the URL of a port on the loopback host.
pub fn loopback_http(port: u16) -> (url: String)
    ensures
        url@ == loopback_url(port as int),
{
    let mut url = "http://127.0.0.1:".to_string();
    push_decimal(&mut url, port as u64);
    url
}

/// Whether a config holds what every node of the deployment has in common.
pub open spec fn common_config(
    config: ValidatorConfig,
    args: GenerateArgs,
    local: LocalArgs,
    material: ClusterMaterial,
) -> bool {
    &&& config.dkg_output@ == crate::formatting::hex_text(material.dealing.output@)
    &&& config.startup == args.startup
    &&& config.genesis_leader == material.genesis_leader
    &&& config.num_validators == args.validators
    &&& crate::text::texts(config.primary_validators@) == crate::deploy::material::hex_texts(
        material.public_keys@,
    )
    &&& crate::text::texts(config.secondary_validators@) == crate::deploy::material::hex_texts(
        material.secondary_public_keys@,
    )
    &&& config.log_level == args.log_level
    &&& config.worker_threads == args.worker_threads
    &&& config.rayon_threads == args.rayon_threads
    &&& config.max_propose_bytes == args.max_propose_bytes
    &&& config.max_pool_bytes == args.max_pool_bytes
    &&& config.network_buffer_pool_max_bytes == args.network_buffer_pool_max_bytes
    &&& config.max_shard_bytes == args.max_shard_bytes
    &&& config.mempool_drop_grace_blocks == args.mempool_drop_grace_blocks
    &&& config.traces == local.traces
    &&& config.otel_endpoint == otel_endpoint_of(local)
    &&& crate::deploy::material::bootstraps(config.bootstrappers@, material.public_keys@)
}

/// Whether a config listens on the ports at `offset`.
pub open spec fn ports_at(config: ValidatorConfig, local: LocalArgs, offset: int) -> bool {
    &&& config.listen_port == local.base_port + offset
    &&& config.http_port == local.base_http_port + offset
    &&& config.metrics_port == local.base_metrics_port + offset
}

/// Whether a peer entry reaches the node of `config` under the name of `key`.
pub open spec fn reaches(peer: PeerEntry, config: ValidatorConfig, key: Seq<u8>) -> bool {
    &&& peer.name@ == crate::formatting::hex_text(key)
    &&& peer.p2p@ == loopback(config.listen_port as int)
    &&& peer.http@ == loopback(config.http_port as int)
}

/// Whether a node is the primary validator at `index`.
pub open spec fn is_primary(
    node: GeneratedValidator,
    args: GenerateArgs,
    local: LocalArgs,
    output_dir: Seq<char>,
    material: ClusterMaterial,
    index: int,
) -> bool {
    let key = material.public_keys@[index]@;
    &&& node.config_file@ == joined_path(
        output_dir,
        numbered("validator-"@, index as nat, ".yaml"@),
    )
    &&& common_config(node.config, args, local, material)
    &&& ports_at(node.config, local, port_offset(index))
    &&& node.config.private_key@ == crate::formatting::hex_text(material.signers@[index]@)
    &&& material.share_position(key) is Some
    &&& node.config.dkg_share@ == crate::formatting::hex_text(
        material.dealing.shares@[material.share_position(key).unwrap()].1@,
    )
    &&& node.config.partition_prefix@ == numbered("validator-"@, index as nat, ""@)
    &&& node.config.indexer is None
    &&& node.config.relayer is None
    &&& reaches(node.peer, node.config, key)
}

/// Why the primary validator at `index` cannot be generated, if it cannot.
pub open spec fn primary_rejection(
    local: LocalArgs,
    material: ClusterMaterial,
    index: int,
) -> Option<LocalError> {
    if material.share_position(material.public_keys@[index]@) is None {
        Some(LocalError::MissingShare)
    } else if local.base_port + port_offset(index) > u16::MAX {
        Some(LocalError::ListenPortOverflow)
    } else if local.base_http_port + port_offset(index) > u16::MAX {
        Some(LocalError::HttpPortOverflow)
    } else if local.base_metrics_port + port_offset(index) > u16::MAX {
        Some(LocalError::MetricsPortOverflow)
    } else {
        None
    }
}

/// Whether the first `count` primary validators can be generated.
pub open spec fn primaries_fit(local: LocalArgs, material: ClusterMaterial, count: int) -> bool {
    forall|i: int| 0 <= i < count ==> #[trigger] primary_rejection(local, material, i) is None
}

/// Whether `error` is why the first primary validator that cannot be generated cannot.
pub open spec fn primary_fails(
    args: GenerateArgs,
    local: LocalArgs,
    material: ClusterMaterial,
    error: LocalError,
) -> bool {
    exists|i: int|
        {
            &&& 0 <= i < args.validators
            &&& #[trigger] primary_rejection(local, material, i) == Some(error)
            &&& primaries_fit(local, material, i)
        }
}

/// The traces endpoint written into configs: none while the rate is zero.
pub open spec fn otel_endpoint_of(local: LocalArgs) -> Option<String> {
    if local.traces.positive() {
        Some(local.otel_endpoint)
    } else {
        None
    }
}

/// Returns the traces endpoint written into configs.
pub fn local_otel_endpoint(local: &LocalArgs) -> (endpoint: Option<String>)
    ensures
        endpoint == otel_endpoint_of(*local),
{
    if local.traces.is_positive() {
        Some(local.otel_endpoint.clone())
    } else {
        None
    }
}

/// Returns the full indexer wiring written into the owning secondary's config.
pub fn local_indexer_config(indexer_port: u16) -> (config: IndexerConfig)
    ensures
        config.chain_indexer_url@ == loopback_url(indexer_port as int),
        config.upload_buffer == INDEXER_UPLOAD_BUFFER,
{
    IndexerConfig {
        chain_indexer_url: loopback_http(indexer_port),
        upload_buffer: INDEXER_UPLOAD_BUFFER,
    }
}

/// Whether a relayer section submits to every primary at its HTTP port.
pub open spec fn relays_to_primaries(
    config: RelayerConfig,
    args: GenerateArgs,
    local: LocalArgs,
    material: ClusterMaterial,
) -> bool {
    &&& config.max_retry_views == args.relayer_max_retry_views
    &&& config.leaders@.len() == material.public_keys@.len()
    &&& forall|i: int|
        0 <= i < config.leaders@.len() ==> {
            &&& (#[trigger] config.leaders@[i]).public_key@ == crate::formatting::hex_text(
                material.public_keys@[i]@,
            )
            &&& config.leaders@[i].url@ == loopback_url(local.base_http_port + port_offset(i))
        }
}

/// Whether every leader's HTTP port is in range.
pub open spec fn leader_ports_fit(local: LocalArgs, material: ClusterMaterial) -> bool {
    forall|i: int|
        0 <= i < material.public_keys@.len() ==> local.base_http_port + #[trigger] port_offset(i)
            <= u16::MAX
}

/// Returns the relayer section of the relayer secondary.
pub fn local_relayer_config(
    args: &GenerateArgs,
    local: &LocalArgs,
    material: &ClusterMaterial,
) -> (config: Result<RelayerConfig, LocalError>)
    ensures
        match config {
            Ok(config) => leader_ports_fit(*local, *material) && relays_to_primaries(
                config,
                *args,
                *local,
                *material,
            ),
            Err(error) => !leader_ports_fit(*local, *material) && error
                == LocalError::RelayerHttpPortOverflow,
        },
{
    let mut leaders: Vec<RelayerLeaderConfig> = Vec::new();
    let mut i: usize = 0;
    while i < material.public_keys.len()
        invariant
            i <= material.public_keys@.len(),
            leaders@.len() == i,
            forall|j: int|
                0 <= j < i ==> local.base_http_port + #[trigger] port_offset(j) <= u16::MAX,
            forall|j: int|
                0 <= j < i ==> {
                    &&& (#[trigger] leaders@[j]).public_key@ == crate::formatting::hex_text(
                        material.public_keys@[j]@,
                    )
                    &&& leaders@[j].url@ == loopback_url(local.base_http_port + port_offset(j))
                },
        decreases material.public_keys.len() - i,
    {
        let offset: u16 = (i % 0x1_0000) as u16;
        proof {
            assert(offset == port_offset(i as int));
        }
        let port: u16 = match local.base_http_port.checked_add(offset) {
            Some(port) => port,
            None => return Err(LocalError::RelayerHttpPortOverflow),
        };
        leaders.push(
            RelayerLeaderConfig {
                public_key: hex(material.public_keys[i].as_slice()),
                url: loopback_http(port),
            },
        );
        i += 1;
    }
    Ok(RelayerConfig { max_retry_views: args.relayer_max_retry_views, leaders })
}

/// A node's own part of its config.
struct NodePart {
    private_key: String,
    dkg_share: String,
    partition_prefix: String,
    listen_port: u16,
    http_port: u16,
    metrics_port: u16,
    indexer: Option<IndexerConfig>,
    relayer: Option<RelayerConfig>,
}

/// Writes a node's config around its own part.
fn node_config(
    args: &GenerateArgs,
    local: &LocalArgs,
    material: &ClusterMaterial,
    part: NodePart,
) -> (config: ValidatorConfig)
    ensures
        common_config(config, *args, *local, *material),
        config.private_key == part.private_key,
        config.dkg_share == part.dkg_share,
        config.partition_prefix == part.partition_prefix,
        config.listen_port == part.listen_port,
        config.http_port == part.http_port,
        config.metrics_port == part.metrics_port,
        config.indexer == part.indexer,
        config.relayer == part.relayer,
{
    ValidatorConfig {
        private_key: part.private_key,
        dkg_output: hex(material.dealing.output.as_slice()),
        dkg_share: part.dkg_share,
        startup: args.startup,
        listen_port: part.listen_port,
        genesis_leader: material.genesis_leader.clone(),
        partition_prefix: part.partition_prefix,
        num_validators: args.validators,
        primary_validators: material.primary_hex(),
        secondary_validators: material.secondary_hex(),
        log_level: args.log_level.clone(),
        worker_threads: args.worker_threads,
        rayon_threads: args.rayon_threads,
        http_port: part.http_port,
        metrics_port: part.metrics_port,
        max_propose_bytes: args.max_propose_bytes,
        max_pool_bytes: args.max_pool_bytes,
        network_buffer_pool_max_bytes: args.network_buffer_pool_max_bytes,
        max_shard_bytes: args.max_shard_bytes,
        mempool_drop_grace_blocks: args.mempool_drop_grace_blocks,
        traces: local.traces,
        otel_endpoint: local_otel_endpoint(local),
        bootstrappers: default_bootstrappers(&material.public_keys),
        indexer: part.indexer,
        relayer: part.relayer,
    }
}

fn peer_entry(key: &Vec<u8>, config: &ValidatorConfig) -> (peer: PeerEntry)
    ensures
        reaches(peer, *config, key@),
{
    let mut p2p = "127.0.0.1:".to_string();
    push_decimal(&mut p2p, config.listen_port as u64);
    let mut http = "127.0.0.1:".to_string();
    push_decimal(&mut http, config.http_port as u64);
    PeerEntry { name: hex(key.as_slice()), p2p, http }
}

/// Generates the primary validators.
pub fn build_validators(
    args: &GenerateArgs,
    local: &LocalArgs,
    output_dir: &str,
    material: &ClusterMaterial,
) -> (nodes: Result<Vec<GeneratedValidator>, LocalError>)
    requires
        material.public_keys@.len() >= args.validators,
        material.signers@.len() >= args.validators,
    ensures
        match nodes {
            Ok(nodes) => {
                &&& nodes@.len() == args.validators
                &&& forall|i: int|
                    0 <= i < args.validators ==> is_primary(
                        #[trigger] nodes@[i],
                        *args,
                        *local,
                        output_dir@,
                        *material,
                        i,
                    )
                &&& primaries_fit(*local, *material, args.validators as int)
            },
            Err(error) => primary_fails(*args, *local, *material, error),
        },
{
    let mut nodes: Vec<GeneratedValidator> = Vec::new();
    let mut index: u32 = 0;
    while index < args.validators
        invariant
            index <= args.validators,
            material.public_keys@.len() >= args.validators,
            material.signers@.len() >= args.validators,
            nodes@.len() == index,
            forall|i: int|
                0 <= i < index ==> is_primary(
                    #[trigger] nodes@[i],
                    *args,
                    *local,
                    output_dir@,
                    *material,
                    i,
                ),
            forall|i: int|
                0 <= i < index ==> #[trigger] primary_rejection(*local, *material, i) is None,
        decreases args.validators - index,
    {
        let ghost verdict = primary_rejection(*local, *material, index as int);
        let public_key = &material.public_keys[index as usize];
        let share = match material.share_for(public_key) {
            Some(share) => share,
            None => {
                assert(verdict == Some(LocalError::MissingShare));
                return Err(LocalError::MissingShare);
            },
        };
        let offset: u16 = low_half(index);
        let listen_port: u16 = match local.base_port.checked_add(offset) {
            Some(port) => port,
            None => {
                assert(verdict == Some(LocalError::ListenPortOverflow));
                return Err(LocalError::ListenPortOverflow);
            },
        };
        let http_port: u16 = match local.base_http_port.checked_add(offset) {
            Some(port) => port,
            None => {
                assert(verdict == Some(LocalError::HttpPortOverflow));
                return Err(LocalError::HttpPortOverflow);
            },
        };
        let metrics_port: u16 = match local.base_metrics_port.checked_add(offset) {
            Some(port) => port,
            None => {
                assert(verdict == Some(LocalError::MetricsPortOverflow));
                return Err(LocalError::MetricsPortOverflow);
            },
        };
        let config = node_config(
            args,
            local,
            material,
            NodePart {
                private_key: hex(material.signers[index as usize].as_slice()),
                dkg_share: hex(share.as_slice()),
                partition_prefix: number_text("validator-", index as u64, ""),
                listen_port,
                http_port,
                metrics_port,
                indexer: None,
                relayer: None,
            },
        );
        let peer = peer_entry(public_key, &config);
        let file = number_text("validator-", index as u64, ".yaml");
        nodes.push(
            GeneratedValidator { config_file: join_path(output_dir, file.as_str()), config, peer },
        );
        index += 1;
    }
    Ok(nodes)
}

/// Whether a node is the secondary at `index`, which plays `role`.
pub open spec fn is_secondary(
    node: GeneratedValidator,
    args: GenerateArgs,
    local: LocalArgs,
    output_dir: Seq<char>,
    material: ClusterMaterial,
    index: int,
    role: SecondaryRole,
) -> bool {
    &&& node.config_file@ == joined_path(
        output_dir,
        numbered("secondary-"@, index as nat, ".yaml"@),
    )
    &&& common_config(node.config, args, local, material)
    &&& ports_at(node.config, local, port_offset(args.validators as int) + index)
    &&& node.config.private_key@ == crate::formatting::hex_text(
        material.secondary_signers@[index]@,
    )
    &&& node.config.dkg_share@.len() == 0
    &&& node.config.partition_prefix@ == numbered("secondary-"@, index as nat, ""@)
    &&& reaches(node.peer, node.config, material.secondary_public_keys@[index]@)
    &&& match role {
        SecondaryRole::Indexer => {
            &&& node.config.relayer is None
            &&& node.config.indexer matches Some(indexer)
            &&& indexer.chain_indexer_url@ == loopback_url(local.chain_indexer_port as int)
            &&& indexer.upload_buffer == INDEXER_UPLOAD_BUFFER
        },
        SecondaryRole::Relayer => {
            &&& node.config.indexer is None
            &&& node.config.relayer matches Some(relayer)
            &&& relays_to_primaries(relayer, args, local, material)
        },
    }
}

/// Why the secondary at `index`, which plays `role`, cannot be generated, if it cannot.
pub open spec fn secondary_rejection(
    args: GenerateArgs,
    local: LocalArgs,
    material: ClusterMaterial,
    index: int,
    role: SecondaryRole,
) -> Option<LocalError> {
    let offset = port_offset(args.validators as int) + index;
    if offset > u16::MAX {
        Some(LocalError::SecondaryOffsetOverflow)
    } else if local.base_port + offset > u16::MAX {
        Some(LocalError::SecondaryListenPortOverflow)
    } else if local.base_http_port + offset > u16::MAX {
        Some(LocalError::SecondaryHttpPortOverflow)
    } else if local.base_metrics_port + offset > u16::MAX {
        Some(LocalError::SecondaryMetricsPortOverflow)
    } else if role is Relayer && !leader_ports_fit(local, material) {
        Some(LocalError::RelayerHttpPortOverflow)
    } else {
        None
    }
}

/// Whether the first `count` secondaries can be generated.
pub open spec fn secondaries_fit(
    args: GenerateArgs,
    local: LocalArgs,
    material: ClusterMaterial,
    count: int,
) -> bool {
    let roles = crate::deploy::plan::roles(args.indexer, args.relayer);
    forall|i: int|
        0 <= i < count ==> secondary_rejection(args, local, material, i, #[trigger] roles[i])
            is None
}

/// Whether `error` is why the first secondary that cannot be generated cannot.
pub open spec fn secondary_fails(
    args: GenerateArgs,
    local: LocalArgs,
    material: ClusterMaterial,
    error: LocalError,
) -> bool {
    let roles = crate::deploy::plan::roles(args.indexer, args.relayer);
    exists|i: int|
        {
            &&& 0 <= i < roles.len()
            &&& secondary_rejection(args, local, material, i, #[trigger] roles[i]) == Some(error)
            &&& secondaries_fit(args, local, material, i)
        }
}

/// Generates the secondaries. Their ports start after the primary range, to avoid collisions on
/// the same loopback host.
pub fn build_secondaries(
    args: &GenerateArgs,
    local: &LocalArgs,
    output_dir: &str,
    material: &ClusterMaterial,
) -> (nodes: Result<Vec<GeneratedValidator>, LocalError>)
    requires
        ({
            let roles = crate::deploy::plan::roles(args.indexer, args.relayer);
            &&& material.secondary_public_keys@.len() >= roles.len()
            &&& material.secondary_signers@.len() >= roles.len()
        }),
    ensures
        ({
            let roles = crate::deploy::plan::roles(args.indexer, args.relayer);
            match nodes {
                Ok(nodes) => {
                    &&& nodes@.len() == roles.len()
                    &&& forall|i: int|
                        0 <= i < roles.len() ==> is_secondary(
                            #[trigger] nodes@[i],
                            *args,
                            *local,
                            output_dir@,
                            *material,
                            i,
                            roles[i],
                        )
                    &&& secondaries_fit(*args, *local, *material, roles.len() as int)
                },
                Err(error) => secondary_fails(*args, *local, *material, error),
            }
        }),
{
    let roles = list_roles(args.indexer, args.relayer);
    let mut nodes: Vec<GeneratedValidator> = Vec::new();
    let primary_span: u16 = low_half(args.validators);
    let mut index: usize = 0;
    while index < roles.len()
        invariant
            index <= roles@.len() <= 2,
            roles@ == crate::deploy::plan::roles(args.indexer, args.relayer),
            primary_span == port_offset(args.validators as int),
            material.secondary_public_keys@.len() >= roles@.len(),
            material.secondary_signers@.len() >= roles@.len(),
            nodes@.len() == index,
            forall|i: int|
                0 <= i < index ==> is_secondary(
                    #[trigger] nodes@[i],
                    *args,
                    *local,
                    output_dir@,
                    *material,
                    i,
                    roles@[i],
                ),
            forall|i: int|
                0 <= i < index ==> secondary_rejection(
                    *args,
                    *local,
                    *material,
                    i,
                    #[trigger] roles@[i],
                ) is None,
        decreases roles.len() - index,
    {
        let ghost verdict = secondary_rejection(
            *args,
            *local,
            *material,
            index as int,
            roles@[index as int],
        );
        let role = roles[index];
        let offset: u16 = match primary_span.checked_add(index as u16) {
            Some(offset) => offset,
            None => {
                assert(verdict == Some(LocalError::SecondaryOffsetOverflow));
                return Err(LocalError::SecondaryOffsetOverflow);
            },
        };
        let listen_port: u16 = match local.base_port.checked_add(offset) {
            Some(port) => port,
            None => {
                assert(verdict == Some(LocalError::SecondaryListenPortOverflow));
                return Err(LocalError::SecondaryListenPortOverflow);
            },
        };
        let http_port: u16 = match local.base_http_port.checked_add(offset) {
            Some(port) => port,
            None => {
                assert(verdict == Some(LocalError::SecondaryHttpPortOverflow));
                return Err(LocalError::SecondaryHttpPortOverflow);
            },
        };
        let metrics_port: u16 = match local.base_metrics_port.checked_add(offset) {
            Some(port) => port,
            None => {
                assert(verdict == Some(LocalError::SecondaryMetricsPortOverflow));
                return Err(LocalError::SecondaryMetricsPortOverflow);
            },
        };
        let indexer = if role == SecondaryRole::Indexer {
            Some(local_indexer_config(local.chain_indexer_port))
        } else {
            None
        };
        let relayer = if role == SecondaryRole::Relayer {
            match local_relayer_config(args, local, material) {
                Ok(relayer) => Some(relayer),
                Err(error) => {
                    assert(verdict == Some(error));
                    return Err(error);
                },
            }
        } else {
            None
        };
        let config = node_config(
            args,
            local,
            material,
            NodePart {
                private_key: hex(material.secondary_signers[index].as_slice()),
                dkg_share: String::new(),
                partition_prefix: number_text("secondary-", index as u64, ""),
                listen_port,
                http_port,
                metrics_port,
                indexer,
                relayer,
            },
        );
        let peer = peer_entry(&material.secondary_public_keys[index], &config);
        let file = number_text("secondary-", index as u64, ".yaml");
        nodes.push(
            GeneratedValidator { config_file: join_path(output_dir, file.as_str()), config, peer },
        );
        index += 1;
    }
    Ok(nodes)
}

/// The HTTP port of the relayer secondary, after the primaries and the indexer secondary.
pub open spec fn relayer_port(args: GenerateArgs, local: LocalArgs) -> int {
    local.base_http_port + port_offset(args.validators as int) + (if args.indexer {
        1int
    } else {
        0int
    })
}

/// Returns the HTTP port of the relayer secondary, if there is one.
pub fn relayer_http_port(args: &GenerateArgs, local: &LocalArgs) -> (port: Option<u16>)
    requires
        args.relayer ==> relayer_port(*args, *local) <= u16::MAX,
    ensures
        match port {
            Some(port) => args.relayer && port == relayer_port(*args, *local),
            None => !args.relayer,
        },
{
    if args.relayer {
        let relayer_index: u16 = if args.indexer { 1 } else { 0 };
        Some(local.base_http_port + low_half(args.validators) + relayer_index)
    } else {
        None
    }
}

/// The relayer secondary of a generated deployment serves on the relayer port.
pub proof fn relayer_serves_on_its_port(
    node: GeneratedValidator,
    args: GenerateArgs,
    local: LocalArgs,
    output_dir: Seq<char>,
    material: ClusterMaterial,
    index: int,
)
    requires
        args.relayer,
        ({
            let roles = crate::deploy::plan::roles(args.indexer, args.relayer);
            &&& 0 <= index < roles.len()
            &&& roles[index] is Relayer
            &&& is_secondary(node, args, local, output_dir, material, index, roles[index])
        }),
    ensures
        node.config.http_port == relayer_port(args, local),
{
}

/// How a validator is started.
pub open spec fn validator_cargo(args: GenerateArgs) -> Seq<char> {
    match args.spammer_private_proof_mode {
        SpammerProofMode::Simulated =>
            "cargo run --release --bin constantinople --features constantinople-primitives/privacy-backend-zkpari"@,
        SpammerProofMode::Real => "cargo run --release --bin constantinople"@,
    }
}

/// How the spammer is started.
pub open spec fn spammer_cargo(args: GenerateArgs) -> Seq<char> {
    match args.spammer_private_proof_mode {
        SpammerProofMode::Simulated =>
            "cargo run --release --bin constantinople-spammer --features constantinople-primitives/privacy-backend-zkpari,constantinople-spammer/privacy-backend-simulator"@,
        SpammerProofMode::Real => "cargo run --release --bin constantinople-spammer"@,
    }
}

/// The command that starts the node whose config is in `file`.
pub open spec fn node_command(cargo: Seq<char>, output_dir: Seq<char>, file: Seq<char>) -> Seq<
    char,
> {
    cargo + " -- --config "@ + joined_path(output_dir, file) + " --peers "@ + joined_path(
        output_dir,
        "peers.yaml"@,
    )
}

/// The command that starts an indexer reading service.
pub open spec fn reader_command(binary: Seq<char>, store_port: u16, port: u16) -> Seq<char> {
    "cargo run --release -p constantinople-indexer --bin "@ + binary
        + " -- --store-url http://127.0.0.1:"@ + crate::text::decimal(store_port as nat)
        + " --port "@ + crate::text::decimal(port as nat)
}

/// The commands that start the indexer stack and the explorer.
pub open spec fn indexer_commands(
    output_dir: Seq<char>,
    args: GenerateArgs,
    local: LocalArgs,
    verification_material: Seq<char>,
) -> Seq<Seq<char>> {
    seq![
        "cargo run --release -p constantinople-indexer --bin chain-indexer -- --port "@
            + crate::text::decimal(local.chain_indexer_port as nat) + " --data-dir "@
            + joined_path(output_dir, "chain-indexer"@),
        reader_command("metadata-indexer"@, local.chain_indexer_port, local.metadata_indexer_port),
        reader_command("qmdb-indexer"@, local.chain_indexer_port, local.qmdb_indexer_port),
        "VITE_SQL_URL=http://127.0.0.1:"@ + crate::text::decimal(
            local.metadata_indexer_port as nat,
        ) + " VITE_QMDB_URL=http://127.0.0.1:"@ + crate::text::decimal(
            local.qmdb_indexer_port as nat,
        ) + " VITE_STORE_URL=http://127.0.0.1:"@ + crate::text::decimal(
            local.chain_indexer_port as nat,
        ) + " VITE_SIMPLEX_VERIFICATION_MATERIAL="@ + verification_material + (if args.relayer {
            " VITE_MEMPOOL_URL=http://127.0.0.1:"@ + crate::text::decimal(
                relayer_port(args, local) as nat,
            )
        } else {
            ""@
        }) + " npm --prefix explorer run dev"@,
    ]
}

/// The command that starts the spammer.
pub open spec fn spammer_command(
    args: GenerateArgs,
    local: LocalArgs,
    relayer_targets: Seq<Seq<char>>,
) -> Seq<char> {
    spammer_cargo(args) + " -- --relayer-url http://127.0.0.1:"@ + crate::text::decimal(
        relayer_port(args, local) as nat,
    ) + " --relayer-submitters "@ + crate::text::decimal(args.validators as nat)
        + " --relayer-targets "@ + crate::text::joined(relayer_targets, ","@) + " --accounts "@
        + crate::text::decimal(args.spammer_accounts as nat) + " --value "@ + crate::text::decimal(
        args.spammer_value as nat,
    ) + " --seed-offset "@ + crate::text::decimal(args.spammer_seed_offset as nat)
        + " --worker-threads "@ + crate::text::decimal(args.spammer_worker_threads as nat)
        + " --rayon-threads "@ + crate::text::decimal(args.spammer_rayon_threads as nat)
        + " --accounts-jitter "@ + args.spammer_accounts_jitter@ + " --presigned-batches "@
        + crate::text::decimal(args.spammer_presigned_batches as nat) + " --workload "@
        + args.spammer_workload.name() + " --private-groups "@ + crate::text::decimal(
        args.spammer_private_groups as nat,
    ) + " --private-proof-mode "@ + args.spammer_private_proof_mode.name()
}

/// The commands that start a local deployment: validators, secondaries, the indexer stack, and the
/// spammer.
pub open spec fn run_commands(
    output_dir: Seq<char>,
    args: GenerateArgs,
    local: LocalArgs,
    relayer_targets: Seq<Seq<char>>,
    verification_material: Seq<char>,
) -> Seq<Seq<char>> {
    let cargo = validator_cargo(args);
    Seq::new(
        args.validators as nat,
        |i: int|
            node_command(cargo, output_dir, numbered("validator-"@, i as nat, ".yaml"@)),
    ) + Seq::new(
        crate::deploy::plan::roles(args.indexer, args.relayer).len(),
        |i: int|
            node_command(cargo, output_dir, numbered("secondary-"@, i as nat, ".yaml"@)),
    ) + (if args.indexer {
        indexer_commands(output_dir, args, local, verification_material)
    } else {
        seq![]
    }) + (if args.spammer {
        seq![spammer_command(args, local, relayer_targets)]
    } else {
        seq![]
    })
}

fn start_node(cargo: &str, output_dir: &str, file: &str) -> (command: String)
    ensures
        command@ == node_command(cargo@, output_dir@, file@),
{
    let mut command = cargo.to_string();
    command.append(" -- --config ");
    command.append(join_path(output_dir, file).as_str());
    command.append(" --peers ");
    command.append(join_path(output_dir, "peers.yaml").as_str());
    command
}

fn start_nodes(
    cargo: &str,
    output_dir: &str,
    prefix: &str,
    count: u32,
) -> (commands: Vec<String>)
    ensures
        crate::text::texts(commands@) == Seq::new(
            count as nat,
            |i: int| node_command(cargo@, output_dir@, numbered(prefix@, i as nat, ".yaml"@)),
        ),
{
    let mut commands: Vec<String> = Vec::new();
    let mut index: u32 = 0;
    while index < count
        invariant
            index <= count,
            commands@.len() == index,
            forall|i: int|
                0 <= i < index ==> (#[trigger] commands@[i])@ == node_command(
                    cargo@,
                    output_dir@,
                    numbered(prefix@, i as nat, ".yaml"@),
                ),
        decreases count - index,
    {
        let file = number_text(prefix, index as u64, ".yaml");
        commands.push(start_node(cargo, output_dir, file.as_str()));
        index += 1;
    }
    proof {
        assert(crate::text::texts(commands@) =~= Seq::new(
            count as nat,
            |i: int| node_command(cargo@, output_dir@, numbered(prefix@, i as nat, ".yaml"@)),
        ));
    }
    commands
}

fn start_reader(binary: &str, store_port: u16, port: u16) -> (command: String)
    ensures
        command@ == reader_command(binary@, store_port, port),
{
    let mut command = "cargo run --release -p constantinople-indexer --bin ".to_string();
    command.append(binary);
    command.append(" -- --store-url http://127.0.0.1:");
    push_decimal(&mut command, store_port as u64);
    command.append(" --port ");
    push_decimal(&mut command, port as u64);
    command
}

fn start_indexers(
    output_dir: &str,
    args: &GenerateArgs,
    local: &LocalArgs,
    verification_material: &str,
) -> (commands: Vec<String>)
    requires
        args.relayer ==> relayer_port(*args, *local) <= u16::MAX,
    ensures
        crate::text::texts(commands@) == indexer_commands(
            output_dir@,
            *args,
            *local,
            verification_material@,
        ),
{
    let mut store =
        "cargo run --release -p constantinople-indexer --bin chain-indexer -- --port ".to_string();
    push_decimal(&mut store, local.chain_indexer_port as u64);
    store.append(" --data-dir ");
    store.append(join_path(output_dir, "chain-indexer").as_str());

    let mut mempool = "".to_string();
    if let Some(port) = relayer_http_port(args, local) {
        mempool = " VITE_MEMPOOL_URL=http://127.0.0.1:".to_string();
        push_decimal(&mut mempool, port as u64);
    }
    let mut explorer = "VITE_SQL_URL=http://127.0.0.1:".to_string();
    push_decimal(&mut explorer, local.metadata_indexer_port as u64);
    explorer.append(" VITE_QMDB_URL=http://127.0.0.1:");
    push_decimal(&mut explorer, local.qmdb_indexer_port as u64);
    explorer.append(" VITE_STORE_URL=http://127.0.0.1:");
    push_decimal(&mut explorer, local.chain_indexer_port as u64);
    explorer.append(" VITE_SIMPLEX_VERIFICATION_MATERIAL=");
    explorer.append(verification_material);
    explorer.append(mempool.as_str());
    explorer.append(" npm --prefix explorer run dev");

    let mut commands: Vec<String> = Vec::new();
    commands.push(store);
    commands.push(
        start_reader("metadata-indexer", local.chain_indexer_port, local.metadata_indexer_port),
    );
    commands.push(start_reader("qmdb-indexer", local.chain_indexer_port, local.qmdb_indexer_port));
    commands.push(explorer);
    proof {
        assert(crate::text::texts(commands@) =~= indexer_commands(
            output_dir@,
            *args,
            *local,
            verification_material@,
        ));
    }
    commands
}

fn start_spammer(
    args: &GenerateArgs,
    local: &LocalArgs,
    relayer_targets: &Vec<String>,
    relayer_port_number: u16,
) -> (command: String)
    requires
        relayer_port_number == relayer_port(*args, *local),
    ensures
        command@ == spammer_command(*args, *local, crate::text::texts(relayer_targets@)),
{
    let mut command = match args.spammer_private_proof_mode {
        SpammerProofMode::Simulated =>
            "cargo run --release --bin constantinople-spammer --features constantinople-primitives/privacy-backend-zkpari,constantinople-spammer/privacy-backend-simulator".to_string(),
        SpammerProofMode::Real =>
            "cargo run --release --bin constantinople-spammer".to_string(),
    };
    command.append(" -- --relayer-url http://127.0.0.1:");
    push_decimal(&mut command, relayer_port_number as u64);
    command.append(" --relayer-submitters ");
    push_decimal(&mut command, args.validators as u64);
    command.append(" --relayer-targets ");
    command.append(join(relayer_targets.as_slice(), ",").as_str());
    command.append(" --accounts ");
    push_decimal(&mut command, args.spammer_accounts as u64);
    command.append(" --value ");
    push_decimal(&mut command, args.spammer_value);
    command.append(" --seed-offset ");
    push_decimal(&mut command, args.spammer_seed_offset);
    command.append(" --worker-threads ");
    push_decimal(&mut command, args.spammer_worker_threads as u64);
    command.append(" --rayon-threads ");
    push_decimal(&mut command, args.spammer_rayon_threads as u64);
    command.append(" --accounts-jitter ");
    command.append(args.spammer_accounts_jitter.as_str());
    command.append(" --presigned-batches ");
    push_decimal(&mut command, args.spammer_presigned_batches as u64);
    command.append(" --workload ");
    command.append(args.spammer_workload.as_str());
    command.append(" --private-groups ");
    push_decimal(&mut command, args.spammer_private_groups as u64);
    command.append(" --private-proof-mode ");
    command.append(args.spammer_private_proof_mode.as_str());
    command
}

/// Lists the commands that start a local deployment.
pub fn local_run_commands(
    output_dir: &str,
    args: &GenerateArgs,
    local: &LocalArgs,
    relayer_targets: &Vec<String>,
    verification_material: &str,
) -> (commands: Vec<String>)
    requires
        args.spammer ==> args.relayer,
        args.relayer ==> relayer_port(*args, *local) <= u16::MAX,
    ensures
        crate::text::texts(commands@) == run_commands(
            output_dir@,
            *args,
            *local,
            crate::text::texts(relayer_targets@),
            verification_material@,
        ),
{
    let cargo = match args.spammer_private_proof_mode {
        SpammerProofMode::Simulated =>
            "cargo run --release --bin constantinople --features constantinople-primitives/privacy-backend-zkpari",
        SpammerProofMode::Real => "cargo run --release --bin constantinople",
    };
    let mut commands = start_nodes(cargo, output_dir, "validator-", args.validators);
    let secondaries: u32 = list_roles(args.indexer, args.relayer).len() as u32;
    let mut more = start_nodes(cargo, output_dir, "secondary-", secondaries);
    let ghost first = commands@;
    let ghost second = more@;
    commands.append(&mut more);
    let ghost mut third = Seq::<String>::empty();
    if args.indexer {
        let mut indexers = start_indexers(output_dir, args, local, verification_material);
        proof {
            third = indexers@;
        }
        commands.append(&mut indexers);
    }
    let ghost mut fourth = Seq::<String>::empty();
    if args.spammer {
        if let Some(port) = relayer_http_port(args, local) {
            let spammer = start_spammer(args, local, relayer_targets, port);
            proof {
                fourth = seq![spammer];
            }
            commands.push(spammer);
        }
    }
    proof {
        assert(commands@ =~= first + second + third + fourth);
        assert(crate::text::texts(commands@) =~= crate::text::texts(first) + crate::text::texts(
            second,
        ) + crate::text::texts(third) + crate::text::texts(fourth));
        assert(crate::text::texts(fourth) =~= if args.spammer {
            seq![spammer_command(*args, *local, crate::text::texts(relayer_targets@))]
        } else {
            Seq::<Seq<char>>::empty()
        });
        assert(args.indexer || crate::text::texts(third) =~= Seq::<Seq<char>>::empty());
        assert(crate::text::texts(commands@) =~= run_commands(
            output_dir@,
            *args,
            *local,
            crate::text::texts(relayer_targets@),
            verification_material@,
        ));
    }
    commands
}

/// Commands in double quotes.
pub open spec fn quoted(commands: Seq<Seq<char>>) -> Seq<Seq<char>> {
    Seq::new(commands.len(), |i: int| "\""@ + commands[i] + "\""@)
}

/// Returns the command that starts a whole deployment under one process manager.
pub fn mprocs_command(commands: &Vec<String>) -> (command: String)
    ensures
        command@ == "mprocs "@ + crate::text::joined(
            quoted(crate::text::texts(commands@)),
            " "@,
        ),
{
    let mut parts: Vec<String> = Vec::new();
    let mut i: usize = 0;
    while i < commands.len()
        invariant
            i <= commands.len(),
            parts@.len() == i,
            forall|j: int|
                0 <= j < i ==> (#[trigger] parts@[j])@ == "\""@ + commands@[j]@ + "\""@,
        decreases commands.len() - i,
    {
        let mut part = "\"".to_string();
        part.append(commands[i].as_str());
        part.append("\"");
        parts.push(part);
        i += 1;
    }
    proof {
        assert(crate::text::texts(parts@) =~= quoted(crate::text::texts(commands@)));
    }
    let mut command = "mprocs ".to_string();
    command.append(join(parts.as_slice(), " ").as_str());
    command
}

/// A local deployment, ready to be written.
pub struct LocalBundle {
    /// Primary validators.
    pub validators: Vec<GeneratedValidator>,
    /// Secondaries.
    pub secondaries: Vec<GeneratedValidator>,
    /// The peers file.
    pub peers: PeersFile,
    /// Hex-encoded verification material.
    pub verification_material: String,
    /// Commands that start the deployment.
    pub commands: Vec<String>,
}

fn peers_of(nodes: &Vec<GeneratedValidator>) -> (peers: Vec<PeerEntry>)
    ensures
        peers@ == Seq::new(nodes@.len(), |i: int| nodes@[i].peer),
{
    let mut peers: Vec<PeerEntry> = Vec::new();
    let mut i: usize = 0;
    while i < nodes.len()
        invariant
            i <= nodes.len(),
            peers@.len() == i,
            forall|j: int| 0 <= j < i ==> #[trigger] peers@[j] == nodes@[j].peer,
        decreases nodes.len() - i,
    {
        let peer = &nodes[i].peer;
        peers.push(
            PeerEntry { name: peer.name.clone(), p2p: peer.p2p.clone(), http: peer.http.clone() },
        );
        i += 1;
    }
    proof {
        assert(peers@ =~= Seq::new(nodes@.len(), |i: int| nodes@[i].peer));
    }
    peers
}

/// Whether a bundle is the deployment that the options ask for.
pub open spec fn is_bundle(
    bundle: LocalBundle,
    args: GenerateArgs,
    local: LocalArgs,
    output_dir: Seq<char>,
    material: ClusterMaterial,
) -> bool {
    let roles = crate::deploy::plan::roles(args.indexer, args.relayer);
    &&& bundle.validators@.len() == args.validators
    &&& forall|i: int|
        0 <= i < args.validators ==> is_primary(
            #[trigger] bundle.validators@[i],
            args,
            local,
            output_dir,
            material,
            i,
        )
    &&& bundle.secondaries@.len() == roles.len()
    &&& forall|i: int|
        0 <= i < roles.len() ==> is_secondary(
            #[trigger] bundle.secondaries@[i],
            args,
            local,
            output_dir,
            material,
            i,
            roles[i],
        )
    &&& bundle.peers.validators@ == Seq::new(
        bundle.validators@.len(),
        |i: int| bundle.validators@[i].peer,
    )
    &&& bundle.peers.secondaries@ == Seq::new(
        bundle.secondaries@.len(),
        |i: int| bundle.secondaries@[i].peer,
    )
    &&& bundle.verification_material@ == crate::formatting::hex_text(material.dealing.group_key@)
    &&& crate::text::texts(bundle.commands@) == run_commands(
        output_dir,
        args,
        local,
        crate::deploy::material::hex_texts(material.public_keys@),
        bundle.verification_material@,
    )
}

/// Generates a local deployment.
pub fn generate(
    args: &GenerateArgs,
    local: &LocalArgs,
    output_dir: &str,
    material: &ClusterMaterial,
) -> (bundle: Result<LocalBundle, LocalError>)
    requires
        args.spammer ==> args.relayer,
        material.public_keys@.len() == args.validators,
        material.signers@.len() == args.validators,
        ({
            let roles = crate::deploy::plan::roles(args.indexer, args.relayer);
            &&& material.secondary_public_keys@.len() >= roles.len()
            &&& material.secondary_signers@.len() >= roles.len()
        }),
    ensures
        ({
            let roles = crate::deploy::plan::roles(args.indexer, args.relayer);
            match bundle {
                Ok(bundle) => {
                    &&& is_bundle(bundle, *args, *local, output_dir@, *material)
                    &&& primaries_fit(*local, *material, args.validators as int)
                    &&& secondaries_fit(*args, *local, *material, roles.len() as int)
                },
                Err(error) => {
                    ||| primary_fails(*args, *local, *material, error)
                    ||| {
                        &&& primaries_fit(*local, *material, args.validators as int)
                        &&& secondary_fails(*args, *local, *material, error)
                    }
                },
            }
        }),
{
    let validators = match build_validators(args, local, output_dir, material) {
        Ok(nodes) => nodes,
        Err(error) => return Err(error),
    };
    let secondaries = match build_secondaries(args, local, output_dir, material) {
        Ok(nodes) => nodes,
        Err(error) => return Err(error),
    };
    proof {
        let roles = crate::deploy::plan::roles(args.indexer, args.relayer);
        if args.relayer {
            assert(roles[roles.len() - 1] is Relayer);
        }
    }
    let peers = PeersFile { validators: peers_of(&validators), secondaries: peers_of(&secondaries) };
    let verification_material = material.simplex_verification_material_hex();
    let targets = material.primary_hex();
    let commands = local_run_commands(
        output_dir,
        args,
        local,
        &targets,
        verification_material.as_str(),
    );
    Ok(LocalBundle { validators, secondaries, peers, verification_material, commands })
}

/// Decoding the hex renderings of public keys gives the keys back.
proof fn rendered_keys_decode(
    keys: Seq<Vec<u8>>,
    field: crate::validator::config::HexField,
)
    requires
        crate::deploy::material::valid_keys(keys),
    ensures
        crate::validator::config::public_keys_in(
            crate::deploy::material::hex_texts(keys),
            field,
        ) == Ok::<Seq<Seq<u8>>, crate::validator::config::ConfigProblem>(crate::keys::blobs(keys)),
    decreases keys.len(),
{
    let texts = crate::deploy::material::hex_texts(keys);
    if keys.len() == 0 {
        assert(crate::keys::blobs(keys) =~= Seq::<Seq<u8>>::empty());
    } else {
        rendered_keys_decode(keys.drop_last(), field);
        assert(texts.drop_last() =~= crate::deploy::material::hex_texts(keys.drop_last()));
        rendered_key_decodes(keys.last()@, field);
        assert(crate::keys::blobs(keys) =~= crate::keys::blobs(keys.drop_last()).push(
            keys.last()@,
        ));
    }
}

/// Decoding the hex rendering of a public key gives the key back.
proof fn rendered_key_decodes(key: Seq<u8>, field: crate::validator::config::HexField)
    requires
        crate::keys::encodes_public_key(key),
        key.len() == crate::keys::PUBLIC_KEY_BYTES,
    ensures
        crate::validator::config::public_key_in(crate::formatting::hex_text(key), field) == Ok::<
            Seq<u8>,
            crate::validator::config::ConfigProblem,
        >(key),
{
    crate::formatting::hex_round_trip(key);
    assert(key.take(crate::keys::PUBLIC_KEY_BYTES as int) =~= key);
}

/// A filed name has an address.
proof fn filed_name_has_address(
    entries: Seq<(Seq<char>, Seq<char>)>,
    name: Seq<char>,
    at: int,
)
    requires
        0 <= at < entries.len(),
        entries[at].0 == name,
    ensures
        crate::validator::config::address_of(entries, name) is Some,
    decreases entries.len(),
{
    if entries.last().0 != name {
        filed_name_has_address(entries.drop_last(), name, at);
    }
}

/// An address that is found is one of those that are filed.
proof fn filed_address_is_listed(entries: Seq<(Seq<char>, Seq<char>)>, name: Seq<char>)
    ensures
        crate::validator::config::address_of(entries, name) matches Some(address) ==> exists|i: int|
            0 <= i < entries.len() && (#[trigger] entries[i]).1 == address,
    decreases entries.len(),
{
    if entries.len() > 0 {
        if entries.last().0 == name {
            assert(entries[entries.len() - 1].1 == entries.last().1);
        } else {
            let front = entries.drop_last();
            filed_address_is_listed(front, name);
            if let Some(address) = crate::validator::config::address_of(front, name) {
                let i = choose|i: int| 0 <= i < front.len() && (#[trigger] front[i]).1 == address;
                assert(entries[i].1 == address);
            }
        }
    }
}

/// Whether every filed address is a socket address.
pub open spec fn well_addressed(book: crate::validator::config::AddressBook) -> bool {
    &&& forall|i: int|
        0 <= i < book.p2p.len() ==> !book.malformed.contains((#[trigger] book.p2p[i]).1)
    &&& forall|i: int|
        0 <= i < book.http.len() ==> !book.malformed.contains((#[trigger] book.http[i]).1)
}

/// Bootstrappers that are filed and named after their keys resolve.
proof fn filed_bootstrappers_resolve(
    entries: Seq<(Seq<char>, Seq<char>)>,
    keys: Seq<Vec<u8>>,
    book: crate::validator::config::AddressBook,
)
    requires
        entries.len() <= keys.len(),
        entries.len() <= book.p2p.len(),
        well_addressed(book),
        crate::deploy::material::valid_keys(keys),
        forall|i: int|
            0 <= i < entries.len() ==> {
                &&& (#[trigger] entries[i]).0 == crate::formatting::hex_text(keys[i]@)
                &&& entries[i].1 == crate::formatting::hex_text(keys[i]@)
                &&& book.p2p[i].0 == crate::formatting::hex_text(keys[i]@)
            },
    ensures
        crate::validator::config::bootstrappers_in(entries, book) is Ok,
    decreases entries.len(),
{
    if entries.len() > 0 {
        let last = entries.len() - 1;
        assert(entries[last].0 == crate::formatting::hex_text(keys[last]@));
        filed_bootstrappers_resolve(entries.drop_last(), keys, book);
        rendered_key_decodes(
            keys[last]@,
            crate::validator::config::HexField::BootstrapperPublicKey,
        );
        filed_name_has_address(book.p2p, entries.last().1, last);
        filed_address_is_listed(book.p2p, entries.last().1);
    }
}

/// Whether the peers file names every node of the cluster, primaries first.
pub open spec fn names_cluster(peers: PeersFile, material: ClusterMaterial) -> bool {
    &&& peers.validators@.len() == material.public_keys@.len()
    &&& peers.secondaries@.len() == material.secondary_public_keys@.len()
    &&& forall|i: int|
        0 <= i < peers.validators@.len() ==> (#[trigger] peers.validators@[i]).name@
            == crate::formatting::hex_text(material.public_keys@[i]@)
    &&& forall|i: int|
        0 <= i < peers.secondaries@.len() ==> (#[trigger] peers.secondaries@[i]).name@
            == crate::formatting::hex_text(material.secondary_public_keys@[i]@)
}

/// Whether every dealt share reads back from what is written of it. A share of zero does not.
pub open spec fn shares_read_back(material: ClusterMaterial) -> bool {
    forall|i: int|
        0 <= i < material.dealing.shares@.len() ==> crate::keys::share_in(
            (#[trigger] material.dealing.shares@[i]).1@,
        ) is Some
}

/// Whether a node loads with the addresses of a book.
pub open spec fn loads_with(
    config: ValidatorConfig,
    book: crate::validator::config::AddressBook,
) -> bool {
    &&& crate::validator::config::network_rejection(config) is None
    &&& crate::validator::config::network_in(config, book) is Ok
}

/// The addresses of a peers file, some of which may be no socket addresses.
pub open spec fn book_of(peers: PeersFile, malformed: Seq<String>) -> crate::validator::config::AddressBook {
    crate::validator::config::peer_book(crate::validator::config::all_peers(peers), malformed)
}

/// A node of a cluster loads with a peers file that names the cluster.
proof fn named_node_loads(
    node: GeneratedValidator,
    args: GenerateArgs,
    local: LocalArgs,
    output_dir: Seq<char>,
    material: ClusterMaterial,
    peers: PeersFile,
    malformed: Seq<String>,
    index: int,
    role: Option<SecondaryRole>,
)
    requires
        material.well_formed(),
        names_cluster(peers, material),
        well_addressed(book_of(peers, malformed)),
        shares_read_back(material),
        material.public_keys@.len() == args.validators,
        args.max_propose_bytes <= args.max_shard_bytes,
        args.max_shard_bytes <= args.network_buffer_pool_max_bytes,
        match role {
            None => {
                &&& 0 <= index < material.public_keys@.len()
                &&& is_primary(node, args, local, output_dir, material, index)
            },
            Some(role) => {
                &&& 0 <= index < material.secondary_public_keys@.len()
                &&& is_secondary(node, args, local, output_dir, material, index, role)
            },
        },
    ensures
        loads_with(node.config, book_of(peers, malformed)),
{
    let book = book_of(peers, malformed);
    let addresses = book.p2p;
    let primaries = material.public_keys@;
    let (signer, key) = match role {
        None => (material.signers@[index]@, primaries[index]@),
        Some(_) => (
            material.secondary_signers@[index]@,
            material.secondary_public_keys@[index]@,
        ),
    };
    assert(key == crate::keys::derived_public_key(signer));
    crate::formatting::hex_round_trip(signer);
    assert(signer.take(crate::keys::PRIVATE_KEY_BYTES as int) =~= signer);
    rendered_keys_decode(primaries, crate::validator::config::HexField::PrimaryValidators);
    rendered_keys_decode(
        material.secondary_public_keys@,
        crate::validator::config::HexField::SecondaryValidators,
    );
    let listed = match role {
        None => crate::keys::blobs(primaries),
        Some(_) => crate::keys::blobs(material.secondary_public_keys@),
    };
    assert(listed[index] == key);
    let position = match role {
        None => index,
        Some(_) => primaries.len() + index,
    };
    match role {
        None => {
            assert(peers.validators@[index].name@ == crate::formatting::hex_text(key));
        },
        Some(_) => {
            assert(peers.secondaries@[index].name@ == crate::formatting::hex_text(key));
        },
    }
    filed_name_has_address(addresses, crate::formatting::hex_text(key), position);
    filed_address_is_listed(addresses, crate::formatting::hex_text(key));
    filed_address_is_listed(book.http, crate::formatting::hex_text(key));
    let entries = crate::validator::config::bootstrapper_texts(node.config.bootstrappers@);
    assert forall|i: int| 0 <= i < entries.len() implies {
        &&& (#[trigger] entries[i]).0 == crate::formatting::hex_text(primaries[i]@)
        &&& entries[i].1 == crate::formatting::hex_text(primaries[i]@)
        &&& addresses[i].0 == crate::formatting::hex_text(primaries[i]@)
    } by {
        assert(crate::deploy::material::names_key(node.config.bootstrappers@[i], primaries[i]@));
        assert(peers.validators@[i].name@ == crate::formatting::hex_text(primaries[i]@));
    }
    filed_bootstrappers_resolve(entries, primaries, book);
    crate::formatting::hex_round_trip(material.dealing.output@);
    rendered_key_decodes(primaries[0]@, crate::validator::config::HexField::GenesisLeader);
    if role is None {
        let at = material.share_position(key).unwrap();
        crate::deploy::material::primaries_hold_shares(material, index);
        crate::formatting::hex_round_trip(material.dealing.shares@[at].1@);
    }
}

/// Every node of a generated local deployment loads with the generated peers file, provided its
/// addresses are socket addresses, its size limits nest and no dealt share is zero.
pub proof fn generated_nodes_load(
    bundle: LocalBundle,
    args: GenerateArgs,
    local: LocalArgs,
    output_dir: Seq<char>,
    material: ClusterMaterial,
    malformed: Seq<String>,
)
    requires
        well_addressed(book_of(bundle.peers, malformed)),
        is_bundle(bundle, args, local, output_dir, material),
        material.well_formed(),
        material.public_keys@.len() == args.validators,
        material.secondary_public_keys@.len() == crate::deploy::plan::roles(
            args.indexer,
            args.relayer,
        ).len(),
        shares_read_back(material),
        args.max_propose_bytes <= args.max_shard_bytes,
        args.max_shard_bytes <= args.network_buffer_pool_max_bytes,
    ensures
        forall|i: int|
            0 <= i < bundle.validators@.len() ==> loads_with(
                (#[trigger] bundle.validators@[i]).config,
                book_of(bundle.peers, malformed),
            ),
        forall|i: int|
            0 <= i < bundle.secondaries@.len() ==> loads_with(
                (#[trigger] bundle.secondaries@[i]).config,
                book_of(bundle.peers, malformed),
            ),
{
    let roles = crate::deploy::plan::roles(args.indexer, args.relayer);
    assert forall|i: int| 0 <= i < bundle.peers.validators@.len() implies (
    #[trigger] bundle.peers.validators@[i]).name@ == crate::formatting::hex_text(
        material.public_keys@[i]@,
    ) by {
        assert(bundle.peers.validators@[i] == bundle.validators@[i].peer);
    }
    assert forall|i: int| 0 <= i < bundle.peers.secondaries@.len() implies (
    #[trigger] bundle.peers.secondaries@[i]).name@ == crate::formatting::hex_text(
        material.secondary_public_keys@[i]@,
    ) by {
        assert(bundle.peers.secondaries@[i] == bundle.secondaries@[i].peer);
    }
    assert forall|i: int| 0 <= i < bundle.validators@.len() implies loads_with(
        (#[trigger] bundle.validators@[i]).config,
        book_of(bundle.peers, malformed),
    ) by {
        named_node_loads(
            bundle.validators@[i],
            args,
            local,
            output_dir,
            material,
            bundle.peers,
            malformed,
            i,
            None,
        );
    }
    assert forall|i: int| 0 <= i < bundle.secondaries@.len() implies loads_with(
        (#[trigger] bundle.secondaries@[i]).config,
        book_of(bundle.peers, malformed),
    ) by {
        named_node_loads(
            bundle.secondaries@[i],
            args,
            local,
            output_dir,
            material,
            bundle.peers,
            malformed,
            i,
            Some(roles[i]),
        );
    }
}

/// The nodes of a bundle: the primaries, then the secondaries.
pub open spec fn all_nodes(bundle: LocalBundle) -> Seq<GeneratedValidator> {
    bundle.validators@ + bundle.secondaries@
}

/// No two nodes of a local deployment of fewer than 65 536 primaries share a port.
pub proof fn local_ports_are_distinct(
    bundle: LocalBundle,
    args: GenerateArgs,
    local: LocalArgs,
    output_dir: Seq<char>,
    material: ClusterMaterial,
    left: int,
    right: int,
)
    requires
        is_bundle(bundle, args, local, output_dir, material),
        args.validators < 0x1_0000,
        0 <= left < right < all_nodes(bundle).len(),
    ensures
        ({
            let first = all_nodes(bundle)[left].config;
            let second = all_nodes(bundle)[right].config;
            &&& first.listen_port != second.listen_port
            &&& first.http_port != second.http_port
            &&& first.metrics_port != second.metrics_port
        }),
{
    let primaries = bundle.validators@.len();
    if left < primaries {
        assert(all_nodes(bundle)[left] == bundle.validators@[left]);
    } else {
        assert(all_nodes(bundle)[left] == bundle.secondaries@[left - primaries]);
    }
    if right < primaries {
        assert(all_nodes(bundle)[right] == bundle.validators@[right]);
    } else {
        assert(all_nodes(bundle)[right] == bundle.secondaries@[right - primaries]);
    }
}

/// The verification material of a local deployment can be read out of the config of each of its
/// nodes.
pub proof fn configs_give_material(
    bundle: LocalBundle,
    args: GenerateArgs,
    local: LocalArgs,
    output_dir: Seq<char>,
    material: ClusterMaterial,
    index: int,
)
    requires
        is_bundle(bundle, args, local, output_dir, material),
        material.well_formed(),
        material.public_keys@.len() == args.validators,
        0 <= index < all_nodes(bundle).len(),
    ensures
        ({
            let config = all_nodes(bundle)[index].config;
            crate::deploy::material::simplex_material_in(config.dkg_output@, config.num_validators)
                == Ok::<Seq<char>, crate::deploy::material::SimplexMaterialError>(
                bundle.verification_material@,
            )
        }),
{
    let primaries = bundle.validators@.len();
    if index < primaries {
        assert(all_nodes(bundle)[index] == bundle.validators@[index]);
    } else {
        assert(all_nodes(bundle)[index] == bundle.secondaries@[index - primaries]);
    }
    crate::deploy::material::written_output_gives_material(material);
}

/// A loopback URL is a scheme before a loopback address.
proof fn url_wraps_address(port: int)
    ensures
        loopback_url(port) == "http://"@ + loopback(port),
{
    reveal_strlit("http://127.0.0.1:");
    reveal_strlit("http://");
    reveal_strlit("127.0.0.1:");
    assert("http://127.0.0.1:"@ =~= "http://"@ + "127.0.0.1:"@);
    assert(loopback_url(port) =~= "http://"@ + loopback(port));
}

proof fn loopback_is_injective(left: int, right: int)
    requires
        left >= 0,
        right >= 0,
        loopback(left) == loopback(right),
    ensures
        left == right,
{
    let prefix = "127.0.0.1:"@;
    let first = crate::text::decimal(left as nat);
    let second = crate::text::decimal(right as nat);
    assert((prefix + first).skip(prefix.len() as int) =~= first);
    assert((prefix + second).skip(prefix.len() as int) =~= second);
    crate::text::decimal_is_injective(left as nat, right as nat);
}

/// The relayer submits to every primary where that primary serves: what [`local_relayer_config`]
/// answers names, for each node that [`build_validators`] generates, its key and the URL of the
/// HTTP address under which its peers know it. That address is the loopback host at the node's own
/// HTTP port, as the p2p address is at its own listening port.
pub proof fn relayer_leads_to_primaries(
    args: GenerateArgs,
    local: LocalArgs,
    output_dir: &str,
    material: ClusterMaterial,
    nodes: Vec<GeneratedValidator>,
    relayer: RelayerConfig,
    index: int,
)
    requires
        material.public_keys@.len() == args.validators,
        call_ensures(
            build_validators,
            (&args, &local, output_dir, &material),
            Ok::<Vec<GeneratedValidator>, LocalError>(nodes),
        ),
        call_ensures(
            local_relayer_config,
            (&args, &local, &material),
            Ok::<RelayerConfig, LocalError>(relayer),
        ),
        0 <= index < nodes@.len(),
    ensures
        nodes@.len() == args.validators,
        relayer.leaders@.len() == nodes@.len(),
        relayer.leaders@[index].url@ == "http://"@ + nodes@[index].peer.http@,
        relayer.leaders@[index].public_key@ == nodes@[index].peer.name@,
        nodes@[index].peer.http@ == "127.0.0.1:"@ + crate::text::decimal(
            nodes@[index].config.http_port as nat,
        ),
        nodes@[index].peer.p2p@ == "127.0.0.1:"@ + crate::text::decimal(
            nodes@[index].config.listen_port as nat,
        ),
        relayer.max_retry_views == args.relayer_max_retry_views,
{
    url_wraps_address(local.base_http_port + port_offset(index));
}

/// In a local deployment of fewer than 65 536 primaries no two leaders of the relayer share a URL.
pub proof fn leader_urls_are_distinct(
    args: GenerateArgs,
    local: LocalArgs,
    material: ClusterMaterial,
    relayer: RelayerConfig,
    left: int,
    right: int,
)
    requires
        call_ensures(
            local_relayer_config,
            (&args, &local, &material),
            Ok::<RelayerConfig, LocalError>(relayer),
        ),
        material.public_keys@.len() < 0x1_0000,
        0 <= left < right < material.public_keys@.len(),
    ensures
        relayer.leaders@[left].url@ != relayer.leaders@[right].url@,
{
    let first = local.base_http_port + port_offset(left);
    let second = local.base_http_port + port_offset(right);
    url_wraps_address(first);
    url_wraps_address(second);
    if relayer.leaders@[left].url@ == relayer.leaders@[right].url@ {
        let scheme = "http://"@;
        assert((scheme + loopback(first)).skip(scheme.len() as int) =~= loopback(first));
        assert((scheme + loopback(second)).skip(scheme.len() as int) =~= loopback(second));
        loopback_is_injective(first, second);
    }
}

/// A generated deployment hangs together. The indexer comes first among the secondaries and the
/// relayer last. The relayer's leaders are the primaries, in order, each by its name and at the URL
/// of its own HTTP address. The primaries' ports count up from the base ports, and the
/// secondaries' go on where those of the primaries end.
pub proof fn generated_deployment_hangs_together(
    args: GenerateArgs,
    local: LocalArgs,
    output_dir: &str,
    material: ClusterMaterial,
    bundle: LocalBundle,
    index: int,
)
    requires
        call_ensures(
            generate,
            (&args, &local, output_dir, &material),
            Ok::<LocalBundle, LocalError>(bundle),
        ),
        material.public_keys@.len() == args.validators,
        args.validators < 0x1_0000,
        0 <= index < bundle.validators@.len() + bundle.secondaries@.len(),
    ensures
        ({
            let node = all_nodes(bundle)[index];
            let relayer = bundle.secondaries@[bundle.secondaries@.len() - 1];
            &&& bundle.validators@.len() == args.validators
            &&& bundle.secondaries@.len() == (if args.indexer {
                1int
            } else {
                0
            }) + (if args.relayer {
                1int
            } else {
                0
            })
            &&& node.config.listen_port == local.base_port + index
            &&& node.config.http_port == local.base_http_port + index
            &&& node.config.metrics_port == local.base_metrics_port + index
            &&& node.peer.http@ == "127.0.0.1:"@ + crate::text::decimal(
                (local.base_http_port + index) as nat,
            )
            &&& node.peer.p2p@ == "127.0.0.1:"@ + crate::text::decimal(
                (local.base_port + index) as nat,
            )
            &&& node.config.indexer is Some <==> args.indexer && index == args.validators
            &&& node.config.relayer is Some <==> args.relayer && index == all_nodes(bundle).len() - 1
            &&& args.relayer ==> {
                &&& relayer.config.relayer matches Some(section)
                &&& section.max_retry_views == args.relayer_max_retry_views
                &&& section.leaders@.len() == bundle.validators@.len()
                &&& forall|i: int|
                    0 <= i < section.leaders@.len() ==> {
                        &&& (#[trigger] section.leaders@[i]).url@ == "http://"@
                            + bundle.validators@[i].peer.http@
                        &&& section.leaders@[i].public_key@ == bundle.validators@[i].peer.name@
                    }
            }
            &&& index < bundle.validators@.len() ==> node.peer
                == bundle.peers.validators@[index]
            &&& index >= bundle.validators@.len() ==> node.peer
                == bundle.peers.secondaries@[index - bundle.validators@.len()]
        }),
{
    let roles = crate::deploy::plan::roles(args.indexer, args.relayer);
    let primaries = bundle.validators@.len() as int;
    assert(roles.len() == (if args.indexer {
        1int
    } else {
        0
    }) + (if args.relayer {
        1int
    } else {
        0
    }));
    if index < primaries {
        assert(all_nodes(bundle)[index] == bundle.validators@[index]);
        assert(is_primary(bundle.validators@[index], args, local, output_dir@, material, index));
    } else {
        let at = index - primaries;
        assert(all_nodes(bundle)[index] == bundle.secondaries@[at]);
        assert(
            is_secondary(
                bundle.secondaries@[at],
                args,
                local,
                output_dir@,
                material,
                at,
                roles[at],
            )
        );
    }
    if args.relayer {
        let last = roles.len() - 1;
        assert(roles[last] is Relayer);
        let relayer = bundle.secondaries@[last];
        assert(is_secondary(relayer, args, local, output_dir@, material, last, roles[last]));
        let section = relayer.config.relayer.unwrap();
        assert forall|i: int| 0 <= i < section.leaders@.len() implies {
            &&& (#[trigger] section.leaders@[i]).url@ == "http://"@ + bundle.validators@[i].peer.http@
            &&& section.leaders@[i].public_key@ == bundle.validators@[i].peer.name@
        } by {
            assert(is_primary(bundle.validators@[i], args, local, output_dir@, material, i));
            url_wraps_address(local.base_http_port + port_offset(i));
        }
    }
}

/// The commands of a generated deployment start what was generated: first one command for each
/// node, with the node's own config file and the common peers file. Four for the indexer stack and
/// one for the spammer follow, where those were asked for.
pub proof fn commands_start_what_was_generated(
    args: GenerateArgs,
    local: LocalArgs,
    output_dir: &str,
    material: ClusterMaterial,
    bundle: LocalBundle,
    index: int,
)
    requires
        call_ensures(
            generate,
            (&args, &local, output_dir, &material),
            Ok::<LocalBundle, LocalError>(bundle),
        ),
        0 <= index < bundle.validators@.len() + bundle.secondaries@.len(),
    ensures
        bundle.commands@.len() == bundle.validators@.len() + bundle.secondaries@.len() + (
        if args.indexer {
            4int
        } else {
            0
        }) + (if args.spammer {
            1int
        } else {
            0
        }),
        bundle.commands@[index]@ == validator_cargo(args) + " -- --config "@ + all_nodes(
            bundle,
        )[index].config_file@ + " --peers "@ + joined_path(output_dir@, "peers.yaml"@),
{
    let roles = crate::deploy::plan::roles(args.indexer, args.relayer);
    let texts = crate::text::texts(bundle.commands@);
    let primaries = bundle.validators@.len() as int;
    assert(roles.len() == bundle.secondaries@.len());
    assert(texts.len() == bundle.commands@.len());
    assert(texts[index] == bundle.commands@[index]@);
    if index < primaries {
        assert(all_nodes(bundle)[index] == bundle.validators@[index]);
        assert(is_primary(bundle.validators@[index], args, local, output_dir@, material, index));
    } else {
        let at = index - primaries;
        assert(all_nodes(bundle)[index] == bundle.secondaries@[at]);
        assert(
            is_secondary(
                bundle.secondaries@[at],
                args,
                local,
                output_dir@,
                material,
                at,
                roles[at],
            )
        );
    }
}

/// The spammer of a generated deployment comes last among the commands and submits to the relayer
/// where the relayer serves.
pub proof fn spammer_submits_to_relayer(
    args: GenerateArgs,
    local: LocalArgs,
    output_dir: &str,
    material: ClusterMaterial,
    bundle: LocalBundle,
)
    requires
        call_ensures(
            generate,
            (&args, &local, output_dir, &material),
            Ok::<LocalBundle, LocalError>(bundle),
        ),
        args.spammer,
        args.relayer,
    ensures
        (spammer_cargo(args) + " -- --relayer-url http://"@
            + bundle.secondaries@[bundle.secondaries@.len() - 1].peer.http@
            + " --relayer-submitters "@ + crate::text::decimal(
            bundle.validators@.len(),
        )).is_prefix_of(bundle.commands@[bundle.commands@.len() - 1]@),
{
    let roles = crate::deploy::plan::roles(args.indexer, args.relayer);
    let texts = crate::text::texts(bundle.commands@);
    let last = roles.len() - 1;
    let end = bundle.commands@.len() - 1;
    assert(roles[last] is Relayer);
    let relayer = bundle.secondaries@[last];
    assert(is_secondary(relayer, args, local, output_dir@, material, last, roles[last]));
    let targets = crate::deploy::material::hex_texts(material.public_keys@);
    assert(texts.len() == bundle.commands@.len());
    assert(texts.len() == args.validators + roles.len() + (if args.indexer {
        4int
    } else {
        0
    }) + 1);
    assert(texts[end] == bundle.commands@[end]@);
    let command = spammer_command(args, local, targets);
    assert(texts[end] == command);
    reveal_strlit(" -- --relayer-url http://127.0.0.1:");
    reveal_strlit(" -- --relayer-url http://");
    reveal_strlit("127.0.0.1:");
    let cargo = spammer_cargo(args);
    let port = crate::text::decimal(relayer_port(args, local) as nat);
    assert(relayer.peer.http@ == "127.0.0.1:"@ + port);
    assert(" -- --relayer-url http://127.0.0.1:"@ =~= " -- --relayer-url http://"@
        + "127.0.0.1:"@);
    let head = cargo + " -- --relayer-url http://"@ + relayer.peer.http@;
    assert(cargo + " -- --relayer-url http://127.0.0.1:"@ + port =~= head);
    spammer_command_goes_on(args, local, targets);
}

proof fn spammer_command_goes_on(
    args: GenerateArgs,
    local: LocalArgs,
    relayer_targets: Seq<Seq<char>>,
)
    ensures
        (spammer_cargo(args) + " -- --relayer-url http://127.0.0.1:"@ + crate::text::decimal(
            relayer_port(args, local) as nat,
        ) + " --relayer-submitters "@ + crate::text::decimal(args.validators as nat)).is_prefix_of(
            spammer_command(args, local, relayer_targets),
        ),
{
}

/// The store of a generated deployment listens where the indexer secondary uploads.
pub proof fn indexer_uploads_to_store(
    args: GenerateArgs,
    local: LocalArgs,
    output_dir: &str,
    material: ClusterMaterial,
    bundle: LocalBundle,
    port: u16,
)
    requires
        call_ensures(
            generate,
            (&args, &local, output_dir, &material),
            Ok::<LocalBundle, LocalError>(bundle),
        ),
        args.indexer,
        bundle.secondaries@[0].config.indexer matches Some(indexer)
            && indexer.chain_indexer_url@ == "http://127.0.0.1:"@ + crate::text::decimal(
            port as nat,
        ),
    ensures
        bundle.commands@[all_nodes(bundle).len() as int]@
            == "cargo run --release -p constantinople-indexer --bin chain-indexer -- --port "@
            + crate::text::decimal(port as nat) + " --data-dir "@ + joined_path(
            output_dir@,
            "chain-indexer"@,
        ),
{
    let roles = crate::deploy::plan::roles(args.indexer, args.relayer);
    let texts = crate::text::texts(bundle.commands@);
    assert(roles[0] is Indexer);
    let node = bundle.secondaries@[0];
    assert(is_secondary(node, args, local, output_dir@, material, 0, roles[0]));
    let start = all_nodes(bundle).len() as int;
    assert(start == args.validators + roles.len());
    let scheme = "http://127.0.0.1:"@;
    let own = crate::text::decimal(local.chain_indexer_port as nat);
    let given = crate::text::decimal(port as nat);
    assert((scheme + own).skip(scheme.len() as int) =~= own);
    assert((scheme + given).skip(scheme.len() as int) =~= given);
    crate::text::decimal_is_injective(local.chain_indexer_port as nat, port as nat);
    assert(texts.len() == bundle.commands@.len());
    assert(texts.len() >= args.validators + roles.len() + 4);
    assert(texts[start] == bundle.commands@[start]@);
    let material_text = bundle.verification_material@;
    assert(texts[start] == indexer_commands(output_dir@, args, local, material_text)[0]);
}

/// A local deployment of fewer than 65 536 primaries, whose material holds together, is generated
/// exactly if the ports of its last node are in range.
pub proof fn deployment_in_range_is_generated(
    args: GenerateArgs,
    local: LocalArgs,
    output_dir: &str,
    material: ClusterMaterial,
    bundle: Result<LocalBundle, LocalError>,
)
    requires
        call_ensures(generate, (&args, &local, output_dir, &material), bundle),
        material.well_formed(),
        material.public_keys@.len() == args.validators,
        args.validators < 0x1_0000,
    ensures
        ({
            let nodes = args.validators + (if args.indexer {
                1int
            } else {
                0
            }) + (if args.relayer {
                1int
            } else {
                0
            });
            bundle is Ok <==> {
                &&& local.base_port + nodes - 1 <= 65_535
                &&& local.base_http_port + nodes - 1 <= 65_535
                &&& local.base_metrics_port + nodes - 1 <= 65_535
            }
        }),
{
    let roles = crate::deploy::plan::roles(args.indexer, args.relayer);
    let nodes = args.validators + roles.len();
    let in_range = local.base_port + nodes - 1 <= 65_535 && local.base_http_port + nodes - 1
        <= 65_535 && local.base_metrics_port + nodes - 1 <= 65_535;
    assert(args.validators > 0);
    if in_range {
        assert forall|i: int| 0 <= i < args.validators implies #[trigger] primary_rejection(
            local,
            material,
            i,
        ) is None by {
            crate::deploy::material::primaries_hold_shares(material, i);
        }
        assert forall|i: int| 0 <= i < roles.len() implies secondary_rejection(
            args,
            local,
            material,
            i,
            #[trigger] roles[i],
        ) is None by {}
    }
    if bundle is Ok {
        if roles.len() > 0 {
            let last = roles.len() - 1;
            assert(secondary_rejection(args, local, material, last, roles[last]) is None);
        } else {
            assert(primary_rejection(local, material, args.validators - 1) is None);
        }
    }
}

/// A path inside a directory has one slash between the two, and an absolute name stands for itself.
pub proof fn paths_stay_inside(dir: &str, name: &str, path: String)
    requires
        call_ensures(join_path, (dir, name), path),
    ensures
        name@.len() > 0 && name@[0] == '/' ==> path@ == name@,
        !(name@.len() > 0 && name@[0] == '/') ==> {
            &&& dir@.is_prefix_of(path@)
            &&& path@.skip(path@.len() - name@.len()) == name@
            &&& dir@.len() > 0 && dir@.last() != '/' ==> path@.len() == dir@.len() + 1
                + name@.len() && path@[dir@.len() as int] == '/'
            &&& dir@.len() == 0 || dir@.last() == '/' ==> path@.len() == dir@.len() + name@.len()
        },
{
    reveal_strlit("/");
    if !(name@.len() > 0 && name@[0] == '/') {
        assert(path@.skip(path@.len() - name@.len()) =~= name@);
    }
}

/// Traces are written into configs exactly while the rate is above zero, and then to the endpoint that
/// was asked for.
pub proof fn traces_are_written_while_sampled(local: LocalArgs, endpoint: Option<String>)
    requires
        call_ensures(local_otel_endpoint, (&local,), endpoint),
    ensures
        endpoint is Some <==> local.traces.positive(),
        endpoint matches Some(endpoint) ==> endpoint == local.otel_endpoint,
{
}

/// The whole spammer command of a generated deployment carries the options that were asked for.
pub proof fn spammer_runs_with_options(
    args: GenerateArgs,
    local: LocalArgs,
    output_dir: &str,
    material: ClusterMaterial,
    bundle: LocalBundle,
)
    requires
        call_ensures(
            generate,
            (&args, &local, output_dir, &material),
            Ok::<LocalBundle, LocalError>(bundle),
        ),
        args.spammer,
        args.relayer,
    ensures
        bundle.commands@[bundle.commands@.len() - 1]@ == spammer_cargo(args)
            + " -- --relayer-url http://127.0.0.1:"@ + crate::text::decimal(
            bundle.secondaries@[bundle.secondaries@.len() - 1].config.http_port as nat,
        ) + " --relayer-submitters "@ + crate::text::decimal(bundle.validators@.len())
            + " --relayer-targets "@ + crate::text::joined(
            crate::deploy::material::hex_texts(material.public_keys@),
            ","@,
        ) + " --accounts "@ + crate::text::decimal(args.spammer_accounts as nat) + " --value "@
            + crate::text::decimal(args.spammer_value as nat) + " --seed-offset "@
            + crate::text::decimal(args.spammer_seed_offset as nat) + " --worker-threads "@
            + crate::text::decimal(args.spammer_worker_threads as nat) + " --rayon-threads "@
            + crate::text::decimal(args.spammer_rayon_threads as nat) + " --accounts-jitter "@
            + args.spammer_accounts_jitter@ + " --presigned-batches "@ + crate::text::decimal(
            args.spammer_presigned_batches as nat,
        ) + " --workload "@ + args.spammer_workload.name() + " --private-groups "@
            + crate::text::decimal(args.spammer_private_groups as nat) + " --private-proof-mode "@
            + args.spammer_private_proof_mode.name(),
{
    let roles = crate::deploy::plan::roles(args.indexer, args.relayer);
    let texts = crate::text::texts(bundle.commands@);
    let last = roles.len() - 1;
    let end = bundle.commands@.len() - 1;
    assert(roles[last] is Relayer);
    let relayer = bundle.secondaries@[last];
    assert(is_secondary(relayer, args, local, output_dir@, material, last, roles[last]));
    let targets = crate::deploy::material::hex_texts(material.public_keys@);
    assert(texts.len() == bundle.commands@.len());
    assert(texts.len() == args.validators + roles.len() + (if args.indexer {
        4int
    } else {
        0
    }) + 1);
    assert(texts[end] == bundle.commands@[end]@);
    assert(texts[end] == spammer_command(args, local, targets));
}

/// The services of a generated deployment's indexer stack find each other: both readers read from the
/// store that the indexer secondary uploads to, and the explorer asks the readers where they listen.
pub proof fn indexer_stack_is_wired(
    args: GenerateArgs,
    local: LocalArgs,
    output_dir: &str,
    material: ClusterMaterial,
    bundle: LocalBundle,
    store: Seq<char>,
)
    requires
        call_ensures(
            generate,
            (&args, &local, output_dir, &material),
            Ok::<LocalBundle, LocalError>(bundle),
        ),
        args.indexer,
        bundle.secondaries@[0].config.indexer matches Some(indexer) && store
            == indexer.chain_indexer_url@,
    ensures
        ({
            let start = all_nodes(bundle).len() as int;
            let sql = crate::text::decimal(local.metadata_indexer_port as nat);
            let qmdb = crate::text::decimal(local.qmdb_indexer_port as nat);
            &&& bundle.commands@[start + 1]@
                == "cargo run --release -p constantinople-indexer --bin "@ + "metadata-indexer"@
                + " -- --store-url "@ + store + " --port "@ + sql
            &&& bundle.commands@[start + 2]@
                == "cargo run --release -p constantinople-indexer --bin "@ + "qmdb-indexer"@
                + " -- --store-url "@ + store + " --port "@ + qmdb
            &&& ("VITE_SQL_URL=http://127.0.0.1:"@ + sql + " VITE_QMDB_URL=http://127.0.0.1:"@
                + qmdb).is_prefix_of(bundle.commands@[start + 3]@)
        }),
{
    let roles = crate::deploy::plan::roles(args.indexer, args.relayer);
    let texts = crate::text::texts(bundle.commands@);
    assert(roles[0] is Indexer);
    assert(
        is_secondary(bundle.secondaries@[0], args, local, output_dir@, material, 0, roles[0])
    );
    let start = all_nodes(bundle).len() as int;
    assert(start == args.validators + roles.len());
    assert(texts.len() == bundle.commands@.len());
    assert(texts.len() >= args.validators + roles.len() + 4);
    let stack = indexer_commands(output_dir@, args, local, bundle.verification_material@);
    assert(texts[start + 1] == bundle.commands@[start + 1]@);
    assert(texts[start + 2] == bundle.commands@[start + 2]@);
    assert(texts[start + 3] == bundle.commands@[start + 3]@);
    assert(texts[start + 1] == stack[1]);
    assert(texts[start + 2] == stack[2]);
    assert(texts[start + 3] == stack[3]);
    reader_reads_from("metadata-indexer"@, local.chain_indexer_port, local.metadata_indexer_port);
    reader_reads_from("qmdb-indexer"@, local.chain_indexer_port, local.qmdb_indexer_port);
    explorer_asks_readers(output_dir@, args, local, bundle.verification_material@);
}

proof fn reader_reads_from(binary: Seq<char>, store_port: u16, port: u16)
    ensures
        reader_command(binary, store_port, port)
            == "cargo run --release -p constantinople-indexer --bin "@ + binary
            + " -- --store-url "@ + loopback_url(store_port as int) + " --port "@
            + crate::text::decimal(port as nat),
{
    reveal_strlit(" -- --store-url http://127.0.0.1:");
    reveal_strlit(" -- --store-url ");
    reveal_strlit("http://127.0.0.1:");
    assert(" -- --store-url http://127.0.0.1:"@ =~= " -- --store-url "@ + "http://127.0.0.1:"@);
    let head = "cargo run --release -p constantinople-indexer --bin "@ + binary;
    let number = crate::text::decimal(store_port as nat);
    assert(head + (" -- --store-url "@ + "http://127.0.0.1:"@) + number =~= head
        + " -- --store-url "@ + ("http://127.0.0.1:"@ + number));
}

proof fn explorer_asks_readers(
    output_dir: Seq<char>,
    args: GenerateArgs,
    local: LocalArgs,
    verification_material: Seq<char>,
)
    ensures
        ("VITE_SQL_URL=http://127.0.0.1:"@ + crate::text::decimal(
            local.metadata_indexer_port as nat,
        ) + " VITE_QMDB_URL=http://127.0.0.1:"@ + crate::text::decimal(
            local.qmdb_indexer_port as nat,
        )).is_prefix_of(indexer_commands(output_dir, args, local, verification_material)[3]),
{
}

/// Every node of a generated deployment holds its own key: the peer entry is named by the public key of
/// the private key in the config, and a primary's share is the one dealt to that public key. A
/// secondary has no share.
pub proof fn nodes_hold_their_own_keys(
    args: GenerateArgs,
    local: LocalArgs,
    output_dir: &str,
    material: ClusterMaterial,
    bundle: LocalBundle,
    index: int,
)
    requires
        call_ensures(
            generate,
            (&args, &local, output_dir, &material),
            Ok::<LocalBundle, LocalError>(bundle),
        ),
        material.well_formed(),
        material.public_keys@.len() == args.validators,
        material.secondary_public_keys@.len() >= bundle.secondaries@.len(),
        0 <= index < bundle.validators@.len() + bundle.secondaries@.len(),
    ensures
        ({
            let node = all_nodes(bundle)[index];
            &&& crate::formatting::hex_bytes(node.config.private_key@) matches Some(signer)
            &&& crate::formatting::hex_bytes(node.peer.name@) == Some(
                crate::keys::derived_public_key(signer),
            )
            &&& index < bundle.validators@.len() ==> exists|at: int|
                {
                    &&& 0 <= at < material.dealing.shares@.len()
                    &&& crate::formatting::hex_bytes(node.peer.name@) == Some(
                        (#[trigger] material.dealing.shares@[at]).0@,
                    )
                    &&& crate::formatting::hex_bytes(node.config.dkg_share@) == Some(
                        material.dealing.shares@[at].1@,
                    )
                }
            &&& index >= bundle.validators@.len() ==> node.config.dkg_share@.len() == 0
        }),
{
    let roles = crate::deploy::plan::roles(args.indexer, args.relayer);
    let primaries = bundle.validators@.len() as int;
    if index < primaries {
        assert(all_nodes(bundle)[index] == bundle.validators@[index]);
        assert(is_primary(bundle.validators@[index], args, local, output_dir@, material, index));
        let key = material.public_keys@[index]@;
        crate::formatting::hex_round_trip(material.signers@[index]@);
        crate::formatting::hex_round_trip(key);
        crate::deploy::material::primaries_hold_shares(material, index);
        let at = material.share_position(key).unwrap();
        crate::formatting::hex_round_trip(material.dealing.shares@[at].1@);
        assert(material.dealing.shares@[at].0@ == key);
    } else {
        let at = index - primaries;
        assert(all_nodes(bundle)[index] == bundle.secondaries@[at]);
        assert(
            is_secondary(
                bundle.secondaries@[at],
                args,
                local,
                output_dir@,
                material,
                at,
                roles[at],
            )
        );
        crate::formatting::hex_round_trip(material.secondary_signers@[at]@);
        crate::formatting::hex_round_trip(material.secondary_public_keys@[at]@);
    }
}

/// Every node of a generated deployment carries the settings that were asked for, knows the number of
/// primaries and all participants, and starts from the same genesis.
pub proof fn nodes_carry_settings(
    args: GenerateArgs,
    local: LocalArgs,
    output_dir: &str,
    material: ClusterMaterial,
    bundle: LocalBundle,
    index: int,
)
    requires
        call_ensures(
            generate,
            (&args, &local, output_dir, &material),
            Ok::<LocalBundle, LocalError>(bundle),
        ),
        material.public_keys@.len() == args.validators,
        0 <= index < bundle.validators@.len() + bundle.secondaries@.len(),
    ensures
        ({
            let config = all_nodes(bundle)[index].config;
            &&& config.num_validators == bundle.validators@.len()
            &&& config.max_propose_bytes == args.max_propose_bytes
            &&& config.max_pool_bytes == args.max_pool_bytes
            &&& config.max_shard_bytes == args.max_shard_bytes
            &&& config.network_buffer_pool_max_bytes == args.network_buffer_pool_max_bytes
            &&& config.mempool_drop_grace_blocks == args.mempool_drop_grace_blocks
            &&& config.worker_threads == args.worker_threads
            &&& config.rayon_threads == args.rayon_threads
            &&& config.startup == args.startup
            &&& config.log_level == args.log_level
            &&& config.traces == local.traces
            &&& config.otel_endpoint is Some <==> local.traces.positive()
            &&& config.genesis_leader == material.genesis_leader
            &&& config.primary_validators@.len() == bundle.validators@.len()
            &&& forall|i: int|
                0 <= i < bundle.validators@.len() ==> (#[trigger] config.primary_validators@[i])@
                    == bundle.validators@[i].peer.name@
            &&& config.bootstrappers@.len() <= 3
            &&& forall|i: int|
                0 <= i < config.bootstrappers@.len() ==> (
                #[trigger] config.bootstrappers@[i]).name@ == bundle.validators@[i].peer.name@
        }),
{
    let roles = crate::deploy::plan::roles(args.indexer, args.relayer);
    let primaries = bundle.validators@.len() as int;
    let config = all_nodes(bundle)[index].config;
    if index < primaries {
        assert(all_nodes(bundle)[index] == bundle.validators@[index]);
        assert(is_primary(bundle.validators@[index], args, local, output_dir@, material, index));
    } else {
        let at = index - primaries;
        assert(all_nodes(bundle)[index] == bundle.secondaries@[at]);
        assert(
            is_secondary(
                bundle.secondaries@[at],
                args,
                local,
                output_dir@,
                material,
                at,
                roles[at],
            )
        );
    }
    assert(common_config(config, args, local, material));
    let names = crate::text::texts(config.primary_validators@);
    assert(names.len() == config.primary_validators@.len());
    assert forall|i: int| 0 <= i < bundle.validators@.len() implies (
    #[trigger] config.primary_validators@[i])@ == bundle.validators@[i].peer.name@ by {
        assert(is_primary(bundle.validators@[i], args, local, output_dir@, material, i));
        assert(names[i] == config.primary_validators@[i]@);
    }
    assert forall|i: int| 0 <= i < config.bootstrappers@.len() implies (
    #[trigger] config.bootstrappers@[i]).name@ == bundle.validators@[i].peer.name@ by {
        assert(is_primary(bundle.validators@[i], args, local, output_dir@, material, i));
        assert(
            crate::deploy::material::names_key(
                config.bootstrappers@[i],
                material.public_keys@[i]@,
            )
        );
    }
}

/// One command more, in quotes, is appended to the command that starts everything.
pub proof fn one_more_command_is_appended(
    commands: Vec<String>,
    more: Vec<String>,
    command: String,
    longer: String,
)
    requires
        call_ensures(mprocs_command, (&commands,), command),
        call_ensures(mprocs_command, (&more,), longer),
        commands@.len() > 0,
        more@.len() == commands@.len() + 1,
        more@.drop_last() == commands@,
    ensures
        longer@ == command@ + " "@ + ("\""@ + more@.last()@ + "\""@),
        "mprocs "@.is_prefix_of(command@),
{
    let before = quoted(crate::text::texts(commands@));
    let after = quoted(crate::text::texts(more@));
    assert forall|i: int| 0 <= i < commands@.len() implies more@[i] == commands@[i] by {
        assert(more@.drop_last()[i] == more@[i]);
    }
    assert(after.drop_last() =~= before);
    assert(after.last() == "\""@ + more@.last()@ + "\""@);
    assert(longer@ =~= command@ + " "@ + after.last());
}

/// Why a local deployment of fewer than 65 536 primaries, whose material holds together, is refused:
/// some port is out of range, and the error says of which kind and whether of a primary or of a
/// secondary.
pub proof fn refusals_name_the_port(
    args: GenerateArgs,
    local: LocalArgs,
    output_dir: &str,
    material: ClusterMaterial,
    error: LocalError,
)
    requires
        call_ensures(
            generate,
            (&args, &local, output_dir, &material),
            Err::<LocalBundle, LocalError>(error),
        ),
        material.well_formed(),
        material.public_keys@.len() == args.validators,
        args.validators < 0x1_0000,
    ensures
        error != LocalError::MissingShare,
        error == LocalError::ListenPortOverflow ==> local.base_port + args.validators > 65_536,
        error == LocalError::HttpPortOverflow ==> local.base_http_port + args.validators > 65_536,
        error == LocalError::MetricsPortOverflow ==> local.base_metrics_port + args.validators
            > 65_536,
        error == LocalError::SecondaryListenPortOverflow ==> local.base_port + args.validators
            <= 65_536 && local.base_port + args.validators + 2 > 65_536,
        error == LocalError::SecondaryHttpPortOverflow ==> local.base_http_port + args.validators
            <= 65_536 && local.base_http_port + args.validators + 2 > 65_536,
        error == LocalError::SecondaryMetricsPortOverflow ==> local.base_metrics_port
            + args.validators <= 65_536 && local.base_metrics_port + args.validators + 2 > 65_536,
        local.base_port + args.validators > 65_536 ==> error == LocalError::ListenPortOverflow
            || error == LocalError::HttpPortOverflow || error == LocalError::MetricsPortOverflow,
{
    let roles = crate::deploy::plan::roles(args.indexer, args.relayer);
    assert forall|i: int| 0 <= i < args.validators implies material.share_position(
        (#[trigger] material.public_keys@[i])@,
    ) is Some by {
        crate::deploy::material::primaries_hold_shares(material, i);
    }
    let last = args.validators - 1;
    assert(args.validators > 0);
    if primary_fails(args, local, material, error) {
        let i = choose|i: int|
            {
                &&& 0 <= i < args.validators
                &&& #[trigger] primary_rejection(local, material, i) == Some(error)
                &&& primaries_fit(local, material, i)
            };
        assert(material.share_position(material.public_keys@[i]@) is Some);
    } else {
        assert(primary_rejection(local, material, last) is None);
        let i = choose|i: int|
            {
                &&& 0 <= i < roles.len()
                &&& secondary_rejection(args, local, material, i, #[trigger] roles[i]) == Some(
                    error,
                )
                &&& secondaries_fit(args, local, material, i)
            };
        assert(roles.len() <= 2);
    }
}

/// Every node of a generated deployment has a config file and a partition of its own, both named by
/// its kind and its number.
pub proof fn nodes_are_filed_apart(
    args: GenerateArgs,
    local: LocalArgs,
    output_dir: &str,
    material: ClusterMaterial,
    bundle: LocalBundle,
    left: int,
    right: int,
)
    requires
        call_ensures(
            generate,
            (&args, &local, output_dir, &material),
            Ok::<LocalBundle, LocalError>(bundle),
        ),
        0 <= left < right < bundle.validators@.len() + bundle.secondaries@.len(),
    ensures
        ({
            let first = all_nodes(bundle)[left];
            let second = all_nodes(bundle)[right];
            &&& first.config.partition_prefix@ != second.config.partition_prefix@
            &&& first.config_file@ == joined_path(
                output_dir@,
                first.config.partition_prefix@ + ".yaml"@,
            )
            &&& left < bundle.validators@.len() ==> first.config.partition_prefix@ == "validator-"@
                + crate::text::decimal(left as nat)
            &&& left >= bundle.validators@.len() ==> first.config.partition_prefix@
                == "secondary-"@ + crate::text::decimal((left - bundle.validators@.len()) as nat)
        }),
{
    let primaries = bundle.validators@.len() as int;
    reveal_strlit("");
    reveal_strlit("validator-");
    reveal_strlit("secondary-");
    node_names(bundle, args, local, output_dir@, material, left);
    node_names(bundle, args, local, output_dir@, material, right);
    let first = all_nodes(bundle)[left].config.partition_prefix@;
    let second = all_nodes(bundle)[right].config.partition_prefix@;
    if first == second {
        assert(first[0] == second[0]);
        let start = "validator-"@.len() as int;
        let shift = if left < primaries {
            0
        } else {
            primaries
        };
        let one = crate::text::decimal((left - shift) as nat);
        let two = crate::text::decimal((right - shift) as nat);
        assert(first.skip(start) =~= one);
        assert(second.skip(start) =~= two);
        crate::text::decimal_is_injective((left - shift) as nat, (right - shift) as nat);
    }
}

proof fn node_names(
    bundle: LocalBundle,
    args: GenerateArgs,
    local: LocalArgs,
    output_dir: Seq<char>,
    material: ClusterMaterial,
    index: int,
)
    requires
        is_bundle(bundle, args, local, output_dir, material),
        0 <= index < bundle.validators@.len() + bundle.secondaries@.len(),
    ensures
        ({
            let node = all_nodes(bundle)[index];
            let primaries = bundle.validators@.len() as int;
            let name = if index < primaries {
                "validator-"@ + crate::text::decimal(index as nat)
            } else {
                "secondary-"@ + crate::text::decimal((index - primaries) as nat)
            };
            &&& node.config.partition_prefix@ == name
            &&& node.config_file@ == joined_path(output_dir, name + ".yaml"@)
        }),
{
    let roles = crate::deploy::plan::roles(args.indexer, args.relayer);
    let primaries = bundle.validators@.len() as int;
    reveal_strlit("");
    if index < primaries {
        assert(all_nodes(bundle)[index] == bundle.validators@[index]);
        let node = bundle.validators@[index];
        assert(is_primary(node, args, local, output_dir, material, index));
        assert(node.config.partition_prefix@ =~= "validator-"@ + crate::text::decimal(
            index as nat,
        ));
    } else {
        let at = index - primaries;
        assert(all_nodes(bundle)[index] == bundle.secondaries@[at]);
        let node = bundle.secondaries@[at];
        assert(is_secondary(node, args, local, output_dir, material, at, roles[at]));
        assert(node.config.partition_prefix@ =~= "secondary-"@ + crate::text::decimal(at as nat));
    }
}

/// The relayer of fewer than 65 536 primaries gets its section exactly if the HTTP port of the last of
/// them is in range.
pub proof fn relayer_section_needs_ports(
    args: GenerateArgs,
    local: LocalArgs,
    material: ClusterMaterial,
    config: Result<RelayerConfig, LocalError>,
)
    requires
        call_ensures(local_relayer_config, (&args, &local, &material), config),
        material.public_keys@.len() < 0x1_0000,
    ensures
        config is Ok <==> material.public_keys@.len() == 0 || local.base_http_port
            + material.public_keys@.len() - 1 <= 65_535,
        config matches Err(error) ==> error == LocalError::RelayerHttpPortOverflow,
{
    let count = material.public_keys@.len() as int;
    if count > 0 {
        assert(port_offset(count - 1) == count - 1);
    }
}

/// The relayer's HTTP port is known exactly where there is a relayer, and is the one behind those of the
/// primaries and of the indexer secondary.
pub proof fn relayer_port_is_behind_others(args: GenerateArgs, local: LocalArgs, port: Option<u16>)
    requires
        call_ensures(relayer_http_port, (&args, &local), port),
        args.validators < 0x1_0000,
    ensures
        port is Some <==> args.relayer,
        port matches Some(port) ==> {
            &&& args.indexer ==> port == local.base_http_port + args.validators + 1
            &&& !args.indexer ==> port == local.base_http_port + args.validators
        },
{
}

} // verus!
