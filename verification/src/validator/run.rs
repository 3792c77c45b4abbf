//! What a node starts, and with which settings.

use crate::deploy::local::join_path;
use crate::formatting::hex;
use crate::order::bytes_eq;
use crate::rate::SamplingRate;
use crate::validator::config::{
    load_deployer_config, load_local_config, ConfigError, DecodedConfig, HostEntry, LoadedConfig, PeersFile,
    RelayerConfig, StartupModeConfig, ValidatorConfig,
};
use crate::validator::upload::{maybe_build_indexer, IndexerPlan};
use vstd::prelude::*;

verus! {

/// Largest message that peers exchange (32 MiB).
pub const MAX_MESSAGE_BYTES: u32 = 33_554_432;

/// Largest buffer in the network pool (1 MiB).
pub const NETWORK_BUFFER_POOL_MAX_SIZE: usize = 1_048_576;

/// Buffers per size class in the network pool.
pub const NETWORK_BUFFER_POOL_MAX_PER_CLASS: u32 = 8_192;

/// Buffers per size class in the storage pool.
pub const STORAGE_BUFFER_POOL_MAX_PER_CLASS: u32 = 1_024;

/// Operations applied at once while state is synchronized.
pub const STATE_SYNC_APPLY_BATCH_SIZE: usize = 1_024;

/// Messages the mempool's mailbox holds.
pub const MEMPOOL_MAILBOX_SIZE: usize = 65_536;

/// Returns the default finalized-block window before a proposed mempool batch is marked dropped: two
/// full rotations of the primary validators.
pub fn default_mempool_drop_grace_blocks(num_validators: usize) -> (blocks: u64)
    requires
        2 * num_validators <= u64::MAX,
    ensures
        blocks == 2 * num_validators,
{
    num_validators as u64 * 2
}

/// Why a node cannot start.
#[derive(Debug, Clone)]
pub enum NodeError {
    /// Its configuration is rejected.
    Config(ConfigError),
    /// The threads that touch storage cannot be counted.
    StorageParallelismOverflow,
    /// It has no worker threads.
    NoWorkerThreads,
    /// It has no verification threads.
    NoRayonThreads,
    /// Twice the number of primary validators cannot be counted.
    DropGraceOverflow,
    /// A primary validator is declared twice.
    DuplicatePrimary,
    /// A secondary validator is declared twice.
    DuplicateSecondary,
}

/// Sizes of the buffer pools.
#[derive(Debug, Clone, Copy, PartialEq, Eq, Structural)]
pub struct BufferPools {
    /// Threads that share the network pool.
    pub network_parallelism: usize,
    /// Largest buffer of the network pool in bytes.
    pub network_max_size: usize,
    /// Buffers of each size class in the network pool.
    pub network_max_per_class: u32,
    /// Threads that share the storage pool.
    pub storage_parallelism: usize,
    /// Buffers of each size class in the storage pool.
    pub storage_max_per_class: u32,
}

/// The sizes of the buffer pools for some threads.
pub open spec fn pools_for(worker_threads: usize, max_blocking_threads: usize) -> BufferPools {
    BufferPools {
        network_parallelism: worker_threads,
        network_max_size: NETWORK_BUFFER_POOL_MAX_SIZE,
        network_max_per_class: NETWORK_BUFFER_POOL_MAX_PER_CLASS,
        storage_parallelism: (worker_threads + max_blocking_threads) as usize,
        storage_max_per_class: STORAGE_BUFFER_POOL_MAX_PER_CLASS,
    }
}

/// Sizes the buffer pools. Storage runs on the blocking threads too, so they count there.
pub fn buffer_pool_configs(worker_threads: usize, max_blocking_threads: usize) -> (pools: Result<
    BufferPools,
    NodeError,
>)
    ensures
        match pools {
            Ok(pools) => {
                &&& worker_threads > 0
                &&& worker_threads + max_blocking_threads <= usize::MAX
                &&& pools == pools_for(worker_threads, max_blocking_threads)
            },
            Err(error) => {
                ||| worker_threads + max_blocking_threads > usize::MAX && error
                    == NodeError::StorageParallelismOverflow
                ||| worker_threads + max_blocking_threads <= usize::MAX && worker_threads == 0
                    && error == NodeError::NoWorkerThreads
            },
        },
{
    let storage_parallelism: usize = match worker_threads.checked_add(max_blocking_threads) {
        Some(threads) => threads,
        None => return Err(NodeError::StorageParallelismOverflow),
    };
    if worker_threads == 0 {
        return Err(NodeError::NoWorkerThreads);
    }
    Ok(
        BufferPools {
            network_parallelism: worker_threads,
            network_max_size: NETWORK_BUFFER_POOL_MAX_SIZE,
            network_max_per_class: NETWORK_BUFFER_POOL_MAX_PER_CLASS,
            storage_parallelism,
            storage_max_per_class: STORAGE_BUFFER_POOL_MAX_PER_CLASS,
        },
    )
}

/// Settings of the peer-to-peer network.
#[derive(Debug, Clone, Copy, PartialEq, Eq, Structural)]
pub enum P2pProfile {
    /// Those recommended for a deployed network.
    Recommended,
    /// Those for a network on one host.
    Local,
}

/// What a node serves over HTTP.
#[derive(Debug, Clone)]
pub enum HttpRole {
    /// The mempool of a primary validator.
    Mempool,
    /// The relayer of a relaying secondary.
    Relayer(RelayerConfig),
    /// Nothing.
    Idle,
}

/// Who follows consensus activity.
#[derive(Debug, Clone, Copy, PartialEq, Eq, Structural)]
pub enum SimplexObserver {
    /// The uploader of certificates.
    Indexer,
    /// The relayer's view clock.
    Relayer,
}

/// Everything that decides what a node starts.
pub struct NodePlan {
    /// Keys, participants and addresses of the node.
    pub decoded: DecodedConfig,
    /// Logging verbosity.
    pub log_level: String,
    /// Whether logs are written as JSON.
    pub json_logs: bool,
    /// Verification threads.
    pub rayon_threads: usize,
    /// Socket address that HTTP is served on.
    pub http_listen: String,
    /// Socket address that metrics are served on.
    pub metrics_listen: String,
    /// Largest proposal in bytes.
    pub max_propose_bytes: usize,
    /// Largest mempool in bytes.
    pub max_pool_bytes: usize,
    /// Where the node stores its data.
    pub storage_dir: String,
    /// Sizes of the buffer pools.
    pub pools: BufferPools,
    /// Name of the node, by its public key.
    pub name: String,
    /// Traces endpoint and rate.
    pub traces: Option<(String, SamplingRate)>,
    /// Settings of the peer-to-peer network.
    pub p2p: P2pProfile,
    /// Finalized blocks before a proposed batch is reported as dropped.
    pub drop_grace_blocks: u64,
    /// Whether the node votes.
    pub is_primary: bool,
    /// What the node serves over HTTP.
    pub http: HttpRole,
    /// How the node catches up.
    pub startup: StartupModeConfig,
    /// What the node uploads.
    pub indexer: Option<IndexerPlan>,
    /// Who follows consensus activity.
    pub observer: Option<SimplexObserver>,
    /// Whether finalized blocks are reported to the mempool.
    pub reports_to_mempool: bool,
}

/// The name of a startup mode in logs.
pub open spec fn startup_name(mode: StartupModeConfig) -> Seq<char> {
    match mode {
        StartupModeConfig::MarshalSync => "marshal_sync"@,
        StartupModeConfig::StateSync => "state_sync"@,
    }
}

/// Returns the name of a startup mode in logs.
pub fn startup_label(mode: StartupModeConfig) -> (name: &'static str)
    ensures
        name@ == startup_name(mode),
{
    match mode {
        StartupModeConfig::MarshalSync => "marshal_sync",
        StartupModeConfig::StateSync => "state_sync",
    }
}

/// Returns whether all keys of a list differ.
fn all_distinct(keys: &Vec<Vec<u8>>) -> (distinct: bool)
    ensures
        distinct == crate::keys::blobs(keys@).no_duplicates(),
{
    let mut i: usize = 0;
    while i < keys.len()
        invariant
            i <= keys.len(),
            forall|a: int, b: int|
                0 <= a < b < keys@.len() && a < i ==> (#[trigger] keys@[a])@ != (
                #[trigger] keys@[b])@,
        decreases keys.len() - i,
    {
        let mut j: usize = i + 1;
        while j < keys.len()
            invariant
                i < keys.len(),
                i < j <= keys.len(),
                forall|b: int| i < b < j ==> keys@[i as int]@ != (#[trigger] keys@[b])@,
            decreases keys.len() - j,
        {
            if bytes_eq(&keys[i], &keys[j]) {
                proof {
                    let all = crate::keys::blobs(keys@);
                    assert(all[i as int] == all[j as int]);
                }
                return false;
            }
            j += 1;
        }
        i += 1;
    }
    true
}

/// The first reason why a loaded node cannot start, if there is one.
pub open spec fn start_rejection(loaded: LoadedConfig, max_blocking_threads: usize) -> Option<
    NodeError,
> {
    let primary = crate::keys::blobs(loaded.decoded.primary_participants@);
    let secondary = crate::keys::blobs(loaded.decoded.secondary_participants@);
    if loaded.worker_threads + max_blocking_threads > usize::MAX {
        Some(NodeError::StorageParallelismOverflow)
    } else if loaded.worker_threads == 0 {
        Some(NodeError::NoWorkerThreads)
    } else if loaded.rayon_threads == 0 {
        Some(NodeError::NoRayonThreads)
    } else if loaded.mempool_drop_grace_blocks is None && 2 * primary.len() > u64::MAX {
        Some(NodeError::DropGraceOverflow)
    } else if !primary.no_duplicates() {
        Some(NodeError::DuplicatePrimary)
    } else if !secondary.no_duplicates() {
        Some(NodeError::DuplicateSecondary)
    } else {
        None
    }
}

/// Whether `plan` starts what the loaded configuration asks for.
pub open spec fn plans(
    plan: NodePlan,
    loaded: LoadedConfig,
    config_dir: Seq<char>,
    max_blocking_threads: usize,
) -> bool {
    &&& plan.decoded == loaded.decoded
    &&& plan.log_level == loaded.log_level
    &&& plan.json_logs == loaded.json_logs
    &&& plan.rayon_threads == loaded.rayon_threads
    &&& plan.http_listen == loaded.http_listen
    &&& plan.metrics_listen == loaded.metrics_listen
    &&& plan.max_propose_bytes == loaded.max_propose_bytes
    &&& plan.max_pool_bytes == loaded.max_pool_bytes
    &&& plan.storage_dir@ == crate::deploy::local::joined_path(
        config_dir,
        loaded.decoded.partition_prefix@,
    )
    &&& plan.pools == pools_for(loaded.worker_threads, max_blocking_threads)
    &&& plan.name@ == crate::formatting::hex_text(loaded.decoded.public_key@)
    &&& plan.traces == loaded.otel
    &&& plan.p2p == (if loaded.deployer_managed {
        P2pProfile::Recommended
    } else {
        P2pProfile::Local
    })
    &&& plan.drop_grace_blocks == (match loaded.mempool_drop_grace_blocks {
        Some(blocks) => blocks as int,
        None => 2 * loaded.decoded.primary_participants@.len() as int,
    })
    &&& plan.is_primary == loaded.decoded.share is Some
    &&& match plan.http {
        HttpRole::Mempool => plan.is_primary,
        HttpRole::Relayer(relayer) => !plan.is_primary && loaded.relayer == Some(relayer),
        HttpRole::Idle => !plan.is_primary && loaded.relayer is None,
    }
    &&& plan.startup == loaded.startup
    &&& match plan.indexer {
        Some(indexer) => !plan.is_primary && (loaded.indexer matches Some(config)
            && crate::validator::upload::plans_indexer(
            indexer,
            config,
            loaded.decoded.partition_prefix@,
        )),
        None => plan.is_primary || loaded.indexer is None,
    }
    &&& plan.observer == (if loaded.relayer is Some {
        Some(SimplexObserver::Relayer)
    } else if plan.indexer is Some {
        Some(SimplexObserver::Indexer)
    } else {
        None
    })
    &&& plan.reports_to_mempool == plan.is_primary
}

/// Decides what a loaded node starts.
pub fn run_with_config(
    loaded: LoadedConfig,
    config_dir: &str,
    max_blocking_threads: usize,
) -> (plan: Result<NodePlan, NodeError>)
    ensures
        match plan {
            Ok(plan) => {
                &&& start_rejection(loaded, max_blocking_threads) is None
                &&& plans(plan, loaded, config_dir@, max_blocking_threads)
            },
            Err(error) => start_rejection(loaded, max_blocking_threads) == Some(error),
        },
{
    let pools = match buffer_pool_configs(loaded.worker_threads, max_blocking_threads) {
        Ok(pools) => pools,
        Err(error) => return Err(error),
    };
    if loaded.rayon_threads == 0 {
        return Err(NodeError::NoRayonThreads);
    }
    let primaries: usize = loaded.decoded.primary_participants.len();
    let drop_grace_blocks: u64 = match loaded.mempool_drop_grace_blocks {
        Some(blocks) => blocks,
        None => {
            if primaries as u64 > u64::MAX / 2 {
                return Err(NodeError::DropGraceOverflow);
            }
            default_mempool_drop_grace_blocks(primaries)
        },
    };
    if !all_distinct(&loaded.decoded.primary_participants) {
        return Err(NodeError::DuplicatePrimary);
    }
    if !all_distinct(&loaded.decoded.secondary_participants) {
        return Err(NodeError::DuplicateSecondary);
    }
    let is_primary = loaded.decoded.share.is_some();
    let relays = loaded.relayer.is_some();
    let http = if is_primary {
        HttpRole::Mempool
    } else {
        match loaded.relayer {
            Some(relayer) => HttpRole::Relayer(relayer),
            None => HttpRole::Idle,
        }
    };
    let indexer = maybe_build_indexer(
        is_primary,
        loaded.indexer,
        loaded.decoded.partition_prefix.as_str(),
    );
    let observer = if relays {
        Some(SimplexObserver::Relayer)
    } else if indexer.is_some() {
        Some(SimplexObserver::Indexer)
    } else {
        None
    };
    Ok(
        NodePlan {
            storage_dir: join_path(config_dir, loaded.decoded.partition_prefix.as_str()),
            pools,
            name: hex(loaded.decoded.public_key.as_slice()),
            traces: loaded.otel,
            p2p: if loaded.deployer_managed {
                P2pProfile::Recommended
            } else {
                P2pProfile::Local
            },
            drop_grace_blocks,
            is_primary,
            http,
            startup: loaded.startup,
            indexer,
            observer,
            reports_to_mempool: is_primary,
            log_level: loaded.log_level,
            json_logs: loaded.json_logs,
            rayon_threads: loaded.rayon_threads,
            http_listen: loaded.http_listen,
            metrics_listen: loaded.metrics_listen,
            max_propose_bytes: loaded.max_propose_bytes,
            max_pool_bytes: loaded.max_pool_bytes,
            decoded: loaded.decoded,
        },
    )
}

/// Whether `plan` is what a node starts that loads as `loads` says.
pub open spec fn starts(
    plan: Result<NodePlan, NodeError>,
    loaded: Result<LoadedConfig, ConfigError>,
    config_dir: Seq<char>,
    max_blocking_threads: usize,
) -> bool {
    match (plan, loaded) {
        (Err(NodeError::Config(error)), Err(cause)) => error == cause,
        (Ok(plan), Ok(loaded)) => start_rejection(loaded, max_blocking_threads) is None && plans(
            plan,
            loaded,
            config_dir,
            max_blocking_threads,
        ),
        (Err(error), Ok(loaded)) => start_rejection(loaded, max_blocking_threads) == Some(error),
        _ => false,
    }
}

/// Decides what a node of a local deployment starts. `malformed` holds those of the addresses that are
/// not socket addresses.
pub fn run_local(
    peers: PeersFile,
    malformed: &Vec<String>,
    config: ValidatorConfig,
    config_dir: &str,
    max_blocking_threads: usize,
) -> (plan: Result<NodePlan, NodeError>)
    ensures
        exists|loaded: Result<LoadedConfig, ConfigError>|
            {
                &&& #[trigger] crate::validator::config::loads(
                    loaded,
                    config,
                    crate::validator::config::network_in(
                        config,
                        crate::validator::config::peer_book(
                            crate::validator::config::all_peers(peers),
                            malformed@,
                        ),
                    ),
                    crate::validator::config::otel_choice(
                        config,
                        crate::validator::config::local_collector(),
                    ),
                    false,
                )
                &&& starts(plan, loaded, config_dir@, max_blocking_threads)
            },
{
    let loaded = load_local_config(peers, malformed, config);
    let ghost result = loaded;
    match loaded {
        Ok(loaded) => {
            let plan = run_with_config(loaded, config_dir, max_blocking_threads);
            proof {
                assert(starts(plan, result, config_dir@, max_blocking_threads));
            }
            plan
        },
        Err(error) => {
            let plan = Err(NodeError::Config(error));
            proof {
                assert(starts(plan, result, config_dir@, max_blocking_threads));
            }
            plan
        },
    }
}

/// Decides what a node of a remote deployment starts.
pub fn run_deployer(
    hosts: &Vec<HostEntry>,
    monitoring_private: &str,
    config: ValidatorConfig,
    config_dir: &str,
    max_blocking_threads: usize,
) -> (plan: Result<NodePlan, NodeError>)
    ensures
        exists|resolved: ValidatorConfig, loaded: Result<LoadedConfig, ConfigError>|
            {
                &&& #[trigger] crate::validator::config::urls_resolved(config, resolved, hosts@)
                &&& #[trigger] crate::validator::config::loads(
                    loaded,
                    resolved,
                    crate::validator::config::network_in(
                        config,
                        crate::validator::config::host_book(hosts@, config.listen_port),
                    ),
                    crate::validator::config::otel_choice(
                        config,
                        crate::validator::config::monitoring_collector(monitoring_private@),
                    ),
                    true,
                )
                &&& starts(plan, loaded, config_dir@, max_blocking_threads)
            },
{
    let loaded = load_deployer_config(hosts, monitoring_private, config);
    let ghost result = loaded;
    match loaded {
        Ok(loaded) => {
            let plan = run_with_config(loaded, config_dir, max_blocking_threads);
            proof {
                assert(starts(plan, result, config_dir@, max_blocking_threads));
            }
            plan
        },
        Err(error) => {
            let plan = Err(NodeError::Config(error));
            proof {
                assert(starts(plan, result, config_dir@, max_blocking_threads));
            }
            plan
        },
    }
}

/// A node serves over HTTP what its role calls for: voters their mempool, relaying secondaries the
/// relayer, and only secondaries upload.
pub proof fn roles_are_exclusive(
    plan: NodePlan,
    loaded: LoadedConfig,
    config_dir: Seq<char>,
    max_blocking_threads: usize,
)
    requires
        plans(plan, loaded, config_dir, max_blocking_threads),
    ensures
        plan.is_primary ==> plan.http is Mempool && plan.indexer is None && plan.reports_to_mempool,
        !plan.is_primary ==> !(plan.http is Mempool) && !plan.reports_to_mempool,
        plan.observer == Some(SimplexObserver::Indexer) ==> plan.indexer is Some,
{
}

/// How state is synchronized.
#[derive(Debug, Clone, Copy, PartialEq, Eq, Structural)]
pub struct SyncSettings {
    pub fetch_batch_size: u64,
    pub apply_batch_size: usize,
    pub max_outstanding_requests: usize,
    pub update_channel_size: usize,
    pub max_retained_roots: usize,
}

/// Returns how a deployed node synchronizes state.
pub fn production_sync_config() -> (settings: SyncSettings)
    ensures
        settings == (SyncSettings {
            fetch_batch_size: 1_024,
            apply_batch_size: STATE_SYNC_APPLY_BATCH_SIZE,
            max_outstanding_requests: 8,
            update_channel_size: 256,
            max_retained_roots: 32,
        }),
{
    SyncSettings {
        fetch_batch_size: 1_024,
        apply_batch_size: STATE_SYNC_APPLY_BATCH_SIZE,
        max_outstanding_requests: 8,
        update_channel_size: 256,
        max_retained_roots: 32,
    }
}

/// A task that the node cannot run without.
#[derive(Debug, Clone, Copy, PartialEq, Eq, Structural)]
pub enum CriticalTask {
    Probe,
    Engine,
    Mempool,
    Network,
}

/// The message logged when a critical task exits.
pub open spec fn exit_text(task: CriticalTask) -> Seq<char> {
    match task {
        CriticalTask::Probe => "probe exited"@,
        CriticalTask::Engine => "engine exited"@,
        CriticalTask::Mempool => "mempool exited"@,
        CriticalTask::Network => "network exited"@,
    }
}

/// Returns the message logged when a critical task exits.
pub fn exit_message(task: CriticalTask) -> (text: &'static str)
    ensures
        text@ == exit_text(task),
{
    match task {
        CriticalTask::Probe => "probe exited",
        CriticalTask::Engine => "engine exited",
        CriticalTask::Mempool => "mempool exited",
        CriticalTask::Network => "network exited",
    }
}

/// A node that [`run_with_config`] starts: its network buffers are shared by its workers and its
/// storage buffers by its blocking threads as well, it reports a batch as dropped after the explicit
/// number of blocks or after two per primary, stores its data under its own partition, is named by
/// its public key, and counts no participant twice.
pub proof fn started_node_fits_its_config(
    loaded: LoadedConfig,
    config_dir: &str,
    max_blocking_threads: usize,
    plan: NodePlan,
)
    requires
        call_ensures(
            run_with_config,
            (loaded, config_dir, max_blocking_threads),
            Ok::<NodePlan, NodeError>(plan),
        ),
    ensures
        plan.pools.network_parallelism == loaded.worker_threads,
        plan.pools.network_parallelism >= 1,
        plan.pools.storage_parallelism == loaded.worker_threads + max_blocking_threads,
        plan.pools.network_max_size == 1_048_576,
        plan.pools.network_max_per_class == 8_192,
        plan.pools.storage_max_per_class == 1_024,
        plan.rayon_threads == loaded.rayon_threads,
        plan.rayon_threads >= 1,
        loaded.mempool_drop_grace_blocks is Some ==> loaded.mempool_drop_grace_blocks == Some(
            plan.drop_grace_blocks,
        ),
        loaded.mempool_drop_grace_blocks is None ==> plan.drop_grace_blocks
            == loaded.decoded.primary_participants@.len() + loaded.decoded.primary_participants@.len(),
        plan.storage_dir@ == crate::deploy::local::joined_path(
            config_dir@,
            loaded.decoded.partition_prefix@,
        ),
        crate::formatting::hex_bytes(plan.name@) == Some(loaded.decoded.public_key@),
        crate::keys::blobs(loaded.decoded.primary_participants@).no_duplicates(),
        crate::keys::blobs(loaded.decoded.secondary_participants@).no_duplicates(),
        plan.is_primary <==> loaded.decoded.share is Some,
        plan.is_primary ==> plan.http is Mempool && plan.indexer is None && plan.reports_to_mempool,
        !plan.is_primary ==> {
            &&& !plan.reports_to_mempool
            &&& loaded.relayer matches Some(relayer) ==> plan.http == HttpRole::Relayer(relayer)
            &&& loaded.relayer is None ==> plan.http is Idle
            &&& plan.indexer is Some <==> loaded.indexer is Some
        },
        loaded.deployer_managed <==> plan.p2p is Recommended,
        plan.http_listen == loaded.http_listen,
        plan.max_propose_bytes == loaded.max_propose_bytes,
        plan.max_pool_bytes == loaded.max_pool_bytes,
{
    crate::formatting::hex_round_trip(loaded.decoded.public_key@);
}

/// One primary more makes the default wait for a dropped batch two blocks longer.
pub proof fn drop_grace_grows_with_primaries(fewer: usize, few: u64, many: u64)
    requires
        2 * (fewer + 1) <= u64::MAX,
        fewer < usize::MAX,
        call_ensures(default_mempool_drop_grace_blocks, (fewer,), few),
        call_ensures(default_mempool_drop_grace_blocks, ((fewer + 1) as usize,), many),
    ensures
        many == few + 2,
        fewer == 0 ==> few == 0,
{
}

/// When a node can start: it has workers and verifiers, its threads and the wait for a dropped batch
/// can be counted, and nobody is declared twice.
pub proof fn sound_node_starts(
    loaded: LoadedConfig,
    config_dir: &str,
    max_blocking_threads: usize,
    plan: Result<NodePlan, NodeError>,
)
    requires
        call_ensures(run_with_config, (loaded, config_dir, max_blocking_threads), plan),
    ensures
        plan is Ok <==> {
            &&& 1 <= loaded.worker_threads
            &&& loaded.worker_threads + max_blocking_threads <= usize::MAX
            &&& 1 <= loaded.rayon_threads
            &&& loaded.mempool_drop_grace_blocks is Some || 2
                * loaded.decoded.primary_participants@.len() <= u64::MAX
            &&& crate::keys::blobs(loaded.decoded.primary_participants@).no_duplicates()
            &&& crate::keys::blobs(loaded.decoded.secondary_participants@).no_duplicates()
        },
{
}

/// A node of a local deployment that starts is the one that its config describes: it runs with the
/// settings of a network on one host, writes logs for people, votes exactly if it has a share, and is
/// named by the public key of its own private key.
pub proof fn local_node_starts_as_configured(
    peers: PeersFile,
    malformed: Vec<String>,
    config: ValidatorConfig,
    config_dir: &str,
    max_blocking_threads: usize,
    plan: NodePlan,
)
    requires
        call_ensures(
            run_local,
            (peers, &malformed, config, config_dir, max_blocking_threads),
            Ok::<NodePlan, NodeError>(plan),
        ),
    ensures
        plan.p2p is Local,
        !plan.json_logs,
        plan.is_primary <==> config.dkg_share@.len() > 0,
        plan.pools.network_parallelism == config.worker_threads,
        plan.http_listen@ == "0.0.0.0:"@ + crate::text::decimal(config.http_port as nat),
        crate::formatting::hex_bytes(plan.name@) == Some(plan.decoded.public_key@),
        plan.decoded.public_key@ == crate::keys::derived_public_key(plan.decoded.signer@),
        crate::formatting::hex_bytes(config.private_key@) matches Some(bytes)
            && plan.decoded.signer@ == bytes.take(32),
        config.max_propose_bytes <= config.max_shard_bytes <= config.network_buffer_pool_max_bytes,
{
    crate::formatting::hex_round_trip(plan.decoded.public_key@);
}

/// A node of a remote deployment that starts runs with the settings of a deployed network and writes
/// logs for machines; otherwise it is the one that its config describes.
pub proof fn remote_node_starts_as_configured(
    hosts: Vec<HostEntry>,
    monitoring_private: &str,
    config: ValidatorConfig,
    config_dir: &str,
    max_blocking_threads: usize,
    plan: NodePlan,
)
    requires
        call_ensures(
            run_deployer,
            (&hosts, monitoring_private, config, config_dir, max_blocking_threads),
            Ok::<NodePlan, NodeError>(plan),
        ),
    ensures
        plan.p2p is Recommended,
        plan.json_logs,
        plan.is_primary <==> config.dkg_share@.len() > 0,
        plan.pools.network_parallelism == config.worker_threads,
        plan.http_listen@ == "0.0.0.0:"@ + crate::text::decimal(config.http_port as nat),
        crate::formatting::hex_bytes(plan.name@) == Some(plan.decoded.public_key@),
        plan.decoded.public_key@ == crate::keys::derived_public_key(plan.decoded.signer@),
{
    crate::formatting::hex_round_trip(plan.decoded.public_key@);
}

/// Buffer pools can be sized exactly if there are workers and all threads can be counted; storage
/// buffers are shared by more threads than network buffers, one for each blocking thread.
pub proof fn pools_count_threads(
    worker_threads: usize,
    max_blocking_threads: usize,
    pools: Result<BufferPools, NodeError>,
)
    requires
        call_ensures(buffer_pool_configs, (worker_threads, max_blocking_threads), pools),
    ensures
        pools is Ok <==> worker_threads >= 1 && worker_threads + max_blocking_threads <= usize::MAX,
        pools matches Ok(pools) ==> {
            &&& pools.network_parallelism == worker_threads
            &&& pools.storage_parallelism - pools.network_parallelism == max_blocking_threads
            &&& pools.network_max_size == 1_048_576
        },
{
}

} // verus!
