//! Sizing of a generated deployment: secondary roles, spammer load, and shard limits.

use crate::numbers::div_ceil;
use crate::text::push_decimal;
use vstd::prelude::*;

verus! {

/// Private operations per batch when the operator names none.
pub const DEFAULT_SPAMMER_PRIVATE_BATCH: usize = 64;

/// Private lanes per validator when the operator names none.
pub const DEFAULT_SPAMMER_PRIVATE_LANES: usize = 8;

/// Fully signed batches kept ready per submitter by default.
pub const DEFAULT_SPAMMER_PRESIGNED_BATCHES: usize = 16;

/// Threads used for parallel signing by default.
pub const DEFAULT_SPAMMER_RAYON_THREADS: usize = 2;

/// Default capacity of the decompressed public key cache.
pub const DEFAULT_PUBLIC_KEY_CACHE_SIZE: usize = 100_000;

/// Spam accounts per relayer submitter when unset (public workload).
pub const DEFAULT_SPAMMER_ACCOUNTS: u32 = 10;

/// Conservative encoded size of one private transaction.
pub const PRIVATE_TX_BYTES: usize = 512;

/// Source accounts provisioned per in-flight transaction slot when the account count is derived.
pub const PRIVATE_ACCOUNTS_HEADROOM: u32 = 2;

/// Starting balance of a spam account.
pub const ACCOUNT_BALANCE: u64 = 1_000;

/// Transaction mix the generated spammer runs.
#[derive(Debug, Clone, Copy, PartialEq, Eq, Structural)]
pub enum SpammerWorkload {
    Public,
    Private,
}

impl Default for SpammerWorkload {
    fn default() -> (workload: Self)
        ensures
            workload == SpammerWorkload::Public,
    {
        SpammerWorkload::Public
    }
}

impl SpammerWorkload {
    /// The name of the workload on the command line.
    pub open spec fn name(self) -> Seq<char> {
        match self {
            SpammerWorkload::Public => "public"@,
            SpammerWorkload::Private => "private"@,
        }
    }

    /// Returns the name of the workload on the command line.
    pub fn as_str(self) -> (name: &'static str)
        ensures
            name@ == self.name(),
    {
        match self {
            SpammerWorkload::Public => "public",
            SpammerWorkload::Private => "private",
        }
    }
}

/// Proof mode for the generated spammer's private transfers.
#[derive(Debug, Clone, Copy, PartialEq, Eq, Structural)]
pub enum SpammerProofMode {
    Real,
    Simulated,
}

impl Default for SpammerProofMode {
    fn default() -> (mode: Self)
        ensures
            mode == SpammerProofMode::Real,
    {
        SpammerProofMode::Real
    }
}

impl SpammerProofMode {
    /// The name of the mode on the command line.
    pub open spec fn name(self) -> Seq<char> {
        match self {
            SpammerProofMode::Real => "real"@,
            SpammerProofMode::Simulated => "simulated"@,
        }
    }

    /// Returns the name of the mode on the command line.
    pub fn as_str(self) -> (name: &'static str)
        ensures
            name@ == self.name(),
    {
        match self {
            SpammerProofMode::Real => "real",
            SpammerProofMode::Simulated => "simulated",
        }
    }
}

/// The options of the generate command that decide how a deployment is sized.
#[derive(Debug, Clone, Copy)]
pub struct GenerateArgs {
    /// Number of primary (voting) validators.
    pub validators: u32,
    /// Whether the full indexer secondary and the shared indexer services are generated.
    pub indexer: bool,
    /// Whether a transaction relayer secondary is generated.
    pub relayer: bool,
    /// Maximum bytes proposed per block.
    pub max_propose_bytes: usize,
    /// Maximum mempool size in bytes.
    pub max_pool_bytes: usize,
    /// Maximum decoded consensus shard payload bytes, derived when unset.
    pub max_shard_bytes: Option<usize>,
    /// Whether a spammer is generated.
    pub spammer: bool,
    /// Number of spam accounts, derived when unset.
    pub spammer_accounts: Option<u32>,
    /// Transfer value per spam transaction.
    pub spammer_value: u64,
    /// Transaction mix the spammer generates.
    pub spammer_workload: SpammerWorkload,
    /// Private operations per submitted batch, derived when unset.
    pub spammer_private_batch: Option<usize>,
    /// Private lanes per primary validator, derived when unset.
    pub spammer_private_lanes: Option<usize>,
    /// Target of private transactions in flight across the cluster.
    pub spammer_target_inflight: Option<usize>,
}

/// Role of a generated secondary.
#[derive(Debug, Clone, Copy, PartialEq, Eq, Structural)]
pub enum SecondaryRole {
    Indexer,
    Relayer,
}

/// Resolved spammer sizing shared by the local and remote generators.
#[derive(Debug, Clone, Copy, PartialEq, Eq, Structural)]
pub struct SpammerPlan {
    /// Total spam accounts (public: per submitter; private: shared by lanes).
    pub accounts: u32,
    /// Private operations per submitted batch.
    pub private_batch: usize,
    /// Total private lanes across the cluster.
    pub total_private_lanes: usize,
    /// Private transactions in flight once every lane has a batch out.
    pub inflight: usize,
}

/// Why sizing options are rejected.
#[derive(Debug, Clone, Copy, PartialEq, Eq, Structural)]
pub enum PlanError {
    /// The cluster has no validators.
    NoValidators,
    /// The private workload was given no lanes.
    ZeroLanes,
    /// The private workload was given empty batches.
    ZeroBatch,
    /// A target was given for the public workload.
    TargetNeedsPrivateWorkload,
    /// The divisor for splitting the target does not fit the machine word.
    SplitOverflow,
    /// The explicit sizing holds more transactions than the machine word counts.
    CapacityOverflow,
    /// The explicit sizing holds fewer transactions than the target.
    BelowTarget { lanes: usize, batch: usize, validators: u32, capacity: usize, target: usize },
    /// The lanes of the cluster do not fit the machine word.
    LanesOverflow,
    /// The transactions in flight do not fit the machine word.
    InflightOverflow,
    /// The bytes of one batch do not fit the machine word.
    BatchBytesOverflow,
    /// One batch does not fit a proposal.
    BatchAboveProposal { batch: usize, batch_bytes: usize, max_propose_bytes: usize },
    /// The transactions in flight outnumber the account indices.
    InflightAboveAccounts,
    /// The derived account count does not fit.
    DerivedAccountsOverflow,
    /// The explicit accounts cannot fill every lane's batch.
    TooFewAccounts { accounts: u32, lanes: usize, batch: usize, floor: u32 },
    /// A spammer was asked for without a relayer.
    SpammerNeedsRelayer,
    /// The explicit shard limit cannot carry a full block.
    ShardTooSmall {
        max_shard_bytes: usize,
        max_propose_bytes: usize,
        validators: u32,
        shards: usize,
        bound: usize,
    },
}

impl PlanError {
    /// The explanation printed for the rejection.
    pub open spec fn text(self) -> Seq<char> {
        match self {
            PlanError::NoValidators => "--validators must be > 0"@,
            PlanError::ZeroLanes => "--spammer-private-lanes must be > 0"@,
            PlanError::ZeroBatch => "--spammer-private-batch must be > 0"@,
            PlanError::TargetNeedsPrivateWorkload =>
                "--spammer-target-inflight only applies to --spammer-workload private"@,
            PlanError::SplitOverflow =>
                "--validators times the explicit private sizing must fit usize"@,
            PlanError::CapacityOverflow => "in-flight capacity fits usize"@,
            PlanError::BelowTarget { lanes, batch, validators, capacity, target } =>
                "--spammer-private-lanes "@ + crate::text::decimal(lanes as nat)
                    + " x --spammer-private-batch "@ + crate::text::decimal(batch as nat)
                    + " across "@ + crate::text::decimal(validators as nat)
                    + " validators holds only "@ + crate::text::decimal(capacity as nat)
                    + " transactions in flight, below --spammer-target-inflight "@
                    + crate::text::decimal(target as nat)
                    + "; raise one of them or leave one unset to derive it"@,
            PlanError::LanesOverflow =>
                "--spammer-private-lanes * --validators must fit usize"@,
            PlanError::InflightOverflow => "in-flight transaction count fits usize"@,
            PlanError::BatchBytesOverflow => "batch byte size fits usize"@,
            PlanError::BatchAboveProposal { batch, batch_bytes, max_propose_bytes } =>
                "--spammer-private-batch "@ + crate::text::decimal(batch as nat)
                    + " encodes to ~"@ + crate::text::decimal(batch_bytes as nat)
                    + " bytes per submission, above --max-propose-bytes "@
                    + crate::text::decimal(max_propose_bytes as nat)
                    + "; lower the batch or raise the propose limit"@,
            PlanError::InflightAboveAccounts => "in-flight transaction count fits u32"@,
            PlanError::DerivedAccountsOverflow => "derived --spammer-accounts fits u32"@,
            PlanError::TooFewAccounts { accounts, lanes, batch, floor } =>
                "--spammer-accounts "@ + crate::text::decimal(accounts as nat) + " cannot fill "@
                    + crate::text::decimal(lanes as nat) + " lanes x "@
                    + crate::text::decimal(batch as nat)
                    + "-transaction batches: each in-flight transaction needs its own source account ("@
                    + crate::text::decimal(floor as nat) + " minimum, "@
                    + crate::text::decimal(recommended_accounts(floor) as nat)
                    + " recommended); raise --spammer-accounts or leave it unset to derive it"@,
            PlanError::SpammerNeedsRelayer => "--spammer requires --relayer"@,
            PlanError::ShardTooSmall {
                max_shard_bytes,
                max_propose_bytes,
                validators,
                shards,
                bound,
            } => "--max-shard-bytes "@ + crate::text::decimal(max_shard_bytes as nat)
                + " cannot carry a full --max-propose-bytes "@
                + crate::text::decimal(max_propose_bytes as nat) + " block: "@
                + crate::text::decimal(validators as nat) + " validators split blocks into "@
                + crate::text::decimal(shards as nat)
                + " data shards, so peers need to accept shards up to "@
                + crate::text::decimal(bound as nat)
                + " bytes (raise --max-shard-bytes or lower --max-propose-bytes)"@,
        }
    }

    /// Returns the explanation printed for the rejection.
    pub fn message(&self) -> (text: String)
        ensures
            text@ == self.text(),
    {
        match *self {
            PlanError::NoValidators => "--validators must be > 0".to_string(),
            PlanError::ZeroLanes => "--spammer-private-lanes must be > 0".to_string(),
            PlanError::ZeroBatch => "--spammer-private-batch must be > 0".to_string(),
            PlanError::TargetNeedsPrivateWorkload =>
                "--spammer-target-inflight only applies to --spammer-workload private".to_string(),
            PlanError::SplitOverflow =>
                "--validators times the explicit private sizing must fit usize".to_string(),
            PlanError::CapacityOverflow => "in-flight capacity fits usize".to_string(),
            PlanError::BelowTarget { lanes, batch, validators, capacity, target } => {
                let mut text = "--spammer-private-lanes ".to_string();
                push_decimal(&mut text, lanes as u64);
                text.append(" x --spammer-private-batch ");
                push_decimal(&mut text, batch as u64);
                text.append(" across ");
                push_decimal(&mut text, validators as u64);
                text.append(" validators holds only ");
                push_decimal(&mut text, capacity as u64);
                text.append(" transactions in flight, below --spammer-target-inflight ");
                push_decimal(&mut text, target as u64);
                text.append("; raise one of them or leave one unset to derive it");
                text
            },
            PlanError::LanesOverflow =>
                "--spammer-private-lanes * --validators must fit usize".to_string(),
            PlanError::InflightOverflow => "in-flight transaction count fits usize".to_string(),
            PlanError::BatchBytesOverflow => "batch byte size fits usize".to_string(),
            PlanError::BatchAboveProposal { batch, batch_bytes, max_propose_bytes } => {
                let mut text = "--spammer-private-batch ".to_string();
                push_decimal(&mut text, batch as u64);
                text.append(" encodes to ~");
                push_decimal(&mut text, batch_bytes as u64);
                text.append(" bytes per submission, above --max-propose-bytes ");
                push_decimal(&mut text, max_propose_bytes as u64);
                text.append("; lower the batch or raise the propose limit");
                text
            },
            PlanError::InflightAboveAccounts => "in-flight transaction count fits u32".to_string(),
            PlanError::DerivedAccountsOverflow => "derived --spammer-accounts fits u32".to_string(),
            PlanError::TooFewAccounts { accounts, lanes, batch, floor } => {
                let recommended: u32 = if floor <= u32::MAX / PRIVATE_ACCOUNTS_HEADROOM {
                    floor * PRIVATE_ACCOUNTS_HEADROOM
                } else {
                    u32::MAX
                };
                let mut text = "--spammer-accounts ".to_string();
                push_decimal(&mut text, accounts as u64);
                text.append(" cannot fill ");
                push_decimal(&mut text, lanes as u64);
                text.append(" lanes x ");
                push_decimal(&mut text, batch as u64);
                text.append("-transaction batches: each in-flight transaction needs its own source account (");
                push_decimal(&mut text, floor as u64);
                text.append(" minimum, ");
                push_decimal(&mut text, recommended as u64);
                text.append(" recommended); raise --spammer-accounts or leave it unset to derive it");
                text
            },
            PlanError::SpammerNeedsRelayer => "--spammer requires --relayer".to_string(),
            PlanError::ShardTooSmall {
                max_shard_bytes,
                max_propose_bytes,
                validators,
                shards,
                bound,
            } => {
                let mut text = "--max-shard-bytes ".to_string();
                push_decimal(&mut text, max_shard_bytes as u64);
                text.append(" cannot carry a full --max-propose-bytes ");
                push_decimal(&mut text, max_propose_bytes as u64);
                text.append(" block: ");
                push_decimal(&mut text, validators as u64);
                text.append(" validators split blocks into ");
                push_decimal(&mut text, shards as u64);
                text.append(" data shards, so peers need to accept shards up to ");
                push_decimal(&mut text, bound as u64);
                text.append(" bytes (raise --max-shard-bytes or lower --max-propose-bytes)");
                text
            },
        }
    }
}

/// The account count suggested for `floor` in-flight slots, capped at the largest count.
pub open spec fn recommended_accounts(floor: u32) -> int {
    if floor * PRIVATE_ACCOUNTS_HEADROOM <= u32::MAX {
        floor * PRIVATE_ACCOUNTS_HEADROOM
    } else {
        u32::MAX as int
    }
}

/// The default private batch size.
pub fn default_spammer_private_batch() -> (batch: usize)
    ensures
        batch == DEFAULT_SPAMMER_PRIVATE_BATCH,
        batch == 64,
{
    DEFAULT_SPAMMER_PRIVATE_BATCH
}

/// The default private lanes per validator.
pub fn default_spammer_private_lanes() -> (lanes: usize)
    ensures
        lanes == DEFAULT_SPAMMER_PRIVATE_LANES,
        lanes == 8,
{
    DEFAULT_SPAMMER_PRIVATE_LANES
}

/// The default number of presigned batches.
pub fn default_spammer_presigned_batches() -> (batches: usize)
    ensures
        batches == DEFAULT_SPAMMER_PRESIGNED_BATCHES,
        batches == 16,
{
    DEFAULT_SPAMMER_PRESIGNED_BATCHES
}

/// The default number of signing threads.
pub fn default_spammer_rayon_threads() -> (threads: usize)
    ensures
        threads == DEFAULT_SPAMMER_RAYON_THREADS,
        threads == 2,
{
    DEFAULT_SPAMMER_RAYON_THREADS
}

/// The default capacity of the public key cache.
pub fn default_public_key_cache_size() -> (size: usize)
    ensures
        size == DEFAULT_PUBLIC_KEY_CACHE_SIZE,
        size == 100_000,
{
    DEFAULT_PUBLIC_KEY_CACHE_SIZE
}

/// The default bound on proposed block bytes (8 MiB).
pub fn default_max_propose_bytes() -> (bytes: usize)
    ensures
        bytes == 8 * 1024 * 1024,
{
    8 * 1024 * 1024
}

/// The default bound on shard bytes (1 MiB).
pub fn default_max_shard_bytes() -> (bytes: usize)
    ensures
        bytes == 1024 * 1024,
{
    1024 * 1024
}

/// The default bound on mempool bytes (64 MiB).
pub fn default_max_pool_bytes() -> (bytes: usize)
    ensures
        bytes == 64 * 1024 * 1024,
{
    64 * 1024 * 1024
}

/// The default page cache capacity (2 GiB).
pub fn default_page_cache_bytes() -> (bytes: usize)
    ensures
        bytes == 2 * 1024 * 1024 * 1024,
{
    2 * 1024 * 1024 * 1024
}

/// Returns whether a count is zero and may be left out of a written config.
pub fn usize_is_zero(value: &usize) -> (zero: bool)
    ensures
        zero == (*value == 0),
{
    *value == 0
}

/// The secondaries of a deployment, in order.
pub open spec fn roles(indexer: bool, relayer: bool) -> Seq<SecondaryRole> {
    (if indexer {
        seq![SecondaryRole::Indexer]
    } else {
        seq![]
    }) + (if relayer {
        seq![SecondaryRole::Relayer]
    } else {
        seq![]
    })
}

/// Lists the secondaries of a deployment: the indexer first, then the relayer.
pub fn list_roles(indexer: bool, relayer: bool) -> (list: Vec<SecondaryRole>)
    ensures
        list@ == roles(indexer, relayer),
{
    let mut list: Vec<SecondaryRole> = Vec::new();
    if indexer {
        list.push(SecondaryRole::Indexer);
    }
    if relayer {
        list.push(SecondaryRole::Relayer);
    }
    proof {
        assert(list@ =~= roles(indexer, relayer));
    }
    list
}

/// Returns the secondaries of a deployment.
pub fn secondary_roles(args: &GenerateArgs) -> (list: Vec<SecondaryRole>)
    ensures
        list@ == roles(args.indexer, args.relayer),
{
    list_roles(args.indexer, args.relayer)
}

/// Returns the number of secondaries of a deployment.
pub fn total_secondaries(args: &GenerateArgs) -> (count: u32)
    ensures
        count == roles(args.indexer, args.relayer).len(),
{
    secondary_roles(args).len() as u32
}

/// Returns whether the deployment has the indexer stack.
pub fn indexer_enabled(args: &GenerateArgs) -> (enabled: bool)
    ensures
        enabled == args.indexer,
{
    args.indexer
}

/// The larger of a value and one.
pub open spec fn at_least_one(value: int) -> int {
    if value < 1 {
        1
    } else {
        value
    }
}

/// Private lanes per validator: the explicit count, else enough lanes of the batch size for the
/// target, else the default.
pub open spec fn lanes_per_validator(args: GenerateArgs) -> int {
    match (args.spammer_private_lanes, args.spammer_target_inflight) {
        (Some(lanes), _) => lanes as int,
        (None, Some(target)) => {
            let batch = match args.spammer_private_batch {
                Some(batch) => batch,
                None => DEFAULT_SPAMMER_PRIVATE_BATCH,
            };
            at_least_one(crate::numbers::ceil_div(target as int, args.validators * batch))
        },
        (None, None) => DEFAULT_SPAMMER_PRIVATE_LANES as int,
    }
}

/// Private operations per batch: the explicit count, else the smallest that reaches the target
/// over all lanes, else the default.
pub open spec fn operations_per_batch(args: GenerateArgs) -> int {
    match (args.spammer_private_batch, args.spammer_target_inflight) {
        (Some(batch), _) => batch as int,
        (None, Some(target)) => at_least_one(
            crate::numbers::ceil_div(target as int, args.validators * lanes_per_validator(args)),
        ),
        (None, None) => DEFAULT_SPAMMER_PRIVATE_BATCH as int,
    }
}

/// All private lanes of the cluster.
pub open spec fn cluster_lanes(args: GenerateArgs) -> int {
    args.validators * lanes_per_validator(args)
}

/// Private transactions in flight once every lane has a batch out.
pub open spec fn cluster_inflight(args: GenerateArgs) -> int {
    cluster_lanes(args) * operations_per_batch(args)
}

/// What splitting the target divides by first.
pub open spec fn split_divisor(args: GenerateArgs) -> int {
    args.validators * (match (args.spammer_private_lanes, args.spammer_private_batch) {
        (Some(lanes), _) => lanes,
        (None, Some(batch)) => batch,
        (None, None) => DEFAULT_SPAMMER_PRIVATE_BATCH,
    })
}

/// Why the lanes and batch options are rejected, if they are.
pub open spec fn sizing_rejection(args: GenerateArgs) -> Option<PlanError> {
    let lanes = args.spammer_private_lanes;
    let batch = args.spammer_private_batch;
    if args.validators == 0 {
        Some(PlanError::NoValidators)
    } else if args.spammer_workload is Public && args.spammer_target_inflight is Some {
        Some(PlanError::TargetNeedsPrivateWorkload)
    } else if lanes == Some(0usize) {
        Some(PlanError::ZeroLanes)
    } else if batch == Some(0usize) {
        Some(PlanError::ZeroBatch)
    } else if args.spammer_target_inflight is None {
        None
    } else if lanes is Some && batch is Some {
        if cluster_inflight(args) > usize::MAX {
            Some(PlanError::CapacityOverflow)
        } else if cluster_inflight(args) < args.spammer_target_inflight.unwrap() {
            Some(
                PlanError::BelowTarget {
                    lanes: lanes.unwrap(),
                    batch: batch.unwrap(),
                    validators: args.validators,
                    capacity: cluster_inflight(args) as usize,
                    target: args.spammer_target_inflight.unwrap(),
                },
            )
        } else {
            None
        }
    } else if split_divisor(args) > usize::MAX {
        Some(PlanError::SplitOverflow)
    } else {
        None
    }
}

/// Why the private workload's resolved sizing is rejected, if it is.
pub open spec fn load_rejection(args: GenerateArgs) -> Option<PlanError> {
    let batch = operations_per_batch(args);
    let inflight = cluster_inflight(args);
    if cluster_lanes(args) > usize::MAX {
        Some(PlanError::LanesOverflow)
    } else if inflight > usize::MAX {
        Some(PlanError::InflightOverflow)
    } else if batch * PRIVATE_TX_BYTES > usize::MAX {
        Some(PlanError::BatchBytesOverflow)
    } else if batch * PRIVATE_TX_BYTES > args.max_propose_bytes {
        Some(
            PlanError::BatchAboveProposal {
                batch: batch as usize,
                batch_bytes: (batch * PRIVATE_TX_BYTES) as usize,
                max_propose_bytes: args.max_propose_bytes,
            },
        )
    } else if inflight > u32::MAX {
        Some(PlanError::InflightAboveAccounts)
    } else {
        match args.spammer_accounts {
            None => if inflight * PRIVATE_ACCOUNTS_HEADROOM > u32::MAX {
                Some(PlanError::DerivedAccountsOverflow)
            } else {
                None
            },
            Some(accounts) => if accounts < inflight {
                Some(
                    PlanError::TooFewAccounts {
                        accounts,
                        lanes: cluster_lanes(args) as usize,
                        batch: batch as usize,
                        floor: inflight as u32,
                    },
                )
            } else {
                None
            },
        }
    }
}

/// Why the sizing options are rejected, if they are.
pub open spec fn plan_rejection(args: GenerateArgs) -> Option<PlanError> {
    match sizing_rejection(args) {
        Some(error) => Some(error),
        None => match args.spammer_workload {
            SpammerWorkload::Public => if cluster_lanes(args) > usize::MAX {
                Some(PlanError::LanesOverflow)
            } else {
                None
            },
            SpammerWorkload::Private => load_rejection(args),
        },
    }
}

/// The sizing that accepted options resolve to.
pub open spec fn accepted_plan(args: GenerateArgs) -> SpammerPlan {
    match args.spammer_workload {
        SpammerWorkload::Public => SpammerPlan {
            accounts: match args.spammer_accounts {
                Some(accounts) => accounts,
                None => DEFAULT_SPAMMER_ACCOUNTS,
            },
            private_batch: operations_per_batch(args) as usize,
            total_private_lanes: cluster_lanes(args) as usize,
            inflight: 0,
        },
        SpammerWorkload::Private => SpammerPlan {
            accounts: match args.spammer_accounts {
                Some(accounts) => accounts,
                None => (cluster_inflight(args) * PRIVATE_ACCOUNTS_HEADROOM) as u32,
            },
            private_batch: operations_per_batch(args) as usize,
            total_private_lanes: cluster_lanes(args) as usize,
            inflight: cluster_inflight(args) as usize,
        },
    }
}

/// Picks the lanes per validator and the operations per batch.
fn resolve_sizing(args: &GenerateArgs) -> (sizing: Result<(usize, usize), PlanError>)
    ensures
        match sizing {
            Ok((lanes, batch)) => {
                &&& sizing_rejection(*args) is None
                &&& lanes == lanes_per_validator(*args)
                &&& batch == operations_per_batch(*args)
                &&& lanes > 0
                &&& batch > 0
            },
            Err(error) => sizing_rejection(*args) == Some(error),
        },
{
    if args.validators == 0 {
        return Err(PlanError::NoValidators);
    }
    let validators: usize = args.validators as usize;
    if args.spammer_workload == SpammerWorkload::Public && args.spammer_target_inflight.is_some() {
        return Err(PlanError::TargetNeedsPrivateWorkload);
    }
    if let Some(lanes) = args.spammer_private_lanes {
        if lanes == 0 {
            return Err(PlanError::ZeroLanes);
        }
    }
    if let Some(batch) = args.spammer_private_batch {
        if batch == 0 {
            return Err(PlanError::ZeroBatch);
        }
    }
    let target: usize = match args.spammer_target_inflight {
        Some(target) => target,
        None => {
            let lanes: usize = match args.spammer_private_lanes {
                Some(lanes) => lanes,
                None => DEFAULT_SPAMMER_PRIVATE_LANES,
            };
            let batch: usize = match args.spammer_private_batch {
                Some(batch) => batch,
                None => DEFAULT_SPAMMER_PRIVATE_BATCH,
            };
            return Ok((lanes, batch));
        },
    };
    match (args.spammer_private_lanes, args.spammer_private_batch) {
        (Some(lanes), Some(batch)) => {
            proof {
                product_grows(validators as int, lanes as int, batch as int);
            }
            let cluster: usize = match validators.checked_mul(lanes) {
                Some(cluster) => cluster,
                None => return Err(PlanError::CapacityOverflow),
            };
            let capacity: usize = match cluster.checked_mul(batch) {
                Some(capacity) => capacity,
                None => return Err(PlanError::CapacityOverflow),
            };
            if capacity < target {
                return Err(
                    PlanError::BelowTarget {
                        lanes,
                        batch,
                        validators: args.validators,
                        capacity,
                        target,
                    },
                );
            }
            Ok((lanes, batch))
        },
        (Some(lanes), None) => {
            let divisor: usize = match validators.checked_mul(lanes) {
                Some(divisor) => divisor,
                None => return Err(PlanError::SplitOverflow),
            };
            proof {
                product_is_positive(validators as int, lanes as int);
            }
            let split: usize = div_ceil(target, divisor);
            Ok((lanes, if split < 1 { 1 } else { split }))
        },
        (None, Some(batch)) => {
            let divisor: usize = match validators.checked_mul(batch) {
                Some(divisor) => divisor,
                None => return Err(PlanError::SplitOverflow),
            };
            proof {
                product_is_positive(validators as int, batch as int);
            }
            let split: usize = div_ceil(target, divisor);
            Ok((if split < 1 { 1 } else { split }, batch))
        },
        (None, None) => {
            let first: usize = match validators.checked_mul(DEFAULT_SPAMMER_PRIVATE_BATCH) {
                Some(first) => first,
                None => return Err(PlanError::SplitOverflow),
            };
            let split: usize = div_ceil(target, first);
            let lanes: usize = if split < 1 { 1 } else { split };
            proof {
                split_lanes_fit(target as int, validators as int, lanes as int);
                product_is_positive(validators as int, lanes as int);
            }
            let batch: usize = div_ceil(target, validators * lanes);
            Ok((lanes, if batch < 1 { 1 } else { batch }))
        },
    }
}

/// Resolves the spammer sizing knobs, deriving whatever the operator left unset and rejecting
/// combinations that would silently degrade.
///
/// The private workload keeps one batch per lane in flight and fills each batch with at most one
/// operation per source account, so `validators x lanes x batch` is the in-flight count and
/// accounts must cover it.
pub fn resolve_spammer_plan(args: &GenerateArgs) -> (plan: Result<SpammerPlan, PlanError>)
    ensures
        match plan {
            Ok(plan) => plan_rejection(*args) is None && plan == accepted_plan(*args),
            Err(error) => plan_rejection(*args) == Some(error),
        },
{
    let (lanes, batch): (usize, usize) = match resolve_sizing(args) {
        Ok(sizing) => sizing,
        Err(error) => return Err(error),
    };
    let validators: usize = args.validators as usize;
    let total_private_lanes: usize = match validators.checked_mul(lanes) {
        Some(total) => total,
        None => return Err(PlanError::LanesOverflow),
    };
    if args.spammer_workload == SpammerWorkload::Public {
        let accounts: u32 = match args.spammer_accounts {
            Some(accounts) => accounts,
            None => DEFAULT_SPAMMER_ACCOUNTS,
        };
        return Ok(SpammerPlan { accounts, private_batch: batch, total_private_lanes, inflight: 0 });
    }
    let inflight: usize = match total_private_lanes.checked_mul(batch) {
        Some(inflight) => inflight,
        None => return Err(PlanError::InflightOverflow),
    };
    let batch_bytes: usize = match batch.checked_mul(PRIVATE_TX_BYTES) {
        Some(bytes) => bytes,
        None => return Err(PlanError::BatchBytesOverflow),
    };
    if batch_bytes > args.max_propose_bytes {
        return Err(
            PlanError::BatchAboveProposal {
                batch,
                batch_bytes,
                max_propose_bytes: args.max_propose_bytes,
            },
        );
    }
    if inflight as u64 > u32::MAX as u64 {
        return Err(PlanError::InflightAboveAccounts);
    }
    let floor: u32 = inflight as u32;
    let accounts: u32 = match args.spammer_accounts {
        None => match floor.checked_mul(PRIVATE_ACCOUNTS_HEADROOM) {
            Some(accounts) => accounts,
            None => return Err(PlanError::DerivedAccountsOverflow),
        },
        Some(accounts) => {
            if accounts < floor {
                return Err(
                    PlanError::TooFewAccounts {
                        accounts,
                        lanes: total_private_lanes,
                        batch,
                        floor,
                    },
                );
            }
            accounts
        },
    };
    Ok(SpammerPlan { accounts, private_batch: batch, total_private_lanes, inflight })
}

proof fn product_is_positive(left: int, right: int)
    requires
        left > 0,
        right > 0,
    ensures
        left * right > 0,
{
    assert(left * right > 0) by (nonlinear_arith)
        requires
            left > 0,
            right > 0,
    ;
}

proof fn product_grows(validators: int, lanes: int, batch: int)
    requires
        validators > 0,
        lanes > 0,
        batch > 0,
    ensures
        validators * lanes * batch >= validators * lanes,
{
    assert(validators * lanes * batch >= validators * lanes) by (nonlinear_arith)
        requires
            validators > 0,
            lanes > 0,
            batch > 0,
    ;
}

/// Splitting a machine-word target at the default batch size leaves a lane count that still fits.
proof fn split_lanes_fit(target: int, validators: int, lanes: int)
    requires
        0 <= target <= usize::MAX,
        0 < validators,
        validators * DEFAULT_SPAMMER_PRIVATE_BATCH <= usize::MAX,
        lanes == at_least_one(
            crate::numbers::ceil_div(target, validators * DEFAULT_SPAMMER_PRIVATE_BATCH),
        ),
    ensures
        validators * lanes <= usize::MAX,
{
    let divisor = validators * DEFAULT_SPAMMER_PRIVATE_BATCH;
    crate::numbers::rounding_up_covers(target, divisor);
    let split = crate::numbers::ceil_div(target, divisor);
    assert(validators * lanes <= usize::MAX) by (nonlinear_arith)
        requires
            0 <= target <= usize::MAX,
            0 < validators,
            divisor == validators * 64,
            divisor <= usize::MAX,
            divisor * split < target + divisor,
            lanes == split || lanes == 1,
            split >= 0,
            usize::MAX >= 64,
    {
        assert(divisor * split == 64 * (validators * split));
    }
}

/// An accepted private plan holds at least the target in flight.
pub proof fn plan_meets_target(args: GenerateArgs)
    requires
        plan_rejection(args) is None,
        args.spammer_target_inflight is Some,
    ensures
        accepted_plan(args).inflight >= args.spammer_target_inflight.unwrap(),
{
    let target = args.spammer_target_inflight.unwrap() as int;
    let validators = args.validators as int;
    let lanes = lanes_per_validator(args);
    let batch = operations_per_batch(args);
    match (args.spammer_private_lanes, args.spammer_private_batch) {
        (Some(_), Some(_)) => {},
        (None, Some(explicit)) => {
            let divisor = validators * explicit;
            product_is_positive(validators, explicit as int);
            crate::numbers::rounding_up_covers(target, divisor);
            let split = crate::numbers::ceil_div(target, divisor);
            assert(validators * lanes * batch >= target) by (nonlinear_arith)
                requires
                    divisor == validators * batch,
                    divisor * split >= target,
                    lanes >= split,
                    validators > 0,
                    batch > 0,
            {
                assert(validators * lanes * batch == divisor * lanes);
                assert(divisor * lanes >= divisor * split);
            }
        },
        (_, None) => {
            lanes_are_positive(args);
            let divisor = validators * lanes;
            product_is_positive(validators, lanes);
            crate::numbers::rounding_up_covers(target, divisor);
            let split = crate::numbers::ceil_div(target, divisor);
            assert(divisor * batch >= target) by (nonlinear_arith)
                requires
                    divisor * split >= target,
                    batch >= split,
                    divisor > 0,
            ;
        },
    }
}

proof fn lanes_are_positive(args: GenerateArgs)
    requires
        sizing_rejection(args) is None,
    ensures
        lanes_per_validator(args) > 0,
{
}

/// A derived batch overshoots a positive target by less than one transaction per lane.
pub proof fn derived_batch_overshoot(args: GenerateArgs)
    requires
        plan_rejection(args) is None,
        args.spammer_private_batch is None,
        args.spammer_target_inflight is Some,
        args.spammer_target_inflight.unwrap() > 0,
    ensures
        accepted_plan(args).inflight - args.spammer_target_inflight.unwrap() < accepted_plan(
            args,
        ).total_private_lanes,
{
    lanes_are_positive(args);
    let target = args.spammer_target_inflight.unwrap() as int;
    let divisor = cluster_lanes(args);
    product_is_positive(args.validators as int, lanes_per_validator(args));
    crate::numbers::rounding_up_covers(target, divisor);
}

/// A batch derived together with the lanes never exceeds the default batch size.
pub proof fn derived_batch_within_default(args: GenerateArgs)
    requires
        plan_rejection(args) is None,
        args.spammer_private_batch is None,
        args.spammer_private_lanes is None,
        args.spammer_target_inflight is Some,
    ensures
        accepted_plan(args).private_batch <= DEFAULT_SPAMMER_PRIVATE_BATCH,
{
    lanes_are_positive(args);
    let target = args.spammer_target_inflight.unwrap() as int;
    let validators = args.validators as int;
    let first = validators * DEFAULT_SPAMMER_PRIVATE_BATCH;
    let lanes = lanes_per_validator(args);
    let divisor = validators * lanes;
    product_is_positive(validators, lanes);
    crate::numbers::rounding_up_covers(target, first);
    crate::numbers::rounding_up_covers(target, divisor);
    let split = crate::numbers::ceil_div(target, first);
    let batch = crate::numbers::ceil_div(target, divisor);
    assert(batch <= 64) by (nonlinear_arith)
        requires
            first == validators * 64,
            divisor == validators * lanes,
            lanes >= split,
            first * split >= target,
            divisor * batch < target + divisor,
            validators > 0,
            divisor > 0,
    {
        assert(64 * divisor >= first * split) by (nonlinear_arith)
            requires
                first == validators * 64,
                divisor == validators * lanes,
                lanes >= split,
                validators > 0,
        ;
        assert(divisor * (batch - 1) < 64 * divisor) by (nonlinear_arith)
            requires
                divisor * batch < target + divisor,
                64 * divisor >= target,
        ;
    }
}

/// The lanes of an accepted plan are a whole multiple of the validators.
pub proof fn lanes_divide_evenly(args: GenerateArgs)
    requires
        plan_rejection(args) is None,
    ensures
        accepted_plan(args).total_private_lanes % args.validators as usize == 0,
{
    let lanes = lanes_per_validator(args);
    let validators = args.validators as int;
    lanes_are_positive(args);
    product_is_positive(validators, lanes);
    vstd::arithmetic::div_mod::lemma_mod_multiples_basic(lanes, validators);
    assert(validators * lanes == lanes * validators) by (nonlinear_arith);
}

/// In an accepted private plan every in-flight transaction has a source account of its own, and
/// one batch fits one proposal.
pub proof fn private_plan_is_feasible(args: GenerateArgs)
    requires
        plan_rejection(args) is None,
        args.spammer_workload is Private,
    ensures
        accepted_plan(args).accounts >= accepted_plan(args).inflight,
        accepted_plan(args).inflight == accepted_plan(args).total_private_lanes * accepted_plan(
            args,
        ).private_batch,
        accepted_plan(args).private_batch * PRIVATE_TX_BYTES <= args.max_propose_bytes,
        args.spammer_accounts is None ==> accepted_plan(args).accounts == 2 * accepted_plan(
            args,
        ).inflight,
{
    lanes_are_positive(args);
    let lanes = lanes_per_validator(args);
    let batch = operations_per_batch(args);
    product_is_positive(args.validators as int, lanes);
    assert(batch > 0);
    product_is_positive(cluster_lanes(args), batch);
}

/// Whether `lanes` is the smallest positive number of lanes per validator that, with `batch`
/// operations per lane, holds `target` transactions in flight.
pub open spec fn fewest_lanes(validators: int, lanes: int, batch: int, target: int) -> bool {
    &&& lanes >= 1
    &&& validators * lanes * batch >= target
    &&& lanes == 1 || validators * (lanes - 1) * batch < target
}

/// Whether `batch` is the smallest positive number of operations that, in each of `lanes` lanes
/// per validator, holds `target` transactions in flight.
pub open spec fn smallest_batch(validators: int, lanes: int, batch: int, target: int) -> bool {
    &&& batch >= 1
    &&& validators * lanes * batch >= target
    &&& batch == 1 || validators * lanes * (batch - 1) < target
}

/// Whether options ask for `lanes` lanes per validator and `batch` operations per batch. An
/// explicit knob is what it says, target or not. Without a target an unset knob is 8 lanes or 64
/// operations. With one, unset lanes are the fewest that reach it at the batch size, or at 64
/// operations if that is unset too, and an unset batch is the smallest that reaches it over the
/// lanes.
pub open spec fn asks_for(args: GenerateArgs, lanes: int, batch: int) -> bool {
    &&& match (args.spammer_private_lanes, args.spammer_target_inflight) {
        (Some(explicit), _) => lanes == explicit,
        (None, None) => lanes == 8,
        (None, Some(target)) => {
            let size = match args.spammer_private_batch {
                Some(explicit) => explicit as int,
                None => 64,
            };
            fewest_lanes(args.validators as int, lanes, size, target as int)
        },
    }
    &&& match (args.spammer_private_batch, args.spammer_target_inflight) {
        (Some(explicit), _) => batch == explicit,
        (None, None) => batch == 64,
        (None, Some(target)) => smallest_batch(
            args.validators as int,
            lanes,
            batch,
            target as int,
        ),
    }
}

proof fn fewest_is_rounded_up(target: int, divisor: int, count: int)
    requires
        target >= 0,
        divisor > 0,
        count >= 1,
        divisor * count >= target,
        count == 1 || divisor * (count - 1) < target,
    ensures
        count == at_least_one(crate::numbers::ceil_div(target, divisor)),
{
    crate::numbers::rounding_up_covers(target, divisor);
    let split = crate::numbers::ceil_div(target, divisor);
    assert(count == if split < 1 { 1 } else { split }) by (nonlinear_arith)
        requires
            divisor > 0,
            count >= 1,
            split >= 0,
            divisor * split >= target,
            divisor * split < target + divisor,
            divisor * count >= target,
            count == 1 || divisor * (count - 1) < target,
    {
        if count > split && count > 1 {
            assert(divisor * (count - 1) >= divisor * split);
        }
        if count < split {
            assert(divisor * count <= divisor * (split - 1));
            assert(divisor * (split - 1) == divisor * split - divisor);
        }
    }
}

/// Options ask for one sizing.
proof fn asked_sizing_is_resolved(args: GenerateArgs, lanes: int, batch: int)
    requires
        args.validators > 0,
        args.spammer_private_lanes != Some(0usize),
        args.spammer_private_batch != Some(0usize),
        asks_for(args, lanes, batch),
    ensures
        lanes == lanes_per_validator(args),
        batch == operations_per_batch(args),
        lanes > 0,
        batch > 0,
{
    let validators = args.validators as int;
    match (args.spammer_private_lanes, args.spammer_target_inflight) {
        (None, Some(target)) => {
            let size = match args.spammer_private_batch {
                Some(explicit) => explicit as int,
                None => 64,
            };
            product_is_positive(validators, size);
            assert(validators * lanes * size == (validators * size) * lanes) by (nonlinear_arith);
            assert(validators * (lanes - 1) * size == (validators * size) * (lanes - 1))
                by (nonlinear_arith);
            fewest_is_rounded_up(target as int, validators * size, lanes);
        },
        _ => {},
    }
    match (args.spammer_private_batch, args.spammer_target_inflight) {
        (None, Some(target)) => {
            product_is_positive(validators, lanes);
            fewest_is_rounded_up(target as int, validators * lanes, batch);
        },
        _ => {},
    }
}

/// What a call of [`resolve_spammer_plan`] that succeeds answers. The plan has the lanes and the
/// batch that the options ask for, and the explicit accounts. Unset accounts are 10 in a public
/// workload, which keeps nothing in flight. In a private workload one batch per lane is in flight,
/// and unset accounts are twice as many.
pub proof fn plan_is_what_was_asked_for(
    args: GenerateArgs,
    plan: SpammerPlan,
    lanes: int,
    batch: int,
)
    requires
        call_ensures(resolve_spammer_plan, (&args,), Ok::<SpammerPlan, PlanError>(plan)),
        asks_for(args, lanes, batch),
    ensures
        plan.total_private_lanes == lanes * args.validators,
        plan.private_batch == batch,
        args.spammer_accounts is Some ==> args.spammer_accounts == Some(plan.accounts),
        args.spammer_workload is Public ==> {
            &&& plan.inflight == 0
            &&& args.spammer_accounts is None ==> plan.accounts == 10
        },
        args.spammer_workload is Private ==> {
            &&& plan.inflight == lanes * args.validators * batch
            &&& args.spammer_accounts is None ==> plan.accounts == 2 * plan.inflight
        },
{
    asked_sizing_is_resolved(args, lanes, batch);
    assert(lanes * args.validators == args.validators * lanes) by (nonlinear_arith);
    product_is_positive(args.validators as int, lanes);
    product_is_positive(cluster_lanes(args), batch);
}

/// When a call of [`resolve_spammer_plan`] succeeds. Private options are accepted exactly if there
/// is a validator, no explicit knob is zero, both knobs together reach the target, one batch of
/// 512-byte transactions fits a proposal, and the transactions in flight fit the accounts: the
/// explicit ones, or twice as many in 32 bits. Public options are accepted exactly if there is a
/// validator, no explicit knob is zero, there is no target, and the lanes can be counted.
pub proof fn plan_is_accepted_when_feasible(
    args: GenerateArgs,
    outcome: Result<SpammerPlan, PlanError>,
    lanes: int,
    batch: int,
)
    requires
        call_ensures(resolve_spammer_plan, (&args,), outcome),
        asks_for(args, lanes, batch),
        args.validators * 64 <= usize::MAX,
    ensures
        args.spammer_workload is Private ==> (outcome is Ok <==> {
            let inflight = args.validators * lanes * batch;
            &&& args.validators > 0
            &&& args.spammer_private_lanes != Some(0usize)
            &&& args.spammer_private_batch != Some(0usize)
            &&& args.spammer_target_inflight is Some ==> inflight
                >= args.spammer_target_inflight.unwrap()
            &&& batch * 512 <= args.max_propose_bytes
            &&& match args.spammer_accounts {
                Some(accounts) => inflight <= accounts,
                None => 2 * inflight <= u32::MAX,
            }
        }),
        args.spammer_workload is Public ==> (outcome is Ok <==> {
            &&& args.validators > 0
            &&& args.spammer_private_lanes != Some(0usize)
            &&& args.spammer_private_batch != Some(0usize)
            &&& args.spammer_target_inflight is None
            &&& args.validators * lanes <= usize::MAX
        }),
{
    let inflight = args.validators * lanes * batch;
    if args.validators > 0 && args.spammer_private_lanes != Some(0usize)
        && args.spammer_private_batch != Some(0usize) {
        asked_sizing_is_resolved(args, lanes, batch);
        let validators = args.validators as int;
        product_is_positive(validators, lanes);
        product_is_positive(validators * lanes, batch);
        assert(inflight >= validators * lanes && inflight >= validators * batch && inflight >= batch)
            by (nonlinear_arith)
            requires
                inflight == validators * lanes * batch,
                validators > 0,
                lanes > 0,
                batch > 0,
        {
            assert(validators * lanes * batch == (validators * batch) * lanes);
            assert(validators * batch >= batch);
        }
    }
}

/// Options without a zero knob always ask for some sizing.
pub proof fn some_sizing_is_asked_for(args: GenerateArgs) -> (sizing: (int, int))
    requires
        args.validators > 0,
        args.spammer_private_lanes != Some(0usize),
        args.spammer_private_batch != Some(0usize),
    ensures
        asks_for(args, sizing.0, sizing.1),
{
    let validators = args.validators as int;
    let lanes = lanes_per_validator(args);
    let batch = operations_per_batch(args);
    match (args.spammer_private_lanes, args.spammer_target_inflight) {
        (None, Some(target)) => {
            let size = match args.spammer_private_batch {
                Some(explicit) => explicit as int,
                None => 64,
            };
            product_is_positive(validators, size);
            assert(validators * lanes * size == (validators * size) * lanes) by (nonlinear_arith);
            assert(validators * (lanes - 1) * size == (validators * size) * (lanes - 1))
                by (nonlinear_arith);
            rounded_up_is_fewest(target as int, validators * size);
        },
        _ => {},
    }
    match (args.spammer_private_batch, args.spammer_target_inflight) {
        (None, Some(target)) => {
            product_is_positive(validators, lanes);
            rounded_up_is_fewest(target as int, validators * lanes);
        },
        _ => {},
    }
    (lanes, batch)
}

proof fn rounded_up_is_fewest(target: int, divisor: int)
    requires
        target >= 0,
        divisor > 0,
    ensures
        ({
            let count = at_least_one(crate::numbers::ceil_div(target, divisor));
            &&& count >= 1
            &&& divisor * count >= target
            &&& count == 1 || divisor * (count - 1) < target
        }),
{
    crate::numbers::rounding_up_covers(target, divisor);
    let split = crate::numbers::ceil_div(target, divisor);
    let count = at_least_one(split);
    assert(divisor * (split - 1) == divisor * split - divisor) by (nonlinear_arith);
}

/// Runway and mempool pressure of a private plan, reported to the operator.
#[derive(Debug, Clone, Copy, PartialEq, Eq, Structural)]
pub struct PlanReport {
    /// The resolved sizing.
    pub plan: SpammerPlan,
    /// Estimated minutes until the source accounts are exhausted.
    pub est_runway_minutes: u64,
    /// Bytes in flight that each leader's mempool sees.
    pub per_leader_bytes: u64,
    /// Whether those bytes exceed the mempool.
    pub exceeds_mempool: bool,
}

/// Transactions one source account clears before it is exhausted: its transfers, one fund, and
/// one rollover.
pub open spec fn operations_per_account(value: u64) -> int {
    ACCOUNT_BALANCE as int / at_least_one(value as int) + 2
}

/// The report for an accepted plan.
pub open spec fn plan_report(args: GenerateArgs) -> PlanReport {
    let plan = accepted_plan(args);
    let bytes = plan.inflight as int / args.validators as int * PRIVATE_TX_BYTES;
    PlanReport {
        plan,
        est_runway_minutes: (plan.accounts * operations_per_account(args.spammer_value)
            / at_least_one(plan.inflight as int) / 60) as u64,
        per_leader_bytes: bytes as u64,
        exceeds_mempool: bytes > args.max_pool_bytes,
    }
}

/// Reports the sizing of a private spammer; there is nothing to report for other deployments.
pub fn spammer_plan_report(args: &GenerateArgs) -> (report: Result<Option<PlanReport>, PlanError>)
    ensures
        match report {
            Ok(None) => !(args.spammer && args.spammer_workload is Private),
            Ok(Some(report)) => {
                &&& args.spammer && args.spammer_workload is Private
                &&& plan_rejection(*args) is None
                &&& report == plan_report(*args)
            },
            Err(error) => {
                &&& args.spammer && args.spammer_workload is Private
                &&& plan_rejection(*args) == Some(error)
            },
        },
{
    if !args.spammer || args.spammer_workload != SpammerWorkload::Private {
        return Ok(None);
    }
    let plan = match resolve_spammer_plan(args) {
        Ok(plan) => plan,
        Err(error) => return Err(error),
    };
    let value: u64 = if args.spammer_value < 1 { 1 } else { args.spammer_value };
    let inflight: u64 = if plan.inflight < 1 { 1 } else { plan.inflight as u64 };
    proof {
        assert(0 <= ACCOUNT_BALANCE as int / value as int <= ACCOUNT_BALANCE) by (nonlinear_arith)
            requires
                value >= 1,
                ACCOUNT_BALANCE == 1000,
        ;
    }
    let operations: u64 = ACCOUNT_BALANCE / value + 2;
    proof {
        assert(plan.accounts * operations <= u64::MAX) by (nonlinear_arith)
            requires
                plan.accounts <= u32::MAX,
                operations <= 1002,
        ;
    }
    let total: u64 = plan.accounts as u64 * operations;
    let per_leader: u64 = plan.inflight as u64 / args.validators as u64;
    proof {
        private_plan_is_feasible(*args);
        assert(per_leader <= plan.inflight) by (nonlinear_arith)
            requires
                args.validators >= 1,
                per_leader == plan.inflight as u64 / args.validators as u64,
        ;
    }
    let per_leader_bytes: u64 = per_leader * PRIVATE_TX_BYTES as u64;
    Ok(
        Some(
            PlanReport {
                plan,
                est_runway_minutes: total / inflight / 60,
                per_leader_bytes,
                exceeds_mempool: per_leader_bytes > args.max_pool_bytes as u64,
            },
        ),
    )
}

/// Data shards a block of this cluster splits into.
pub open spec fn data_shards(validators: u32) -> int {
    (if validators == 0 {
        0
    } else {
        validators - 1
    }) / 3 + 1
}

/// Largest shard of a full proposal, before headroom.
pub open spec fn full_shard(max_propose_bytes: usize, validators: u32) -> int {
    crate::numbers::ceil_div(max_propose_bytes as int, data_shards(validators))
}

/// Largest shard of a full proposal, with a quarter of headroom.
pub open spec fn shard_bound(max_propose_bytes: usize, validators: u32) -> int {
    full_shard(max_propose_bytes, validators) * 5 / 4
}

/// Whether the shard bound can be computed in the machine word.
pub open spec fn shard_bound_fits(max_propose_bytes: usize, validators: u32) -> bool {
    full_shard(max_propose_bytes, validators) * 5 <= usize::MAX
}

/// Returns the largest shard a full proposal can produce for this cluster size, with 25% headroom
/// for chunk proofs and framing.
pub fn derived_shard_bound(max_propose_bytes: usize, validators: u32) -> (bound: usize)
    requires
        shard_bound_fits(max_propose_bytes, validators),
    ensures
        bound == shard_bound(max_propose_bytes, validators),
{
    let faults: u32 = validators.saturating_sub(1) / 3;
    let minimum_shards: usize = faults as usize + 1;
    div_ceil(max_propose_bytes, minimum_shards) * 5 / 4
}

/// Returns the shard limit written to node configs: the explicit limit when given, otherwise the
/// derived bound, but never below the 1 MiB default.
pub fn resolved_max_shard_bytes(args: &GenerateArgs) -> (bytes: usize)
    requires
        args.max_shard_bytes is None ==> shard_bound_fits(args.max_propose_bytes, args.validators),
    ensures
        match args.max_shard_bytes {
            Some(limit) => bytes == limit,
            None => {
                let bound = shard_bound(args.max_propose_bytes, args.validators);
                &&& bound < 1024 * 1024 ==> bytes == 1024 * 1024
                &&& bound >= 1024 * 1024 ==> bytes == bound
            },
        },
{
    match args.max_shard_bytes {
        Some(limit) => limit,
        None => {
            let bound: usize = derived_shard_bound(args.max_propose_bytes, args.validators);
            if bound < default_max_shard_bytes() {
                default_max_shard_bytes()
            } else {
                bound
            }
        },
    }
}

/// Shards at the derived bound carry a full block: together the data shards hold every proposed
/// byte.
pub proof fn shard_bound_carries_full_block(max_propose_bytes: usize, validators: u32)
    ensures
        data_shards(validators) * shard_bound(max_propose_bytes, validators) >= max_propose_bytes,
        shard_bound(max_propose_bytes, validators) >= full_shard(max_propose_bytes, validators),
{
    let shards = data_shards(validators);
    crate::numbers::rounding_up_covers(max_propose_bytes as int, shards);
    let full = full_shard(max_propose_bytes, validators);
    assert(full * 5 / 4 >= full);
    assert(shards * (full * 5 / 4) >= shards * full) by (nonlinear_arith)
        requires
            full * 5 / 4 >= full,
            shards > 0,
    ;
}

/// The bound follows from the faults that a cluster tolerates. With `faults` the largest number
/// whose threefold stays below the number of validators, a block splits into one data shard more
/// than that. With `full` the smallest size at which so many shards hold a full proposal, the
/// bound is `full` and a quarter, rounded down. So the data shards at the bound hold five quarters
/// of a full proposal, up to rounding, and no more.
pub proof fn shard_bound_follows_tolerated_faults(
    max_propose_bytes: usize,
    validators: u32,
    faults: int,
    full: int,
)
    requires
        faults >= 0,
        3 * faults + 1 <= validators < 3 * (faults + 1) + 1,
        (faults + 1) * full >= max_propose_bytes,
        (faults + 1) * (full - 1) < max_propose_bytes,
    ensures
        shard_bound(max_propose_bytes, validators) == full + full / 4,
        4 * ((faults + 1) * shard_bound(max_propose_bytes, validators)) > 5 * max_propose_bytes - 4 * (
        faults + 1),
        4 * ((faults + 1) * shard_bound(max_propose_bytes, validators)) < 5 * (max_propose_bytes
            + faults + 1),
{
    let shards = faults + 1;
    assert(data_shards(validators) == shards);
    let max = max_propose_bytes as int;
    let computed = full_shard(max_propose_bytes, validators);
    crate::numbers::rounding_up_covers(max, shards);
    assert(shards * computed >= max && shards * computed < max + shards);
    assert(computed == full) by (nonlinear_arith)
        requires
            shards > 0,
            shards * computed >= max,
            shards * computed < max + shards,
            shards * full >= max,
            shards * (full - 1) < max,
    {
        assert(shards * (full - 1) == shards * full - shards);
        if computed < full {
            assert(shards * computed <= shards * (full - 1));
        }
        if full < computed {
            assert(shards * full <= shards * (computed - 1));
            assert(shards * (computed - 1) == shards * computed - shards);
        }
    }
    assert(full >= 0) by (nonlinear_arith)
        requires
            shards * full >= max,
            max >= 0,
            shards > 0,
    ;
    let bound = shard_bound(max_propose_bytes, validators);
    assert(bound == full * 5 / 4);
    assert(5 * full - 3 <= 4 * bound <= 5 * full);
    assert(4 * (shards * bound) > 5 * max - 4 * shards && 4 * (shards * bound) < 5 * (max + shards))
        by (nonlinear_arith)
        requires
            5 * full - 3 <= 4 * bound <= 5 * full,
            shards * full >= max,
            shards * full < max + shards,
            shards > 0,
    {
        assert(shards * (5 * full - 3) <= shards * (4 * bound) <= shards * (5 * full));
        assert(shards * (5 * full - 3) == 5 * (shards * full) - 3 * shards);
        assert(shards * (5 * full) == 5 * (shards * full));
        assert(shards * (4 * bound) == 4 * (shards * bound));
    }
}

/// What a call of [`derived_shard_bound`] answers, from the validators alone: with `faults` the
/// faults that so many validators tolerate, and `full` the smallest size at which one shard more
/// than that many hold a full proposal, the answer is `full` and a quarter.
pub proof fn derived_bound_follows_tolerated_faults(
    max_propose_bytes: usize,
    validators: u32,
    bound: usize,
    faults: int,
    full: int,
)
    requires
        call_ensures(derived_shard_bound, (max_propose_bytes, validators), bound),
        faults >= 0,
        3 * faults + 1 <= validators < 3 * (faults + 1) + 1,
        (faults + 1) * full >= max_propose_bytes,
        (faults + 1) * (full - 1) < max_propose_bytes,
    ensures
        bound == full + full / 4,
        4 * ((faults + 1) * bound) > 5 * max_propose_bytes - 4 * (faults + 1),
        4 * ((faults + 1) * bound) < 5 * (max_propose_bytes + faults + 1),
{
    shard_bound_follows_tolerated_faults(max_propose_bytes, validators, faults, full);
}

/// A cluster that tolerates no fault, or has no validator, sends a full proposal in one shard.
pub proof fn lone_shard_holds_everything(max_propose_bytes: usize, validators: u32)
    requires
        validators <= 3,
    ensures
        shard_bound(max_propose_bytes, validators) == max_propose_bytes + max_propose_bytes / 4,
{
    assert(data_shards(validators) == 1);
    crate::numbers::rounding_up_covers(max_propose_bytes as int, 1);
    assert(full_shard(max_propose_bytes, validators) == max_propose_bytes);
}

/// Three validators more tolerate one more fault, and more tolerated faults never need larger
/// shards.
pub proof fn larger_clusters_need_no_larger_shards(
    max_propose_bytes: usize,
    fewer: u32,
    more: u32,
)
    requires
        fewer <= more,
    ensures
        shard_bound(max_propose_bytes, more) <= shard_bound(max_propose_bytes, fewer),
{
    let max = max_propose_bytes as int;
    let few = data_shards(fewer);
    let many = data_shards(more);
    assert(0 < few <= many);
    crate::numbers::rounding_up_covers(max, few);
    crate::numbers::rounding_up_covers(max, many);
    let large = full_shard(max_propose_bytes, fewer);
    let small = full_shard(max_propose_bytes, more);
    assert(small <= large) by (nonlinear_arith)
        requires
            0 < few <= many,
            few * large >= max,
            many * small < max + many,
            large >= 0,
    {
        assert(many * large >= few * large);
        if small > large {
            assert(many * small >= many * (large + 1));
            assert(many * (large + 1) == many * large + many);
        }
    }
}

/// The shard limit written to node configs is the explicit one where there is one. Otherwise it is
/// the larger of the bound and one mebibyte.
pub proof fn shard_limit_is_explicit_or_large_enough(args: GenerateArgs, limit: usize)
    requires
        call_ensures(resolved_max_shard_bytes, (&args,), limit),
        args.max_shard_bytes is None ==> shard_bound_fits(args.max_propose_bytes, args.validators),
    ensures
        args.max_shard_bytes is Some ==> args.max_shard_bytes == Some(limit),
        args.max_shard_bytes is None ==> {
            &&& limit >= 1_048_576
            &&& limit >= shard_bound(args.max_propose_bytes, args.validators)
            &&& limit == 1_048_576 || limit == shard_bound(args.max_propose_bytes, args.validators)
        },
{
}

/// Why the generate options are rejected, if they are.
pub open spec fn generate_rejection(args: GenerateArgs) -> Option<PlanError> {
    if args.spammer && !args.relayer {
        Some(PlanError::SpammerNeedsRelayer)
    } else if plan_rejection(args) is Some {
        plan_rejection(args)
    } else {
        match args.max_shard_bytes {
            Some(limit) => if limit < shard_bound(args.max_propose_bytes, args.validators) {
                Some(
                    PlanError::ShardTooSmall {
                        max_shard_bytes: limit,
                        max_propose_bytes: args.max_propose_bytes,
                        validators: args.validators,
                        shards: data_shards(args.validators) as usize,
                        bound: shard_bound(args.max_propose_bytes, args.validators) as usize,
                    },
                )
            } else {
                None
            },
            None => None,
        }
    }
}

/// Checks the generate options before any files are written.
pub fn validate_generate_args(args: &GenerateArgs) -> (verdict: Result<(), PlanError>)
    requires
        args.max_shard_bytes is Some ==> shard_bound_fits(args.max_propose_bytes, args.validators),
    ensures
        match verdict {
            Ok(()) => generate_rejection(*args) is None,
            Err(error) => generate_rejection(*args) == Some(error),
        },
{
    if args.spammer && !args.relayer {
        return Err(PlanError::SpammerNeedsRelayer);
    }
    match resolve_spammer_plan(args) {
        Ok(_) => {},
        Err(error) => return Err(error),
    }
    if let Some(limit) = args.max_shard_bytes {
        let bound: usize = derived_shard_bound(args.max_propose_bytes, args.validators);
        if limit < bound {
            let shards: u32 = args.validators.saturating_sub(1) / 3 + 1;
            return Err(
                PlanError::ShardTooSmall {
                    max_shard_bytes: limit,
                    max_propose_bytes: args.max_propose_bytes,
                    validators: args.validators,
                    shards: shards as usize,
                    bound,
                },
            );
        }
    }
    Ok(())
}

/// Options that pass the checks give a shard limit that carries a full block.
pub proof fn validated_limit_carries_full_block(args: GenerateArgs, limit: usize)
    requires
        generate_rejection(args) is None,
        match args.max_shard_bytes {
            Some(explicit) => limit == explicit,
            None => limit >= shard_bound(args.max_propose_bytes, args.validators),
        },
    ensures
        data_shards(args.validators) * limit >= args.max_propose_bytes,
{
    shard_bound_carries_full_block(args.max_propose_bytes, args.validators);
    let shards = data_shards(args.validators);
    let bound = shard_bound(args.max_propose_bytes, args.validators);
    assert(shards * limit >= shards * bound) by (nonlinear_arith)
        requires
            limit >= bound,
            shards > 0,
    ;
}

/// How a call of [`validate_generate_args`] judges an explicit shard limit, once everything else
/// passes: with `faults` the faults that so many validators tolerate, and `full` the smallest size
/// at which one shard more than that many hold a full proposal, a limit below `full` and a quarter
/// is refused, naming that many shards, and any other passes.
pub proof fn shard_limit_is_judged_by_tolerated_faults(
    args: GenerateArgs,
    limit: usize,
    verdict: Result<(), PlanError>,
    faults: int,
    full: int,
)
    requires
        call_ensures(validate_generate_args, (&args,), verdict),
        args.max_shard_bytes == Some(limit),
        args.spammer ==> args.relayer,
        plan_rejection(args) is None,
        shard_bound_fits(args.max_propose_bytes, args.validators),
        faults >= 0,
        3 * faults + 1 <= args.validators < 3 * (faults + 1) + 1,
        (faults + 1) * full >= args.max_propose_bytes,
        (faults + 1) * (full - 1) < args.max_propose_bytes,
    ensures
        verdict is Ok <==> limit >= full + full / 4,
        limit < full + full / 4 ==> {
            &&& verdict matches Err(PlanError::ShardTooSmall {
                max_shard_bytes,
                max_propose_bytes,
                validators,
                shards,
                bound,
            })
            &&& max_shard_bytes == limit
            &&& max_propose_bytes == args.max_propose_bytes
            &&& validators == args.validators
            &&& shards == faults + 1
            &&& bound == full + full / 4
        },
{
    shard_bound_follows_tolerated_faults(args.max_propose_bytes, args.validators, faults, full);
    assert(data_shards(args.validators) == faults + 1);
    assert(shard_bound(args.max_propose_bytes, args.validators) <= usize::MAX);
}

/// What a call of [`validate_generate_args`] refuses first: a spammer without a relayer, and next
/// whatever [`resolve_spammer_plan`] refuses, for the same reason.
pub proof fn validation_covers_planning(
    args: GenerateArgs,
    verdict: Result<(), PlanError>,
    plan: Result<SpammerPlan, PlanError>,
)
    requires
        call_ensures(validate_generate_args, (&args,), verdict),
        call_ensures(resolve_spammer_plan, (&args,), plan),
    ensures
        args.spammer && !args.relayer ==> verdict == Err::<(), PlanError>(
            PlanError::SpammerNeedsRelayer,
        ),
        !(args.spammer && !args.relayer) ==> match plan {
            Err(error) => verdict == Err::<(), PlanError>(error),
            Ok(_) => args.max_shard_bytes is None ==> verdict is Ok,
        },
{
}

/// What the operator is told of a private plan: each leader's mempool sees the bytes of one validator's
/// lanes, 512 for each transaction, and that is too much exactly if it exceeds the mempool. The
/// accounts last as many whole minutes as all their transactions fill at one round of the transactions
/// in flight per second.
pub proof fn report_follows_plan(
    args: GenerateArgs,
    report: PlanReport,
    lanes: int,
    batch: int,
    operations: int,
)
    requires
        call_ensures(
            spammer_plan_report,
            (&args,),
            Ok::<Option<PlanReport>, PlanError>(Some(report)),
        ),
        asks_for(args, lanes, batch),
        args.spammer_value > 0,
        operations * args.spammer_value <= 1_000 < (operations + 1) * args.spammer_value,
    ensures
        args.spammer,
        args.spammer_workload is Private,
        report.plan.private_batch == batch,
        report.plan.total_private_lanes == args.validators * lanes,
        report.per_leader_bytes == lanes * batch * 512,
        report.exceeds_mempool <==> lanes * batch * 512 > args.max_pool_bytes,
        60 * report.plan.inflight * report.est_runway_minutes <= report.plan.accounts * (operations
            + 2),
        report.plan.accounts * (operations + 2) < 60 * report.plan.inflight * (
        report.est_runway_minutes + 1),
{
    asked_sizing_is_resolved(args, lanes, batch);
    let validators = args.validators as int;
    let value = args.spammer_value as int;
    let plan = accepted_plan(args);
    private_plan_is_feasible(args);
    product_is_positive(validators, lanes);
    product_is_positive(validators * lanes, batch);
    let share = lanes * batch;
    assert(validators * lanes * batch == share * validators) by (nonlinear_arith)
        requires
            share == lanes * batch,
    ;
    vstd::arithmetic::div_mod::lemma_div_multiples_vanish(share, validators);
    assert(validators * share == share * validators) by (nonlinear_arith);
    assert(plan.inflight as int / validators == share);
    assert(1_000int / value == operations) by (nonlinear_arith)
        requires
            value > 0,
            operations * value <= 1_000 < (operations + 1) * value,
    ;
    let total = plan.accounts * (operations + 2);
    let inflight = plan.inflight as int;
    assert(operations >= 0) by (nonlinear_arith)
        requires
            value > 0,
            1_000 < (operations + 1) * value,
    ;
    assert(total >= 0) by (nonlinear_arith)
        requires
            total == plan.accounts * (operations + 2),
            operations >= 0,
    ;
    let rounds = total / inflight;
    vstd::arithmetic::div_mod::lemma_fundamental_div_mod(total, inflight);
    vstd::arithmetic::div_mod::lemma_mod_bound(total, inflight);
    let minutes = rounds / 60;
    assert(rounds >= 0 && rounds <= total) by (nonlinear_arith)
        requires
            inflight > 0,
            total >= 0,
            rounds == total / inflight,
    ;
    assert(operations <= 1_000) by (nonlinear_arith)
        requires
            value >= 1,
            operations * value <= 1_000,
            operations >= 0,
    ;
    assert(total <= 0xffff_ffff * 1_002) by (nonlinear_arith)
        requires
            total == plan.accounts * (operations + 2),
            0 <= operations <= 1_000,
            plan.accounts <= 0xffff_ffff,
    ;
    assert(report.est_runway_minutes == minutes);
    assert(share * 512 <= 0xffff_ffff * 512) by {
        assert(share <= inflight) by (nonlinear_arith)
            requires
                inflight == share * validators,
                validators >= 1,
                share >= 0,
        ;
    }
    assert(60 * inflight * minutes <= total && total < 60 * inflight * (minutes + 1))
        by (nonlinear_arith)
        requires
            total == inflight * rounds + total % inflight,
            0 <= total % inflight < inflight,
            60 * minutes <= rounds < 60 * minutes + 60,
            inflight > 0,
    {
        assert(inflight * (60 * minutes) <= inflight * rounds);
        assert(inflight * (rounds + 1) <= inflight * (60 * minutes + 60));
        assert(inflight * (60 * minutes) == 60 * inflight * minutes);
        assert(inflight * (60 * minutes + 60) == 60 * inflight * (minutes + 1));
        assert(inflight * (rounds + 1) == inflight * rounds + inflight);
    }
}

/// A deployment has one secondary for the indexer and one for the relayer, in that order, where those
/// were asked for.
pub proof fn secondaries_are_what_was_asked_for(
    args: GenerateArgs,
    list: Vec<SecondaryRole>,
    count: u32,
)
    requires
        call_ensures(secondary_roles, (&args,), list),
        call_ensures(total_secondaries, (&args,), count),
    ensures
        count == list@.len(),
        list@.contains(SecondaryRole::Indexer) <==> args.indexer,
        list@.contains(SecondaryRole::Relayer) <==> args.relayer,
        list@.no_duplicates(),
        args.indexer ==> list@[0] == SecondaryRole::Indexer,
        args.relayer ==> list@.last() == SecondaryRole::Relayer,
{
    if args.indexer {
        assert(list@[0] == SecondaryRole::Indexer);
    }
    if args.relayer {
        assert(list@[list@.len() - 1] == SecondaryRole::Relayer);
    }
}

/// Why [`resolve_spammer_plan`] refuses options, and with which numbers: no validators, a target for the
/// public workload, a zero knob, knobs that miss the target, a batch that no proposal holds, or too few
/// accounts.
pub proof fn rejections_name_their_reason(
    args: GenerateArgs,
    outcome: Result<SpammerPlan, PlanError>,
    lanes: int,
    batch: int,
)
    requires
        call_ensures(resolve_spammer_plan, (&args,), outcome),
        asks_for(args, lanes, batch),
        args.validators * 64 <= usize::MAX,
    ensures
        outcome == Err::<SpammerPlan, PlanError>(PlanError::NoValidators) <==> args.validators == 0,
        outcome == Err::<SpammerPlan, PlanError>(PlanError::TargetNeedsPrivateWorkload)
            <==> args.validators > 0 && args.spammer_workload is Public
            && args.spammer_target_inflight is Some,
        outcome == Err::<SpammerPlan, PlanError>(PlanError::ZeroLanes) ==> lanes == 0,
        outcome == Err::<SpammerPlan, PlanError>(PlanError::ZeroBatch) ==> batch == 0,
        outcome matches Err(PlanError::BelowTarget {
            lanes: named_lanes,
            batch: named_batch,
            validators,
            capacity,
            target,
        }) ==> {
            &&& named_lanes == lanes
            &&& named_batch == batch
            &&& validators == args.validators
            &&& capacity == args.validators * lanes * batch
            &&& args.spammer_target_inflight == Some(target)
            &&& capacity < target
        },
        outcome matches Err(PlanError::BatchAboveProposal {
            batch: named,
            batch_bytes,
            max_propose_bytes,
        }) ==> {
            &&& named == batch
            &&& batch_bytes == batch * 512
            &&& max_propose_bytes == args.max_propose_bytes
            &&& batch_bytes > max_propose_bytes
        },
        outcome matches Err(PlanError::TooFewAccounts {
            accounts,
            lanes: all_lanes,
            batch: named,
            floor,
        }) ==> {
            &&& args.spammer_accounts == Some(accounts)
            &&& all_lanes == args.validators * lanes
            &&& named == batch
            &&& floor == args.validators * lanes * batch
            &&& accounts < floor
        },
        !(outcome matches Err(PlanError::SpammerNeedsRelayer)),
{
    if args.validators > 0 && args.spammer_private_lanes != Some(0usize)
        && args.spammer_private_batch != Some(0usize) {
        asked_sizing_is_resolved(args, lanes, batch);
        product_is_positive(args.validators as int, lanes);
        product_is_positive(args.validators * lanes, batch);
    }
}

/// There is a report exactly for a private spammer that can be sized, and none for any other
/// deployment; a private spammer that cannot be sized is refused as its plan is.
pub proof fn only_private_spammers_are_reported(
    args: GenerateArgs,
    report: Result<Option<PlanReport>, PlanError>,
    plan: Result<SpammerPlan, PlanError>,
)
    requires
        call_ensures(spammer_plan_report, (&args,), report),
        call_ensures(resolve_spammer_plan, (&args,), plan),
    ensures
        report == Ok::<Option<PlanReport>, PlanError>(None) <==> !args.spammer
            || args.spammer_workload is Public,
        args.spammer && args.spammer_workload is Private ==> match plan {
            Ok(plan) => report matches Ok(Some(shown)) && shown.plan == plan,
            Err(error) => report == Err::<Option<PlanReport>, PlanError>(error),
        },
{
}

/// Explanations name the options and the numbers that they are about, and recommend twice the accounts
/// that are needed, as far as those can be counted.
pub proof fn explanations_name_numbers(error: PlanError, text: String)
    requires
        call_ensures(PlanError::message, (&error,), text),
    ensures
        error matches PlanError::BelowTarget { lanes, batch, validators, capacity, target } ==> (
        "--spammer-private-lanes "@ + crate::text::decimal(lanes as nat)
            + " x --spammer-private-batch "@ + crate::text::decimal(batch as nat) + " across "@
            + crate::text::decimal(validators as nat) + " validators holds only "@
            + crate::text::decimal(capacity as nat)
            + " transactions in flight, below --spammer-target-inflight "@ + crate::text::decimal(
            target as nat,
        )).is_prefix_of(text@),
        error matches PlanError::BatchAboveProposal { batch, batch_bytes, max_propose_bytes } ==> (
        "--spammer-private-batch "@ + crate::text::decimal(batch as nat) + " encodes to ~"@
            + crate::text::decimal(batch_bytes as nat)
            + " bytes per submission, above --max-propose-bytes "@ + crate::text::decimal(
            max_propose_bytes as nat,
        )).is_prefix_of(text@),
        error matches PlanError::TooFewAccounts { accounts, lanes, batch, floor } ==> {
            let head = "--spammer-accounts "@ + crate::text::decimal(accounts as nat)
                + " cannot fill "@ + crate::text::decimal(lanes as nat) + " lanes x "@
                + crate::text::decimal(batch as nat)
                + "-transaction batches: each in-flight transaction needs its own source account ("@
                + crate::text::decimal(floor as nat) + " minimum, "@;
            &&& 2 * floor <= u32::MAX ==> (head + crate::text::decimal((2 * floor) as nat)
                + " recommended"@).is_prefix_of(text@)
            &&& 2 * floor > u32::MAX ==> (head + crate::text::decimal(u32::MAX as nat)
                + " recommended"@).is_prefix_of(text@)
        },
        error matches PlanError::ShardTooSmall {
            max_shard_bytes,
            max_propose_bytes,
            validators,
            shards,
            bound,
        } ==> ("--max-shard-bytes "@ + crate::text::decimal(max_shard_bytes as nat)
            + " cannot carry a full --max-propose-bytes "@ + crate::text::decimal(
            max_propose_bytes as nat,
        ) + " block: "@ + crate::text::decimal(validators as nat)
            + " validators split blocks into "@ + crate::text::decimal(shards as nat)
            + " data shards, so peers need to accept shards up to "@ + crate::text::decimal(
            bound as nat,
        )).is_prefix_of(text@),
{
    if let PlanError::TooFewAccounts { accounts, lanes, batch, floor } = error {
        let head = "--spammer-accounts "@ + crate::text::decimal(accounts as nat) + " cannot fill "@
            + crate::text::decimal(lanes as nat) + " lanes x "@ + crate::text::decimal(batch as nat)
            + "-transaction batches: each in-flight transaction needs its own source account ("@
            + crate::text::decimal(floor as nat) + " minimum, "@;
        let number = crate::text::decimal(recommended_accounts(floor) as nat);
        let tail = " recommended); raise --spammer-accounts or leave it unset to derive it"@;
        reveal_strlit(" recommended");
        reveal_strlit(" recommended); raise --spammer-accounts or leave it unset to derive it");
        assert(text@ == head + number + tail);
        assert(" recommended"@.is_prefix_of(tail));
        assert(tail.subrange(0, 12) =~= " recommended"@);
        assert((head + number + " recommended"@).is_prefix_of(head + number + tail)) by {
            let front = head + number;
            let short = front + " recommended"@;
            let long = front + tail;
            assert(short =~= long.subrange(0, short.len() as int));
        }
    }
}

/// Without an explicit limit, the limit written to node configs is what [`derived_shard_bound`] derives
/// for the cluster, or one mebibyte where that is more.
pub proof fn unset_limit_is_derived(args: GenerateArgs, limit: usize, bound: usize)
    requires
        call_ensures(resolved_max_shard_bytes, (&args,), limit),
        call_ensures(derived_shard_bound, (args.max_propose_bytes, args.validators), bound),
        args.max_shard_bytes is None,
    ensures
        bound >= 1_048_576 ==> limit == bound,
        bound < 1_048_576 ==> limit == 1_048_576,
{
}

/// An explicit limit passes validation exactly if it is at least what [`derived_shard_bound`] derives,
/// once everything else passes; a limit that fails is named together with that bound.
pub proof fn explicit_limit_is_held_against_derived(
    args: GenerateArgs,
    limit: usize,
    bound: usize,
    verdict: Result<(), PlanError>,
    plan: SpammerPlan,
)
    requires
        args.max_shard_bytes == Some(limit),
        call_ensures(derived_shard_bound, (args.max_propose_bytes, args.validators), bound),
        call_ensures(validate_generate_args, (&args,), verdict),
        call_ensures(resolve_spammer_plan, (&args,), Ok::<SpammerPlan, PlanError>(plan)),
        args.spammer ==> args.relayer,
    ensures
        verdict is Ok <==> limit >= bound,
        verdict matches Err(error) ==> (error matches PlanError::ShardTooSmall {
            max_shard_bytes,
            bound: named,
            ..
        } && max_shard_bytes == limit && named == bound),
{
}

} // verus!
