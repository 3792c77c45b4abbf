//! What the spammer runs: settings from the command line and the configuration file, one submitter
//! per target, and when the run is over.

use crate::spammer::jitter::relayer_target_for;
use crate::text::push_decimal;
use crate::validator::config::{resolve_named_http_url, HostEntry};
use vstd::prelude::*;

verus! {

/// Settings of the command line.
#[derive(Debug, Clone)]
pub struct CliSettings {
    pub accounts: u32,
    pub value: u64,
    pub seed_offset: u64,
    pub relayer_url: Option<String>,
    pub relayer_submitters: usize,
    pub presigned_batches: usize,
    pub relayer_targets: Vec<String>,
    pub rayon_threads: usize,
    pub private: bool,
}

/// Settings of the configuration file.
#[derive(Debug, Clone)]
pub struct FileSettings {
    pub accounts: u32,
    pub value: u64,
    pub seed_offset: u64,
    pub relayer_url: String,
    pub relayer_submitters: usize,
    pub presigned_batches: usize,
    pub primary_validators: Vec<String>,
    pub rayon_threads: usize,
    pub private: bool,
}

/// What the spammer runs with.
#[derive(Debug, Clone)]
pub struct RelayerModeConfig {
    pub relayer_url: String,
    pub accounts_count: u32,
    pub value: u64,
    pub seed_offset: u64,
    pub relayer_submitters: usize,
    pub presigned_batches: usize,
    pub relayer_targets: Vec<String>,
    pub rayon_threads: usize,
    pub private: bool,
}

/// Why the spammer cannot run.
#[derive(Debug, Clone, Copy, PartialEq, Eq, Structural)]
pub enum SettingsError {
    NoRelayerUrl,
    JitterOutOfRange,
    NoPresignedBatches,
    TooFewAccounts,
    NoValue,
    PrivateWithoutTargets,
    ValueAboveBalance { value: u64, balance: u64 },
    NoRayonThreads,
}

impl SettingsError {
    /// The words for this error.
    pub open spec fn text(self) -> Seq<char> {
        match self {
            SettingsError::NoRelayerUrl => "provide --relayer-url or --config"@,
            SettingsError::JitterOutOfRange => "--accounts-jitter must be between 0 and 1"@,
            SettingsError::NoPresignedBatches => "--presigned-batches must be > 0"@,
            SettingsError::TooFewAccounts => "need at least 2 accounts for a ring"@,
            SettingsError::NoValue => "transfer value must be > 0"@,
            SettingsError::PrivateWithoutTargets =>
                "--private requires --relayer-targets (pinned leader submission)"@,
            SettingsError::ValueAboveBalance { value, balance } => "transfer value ("@
                + crate::text::decimal(value as nat) + ") must be <= DEFAULT_ACCOUNT_BALANCE ("@
                + crate::text::decimal(balance as nat) + ")"@,
            SettingsError::NoRayonThreads => "--rayon-threads must be > 0"@,
        }
    }

    /// Returns the words for this error.
    pub fn message(&self) -> (text: String)
        ensures
            text@ == self.text(),
    {
        match self {
            SettingsError::NoRelayerUrl => "provide --relayer-url or --config".to_string(),
            SettingsError::JitterOutOfRange => "--accounts-jitter must be between 0 and 1".to_string(),
            SettingsError::NoPresignedBatches => "--presigned-batches must be > 0".to_string(),
            SettingsError::TooFewAccounts => "need at least 2 accounts for a ring".to_string(),
            SettingsError::NoValue => "transfer value must be > 0".to_string(),
            SettingsError::PrivateWithoutTargets =>
                "--private requires --relayer-targets (pinned leader submission)".to_string(),
            SettingsError::ValueAboveBalance { value, balance } => {
                let mut text = "transfer value (".to_string();
                push_decimal(&mut text, *value);
                text.append(") must be <= DEFAULT_ACCOUNT_BALANCE (");
                push_decimal(&mut text, *balance);
                text.append(")");
                text
            },
            SettingsError::NoRayonThreads => "--rayon-threads must be > 0".to_string(),
        }
    }
}

/// Whether `config` is what the settings ask for. The configuration file, if there is one, goes
/// before the command line; only its targets may be left to the command line.
pub open spec fn chooses(
    config: RelayerModeConfig,
    cli: CliSettings,
    file: Option<FileSettings>,
    hosts: Seq<HostEntry>,
) -> bool {
    match file {
        Some(file) => {
            &&& config.accounts_count == file.accounts
            &&& config.value == file.value
            &&& config.seed_offset == file.seed_offset
            &&& config.relayer_url@ == crate::validator::config::resolved_url(
                file.relayer_url@,
                crate::validator::config::host_addresses(hosts),
            )
            &&& config.relayer_submitters == (if file.relayer_submitters > 0 {
                file.relayer_submitters as int
            } else if file.primary_validators@.len() > 0 {
                file.primary_validators@.len() as int
            } else {
                1
            })
            &&& config.presigned_batches == file.presigned_batches
            &&& config.relayer_targets == (if file.primary_validators@.len() == 0 {
                cli.relayer_targets
            } else {
                file.primary_validators
            })
            &&& config.rayon_threads == file.rayon_threads
            &&& config.private == file.private
        },
        None => {
            &&& config.accounts_count == cli.accounts
            &&& config.value == cli.value
            &&& config.seed_offset == cli.seed_offset
            &&& cli.relayer_url == Some(config.relayer_url)
            &&& config.relayer_submitters == (if cli.relayer_submitters > 0 {
                cli.relayer_submitters as int
            } else {
                1
            })
            &&& config.presigned_batches == cli.presigned_batches
            &&& config.relayer_targets == cli.relayer_targets
            &&& config.rayon_threads == cli.rayon_threads
            &&& config.private == cli.private
        },
    }
}

/// Why the spammer cannot run with a configuration, if it cannot.
pub open spec fn settings_rejection(
    config: RelayerModeConfig,
    jitter_in_range: bool,
    account_balance: u64,
) -> Option<SettingsError> {
    if !jitter_in_range {
        Some(SettingsError::JitterOutOfRange)
    } else if config.presigned_batches == 0 {
        Some(SettingsError::NoPresignedBatches)
    } else if config.accounts_count < 2 {
        Some(SettingsError::TooFewAccounts)
    } else if config.value == 0 {
        Some(SettingsError::NoValue)
    } else if config.private && config.relayer_targets@.len() == 0 {
        Some(SettingsError::PrivateWithoutTargets)
    } else if config.value > account_balance {
        Some(SettingsError::ValueAboveBalance { value: config.value, balance: account_balance })
    } else if config.rayon_threads == 0 {
        Some(SettingsError::NoRayonThreads)
    } else {
        None
    }
}

fn choose_settings(
    cli: CliSettings,
    file: Option<FileSettings>,
    hosts: &Vec<HostEntry>,
) -> (config: Option<RelayerModeConfig>)
    ensures
        match config {
            Some(config) => chooses(config, cli, file, hosts@),
            None => file is None && cli.relayer_url is None,
        },
{
    match file {
        Some(file) => {
            let validators: usize = file.primary_validators.len();
            let relayer_submitters: usize = if file.relayer_submitters > 0 {
                file.relayer_submitters
            } else if validators > 0 {
                validators
            } else {
                1
            };
            Some(
                RelayerModeConfig {
                    relayer_url: resolve_named_http_url(&file.relayer_url, hosts),
                    accounts_count: file.accounts,
                    value: file.value,
                    seed_offset: file.seed_offset,
                    relayer_submitters,
                    presigned_batches: file.presigned_batches,
                    relayer_targets: if validators == 0 {
                        cli.relayer_targets
                    } else {
                        file.primary_validators
                    },
                    rayon_threads: file.rayon_threads,
                    private: file.private,
                },
            )
        },
        None => {
            let relayer_url = match cli.relayer_url {
                Some(url) => url,
                None => return None,
            };
            let relayer_submitters: usize = if cli.relayer_submitters > 0 {
                cli.relayer_submitters
            } else {
                1
            };
            Some(
                RelayerModeConfig {
                    relayer_url,
                    accounts_count: cli.accounts,
                    value: cli.value,
                    seed_offset: cli.seed_offset,
                    relayer_submitters,
                    presigned_batches: cli.presigned_batches,
                    relayer_targets: cli.relayer_targets,
                    rayon_threads: cli.rayon_threads,
                    private: cli.private,
                },
            )
        },
    }
}

/// Resolves what the spammer runs with and checks it.
pub fn resolve_settings(
    cli: CliSettings,
    file: Option<FileSettings>,
    hosts: &Vec<HostEntry>,
    jitter_in_range: bool,
    account_balance: u64,
) -> (config: Result<RelayerModeConfig, SettingsError>)
    ensures
        match config {
            Ok(config) => {
                &&& chooses(config, cli, file, hosts@)
                &&& settings_rejection(config, jitter_in_range, account_balance) is None
            },
            Err(error) => {
                ||| error == SettingsError::NoRelayerUrl && file is None && cli.relayer_url is None
                ||| exists|config: RelayerModeConfig| #[trigger]
                    chooses(config, cli, file, hosts@) && settings_rejection(
                        config,
                        jitter_in_range,
                        account_balance,
                    ) == Some(error)
            },
        },
{
    let config = match choose_settings(cli, file, hosts) {
        Some(config) => config,
        None => return Err(SettingsError::NoRelayerUrl),
    };
    proof {
        assert(chooses(config, cli, file, hosts@));
    }
    if !jitter_in_range {
        return Err(SettingsError::JitterOutOfRange);
    }
    if config.presigned_batches == 0 {
        return Err(SettingsError::NoPresignedBatches);
    }
    if config.accounts_count < 2 {
        return Err(SettingsError::TooFewAccounts);
    }
    if config.value == 0 {
        return Err(SettingsError::NoValue);
    }
    if config.private && config.relayer_targets.len() == 0 {
        return Err(SettingsError::PrivateWithoutTargets);
    }
    if config.value > account_balance {
        return Err(
            SettingsError::ValueAboveBalance { value: config.value, balance: account_balance },
        );
    }
    if config.rayon_threads == 0 {
        return Err(SettingsError::NoRayonThreads);
    }
    Ok(config)
}

/// One submitter of a run.
#[derive(Debug, Clone)]
pub struct SubmitterPlan {
    /// Number of the submitter.
    pub index: usize,
    /// Seed of the submitter's first account.
    pub account_offset: u64,
    /// Seed of the submitter's batch-size jitter.
    pub jitter_seed: u64,
    /// Exact leader that the submitter targets.
    pub target: Option<String>,
}

/// The seed of the first account of the submitter at `index`.
pub open spec fn account_offset(config: RelayerModeConfig, index: int) -> int {
    config.seed_offset + index * config.accounts_count
}

/// Whether a plan is that of the submitter at `index`.
pub open spec fn plans_submitter(
    plan: SubmitterPlan,
    config: RelayerModeConfig,
    index: int,
) -> bool {
    &&& plan.index == index
    &&& plan.account_offset == account_offset(config, index)
    &&& plan.jitter_seed == (if plan.account_offset == u64::MAX {
        0
    } else {
        plan.account_offset + 1
    })
    &&& match plan.target {
        Some(target) => config.relayer_targets@.len() > 0 && target
            == config.relayer_targets@[index % config.relayer_targets@.len() as int],
        None => config.relayer_targets@.len() == 0,
    }
}

/// Plans the submitters of a run: each has its own accounts, and the targets take turns.
pub fn plan_submitters(config: &RelayerModeConfig) -> (plans: Vec<SubmitterPlan>)
    requires
        config.relayer_submitters > 0 ==> account_offset(*config, config.relayer_submitters - 1)
            <= u64::MAX,
    ensures
        plans@.len() == config.relayer_submitters,
        forall|i: int|
            0 <= i < plans@.len() ==> plans_submitter(#[trigger] plans@[i], *config, i),
{
    let mut plans: Vec<SubmitterPlan> = Vec::new();
    let mut offset: u64 = config.seed_offset;
    let mut index: usize = 0;
    proof {
        assert(0 * config.accounts_count == 0) by (nonlinear_arith);
    }
    while index < config.relayer_submitters
        invariant
            index <= config.relayer_submitters,
            config.relayer_submitters > 0 ==> account_offset(
                *config,
                config.relayer_submitters - 1,
            ) <= u64::MAX,
            index < config.relayer_submitters ==> offset == account_offset(*config, index as int),
            plans@.len() == index,
            forall|i: int|
                0 <= i < plans@.len() ==> plans_submitter(#[trigger] plans@[i], *config, i),
        decreases config.relayer_submitters - index,
    {
        proof {
            if index + 1 < config.relayer_submitters {
                offsets_are_apart(*config, index as int, config.relayer_submitters - 1);
            }
            assert((index + 1) * config.accounts_count == index * config.accounts_count
                + config.accounts_count) by (nonlinear_arith);
        }
        plans.push(
            SubmitterPlan {
                index,
                account_offset: offset,
                jitter_seed: if offset == u64::MAX { 0 } else { offset + 1 },
                target: relayer_target_for(config.relayer_targets.as_slice(), index),
            },
        );
        index += 1;
        if index < config.relayer_submitters {
            offset = offset + config.accounts_count as u64;
        }
    }
    plans
}

/// No two submitters share an account: the seeds of one end before those of the next begin.
pub proof fn offsets_are_apart(config: RelayerModeConfig, left: int, right: int)
    requires
        0 <= left < right,
    ensures
        account_offset(config, left) + config.accounts_count <= account_offset(config, right),
{
    assert(left * config.accounts_count + config.accounts_count <= right * config.accounts_count)
        by (nonlinear_arith)
        requires
            left + 1 <= right,
            config.accounts_count >= 0,
    ;
}

/// Follows a run until every submitter is done.
#[derive(Debug, Clone, Copy, PartialEq, Eq, Structural)]
pub struct RunMonitor {
    /// Submitters that are not done.
    pub remaining: usize,
}

impl RunMonitor {
    /// No submitter is done.
    pub fn new(submitters: usize) -> (monitor: Self)
        ensures
            monitor.remaining == submitters,
    {
        RunMonitor { remaining: submitters }
    }

    /// Takes in that a submitter reported its end, or that none is left to report. Returns whether
    /// the run is over.
    pub fn on_done(&mut self, reported: bool) -> (over: bool)
        ensures
            final(self).remaining == (if reported && old(self).remaining > 0 {
                old(self).remaining - 1
            } else {
                old(self).remaining as int
            }),
            over == (!reported || final(self).remaining == 0),
    {
        if reported && self.remaining > 0 {
            self.remaining = self.remaining - 1;
        }
        !reported || self.remaining == 0
    }
}

/// Returns the port that metrics are served on. A run on an instance of its own is scraped on the
/// deployment's port; any other run serves metrics only where it is told to.
pub fn metrics_port(given: Option<u16>, deployed: bool, scrape_port: u16) -> (port: Option<u16>)
    ensures
        port == match given {
            Some(port) => Some(port),
            None => if deployed {
                Some(scrape_port)
            } else {
                None
            },
        },
{
    match given {
        Some(port) => Some(port),
        None => if deployed {
            Some(scrape_port)
        } else {
            None
        },
    }
}

/// Returns the exit status of a run: a halted submitter makes it a failure.
pub fn exit_status(halted: u64) -> (status: i32)
    ensures
        status == if halted > 0 {
            1i32
        } else {
            0i32
        },
{
    if halted > 0 {
        1
    } else {
        0
    }
}

/// What [`plan_submitters`] plans: the first submitter starts at the seed offset and every other one
/// where the accounts of the one before it end. The jitter of each starts one seed further. Targets
/// take turns: a submitter has the one whose place is congruent to its own number.
pub proof fn submitters_follow_each_other(
    config: RelayerModeConfig,
    plans: Vec<SubmitterPlan>,
    index: int,
    place: int,
)
    requires
        call_ensures(plan_submitters, (&config,), plans),
        0 <= index < plans@.len(),
    ensures
        plans@.len() == config.relayer_submitters,
        plans@[0].account_offset == config.seed_offset,
        index + 1 < plans@.len() ==> plans@[index + 1].account_offset
            == plans@[index].account_offset + config.accounts_count,
        plans@[index].index == index,
        plans@[index].account_offset < u64::MAX ==> plans@[index].jitter_seed
            == plans@[index].account_offset + 1,
        config.relayer_targets@.len() == 0 ==> plans@[index].target is None,
        0 <= place < config.relayer_targets@.len() && (index - place)
            % config.relayer_targets@.len() as int == 0 ==> plans@[index].target == Some(
            config.relayer_targets@[place],
        ),
{
    assert(plans_submitter(plans@[index], config, index));
    assert(plans_submitter(plans@[0], config, 0));
    let step = config.accounts_count as int;
    assert(0 * step == 0);
    if index + 1 < plans@.len() {
        assert(plans_submitter(plans@[index + 1], config, index + 1));
        assert((index + 1) * step == index * step + step) by (nonlinear_arith);
    }
    let size = config.relayer_targets@.len() as int;
    if 0 <= place < size && (index - place) % size == 0 {
        vstd::arithmetic::div_mod::lemma_fundamental_div_mod(index - place, size);
        let turns = (index - place) / size;
        assert(size * turns == turns * size) by (nonlinear_arith);
        vstd::arithmetic::div_mod::lemma_fundamental_div_mod_converse(index, size, turns, place);
    }
}

/// What [`resolve_settings`] accepts can run: a ring of two accounts or more, something to transfer
/// that every account can afford, batches to sign ahead, threads to sign with, and a pinned leader
/// for private operations.
pub proof fn accepted_settings_can_run(
    cli: CliSettings,
    file: Option<FileSettings>,
    hosts: Vec<HostEntry>,
    jitter_in_range: bool,
    account_balance: u64,
    config: RelayerModeConfig,
)
    requires
        call_ensures(
            resolve_settings,
            (cli, file, &hosts, jitter_in_range, account_balance),
            Ok::<RelayerModeConfig, SettingsError>(config),
        ),
    ensures
        jitter_in_range,
        config.accounts_count >= 2,
        1 <= config.value <= account_balance,
        config.presigned_batches >= 1,
        config.rayon_threads >= 1,
        config.relayer_submitters >= 1,
        config.private ==> config.relayer_targets@.len() >= 1,
        match file {
            Some(file) => {
                &&& config.accounts_count == file.accounts
                &&& config.value == file.value
                &&& config.seed_offset == file.seed_offset
                &&& config.presigned_batches == file.presigned_batches
                &&& config.rayon_threads == file.rayon_threads
                &&& config.private == file.private
                &&& file.primary_validators@.len() > 0 ==> config.relayer_targets
                    == file.primary_validators
                &&& file.primary_validators@.len() == 0 ==> config.relayer_targets
                    == cli.relayer_targets
                &&& file.relayer_submitters > 0 ==> config.relayer_submitters
                    == file.relayer_submitters
                &&& file.relayer_submitters == 0 && file.primary_validators@.len() > 0
                    ==> config.relayer_submitters == file.primary_validators@.len()
            },
            None => {
                &&& cli.relayer_url == Some(config.relayer_url)
                &&& config.accounts_count == cli.accounts
                &&& config.value == cli.value
                &&& config.seed_offset == cli.seed_offset
                &&& config.presigned_batches == cli.presigned_batches
                &&& config.rayon_threads == cli.rayon_threads
                &&& config.private == cli.private
                &&& config.relayer_targets == cli.relayer_targets
                &&& cli.relayer_submitters > 0 ==> config.relayer_submitters
                    == cli.relayer_submitters
            },
        },
{
}

/// A run of several submitters is over when the last of them has reported, or when none is left to
/// report.
pub proof fn run_ends_with_last_report(monitor: &mut RunMonitor, reported: bool, over: bool)
    requires
        call_ensures(RunMonitor::on_done, (monitor, reported), over),
    ensures
        !reported ==> over && final(monitor).remaining == old(monitor).remaining,
        reported && old(monitor).remaining > 1 ==> !over && final(monitor).remaining
            == old(monitor).remaining - 1,
        reported && old(monitor).remaining <= 1 ==> over && final(monitor).remaining == 0,
{
}

/// Metrics are served where the run was told to; a deployed run that was not told serves them on the
/// deployment's port, and any other serves none. A run exits with one exactly if a submitter halted.
pub proof fn runs_serve_and_exit_as_told(
    given: Option<u16>,
    deployed: bool,
    scrape_port: u16,
    port: Option<u16>,
    halted: u64,
    status: i32,
)
    requires
        call_ensures(metrics_port, (given, deployed, scrape_port), port),
        call_ensures(exit_status, (halted,), status),
    ensures
        given is Some ==> port == given,
        given is None && deployed ==> port == Some(scrape_port),
        given is None && !deployed ==> port is None,
        status == 0 <==> halted == 0,
        status == 1 <==> halted > 0,
{
}

/// The relayer that a configuration file names is found as [`resolve_named_http_url`] finds it, and
/// settings are refused exactly if they cannot run: without a relayer, with a jitter out of range, or
/// with something missing or out of reach.
pub proof fn unrunnable_settings_are_refused(
    cli: CliSettings,
    file: FileSettings,
    hosts: Vec<HostEntry>,
    jitter_in_range: bool,
    account_balance: u64,
    config: Result<RelayerModeConfig, SettingsError>,
    alone: Result<RelayerModeConfig, SettingsError>,
    url: String,
)
    requires
        call_ensures(
            resolve_settings,
            (cli, Some(file), &hosts, jitter_in_range, account_balance),
            config,
        ),
        call_ensures(
            resolve_settings,
            (cli, None::<FileSettings>, &hosts, jitter_in_range, account_balance),
            alone,
        ),
        call_ensures(
            crate::validator::config::resolve_named_http_url,
            (&file.relayer_url, &hosts),
            url,
        ),
    ensures
        config matches Ok(config) ==> config.relayer_url@ == url@,
        config is Ok <==> {
            &&& jitter_in_range
            &&& file.presigned_batches > 0
            &&& file.accounts >= 2
            &&& 1 <= file.value <= account_balance
            &&& file.rayon_threads > 0
            &&& file.private ==> file.primary_validators@.len() > 0 || cli.relayer_targets@.len()
                > 0
        },
        alone is Ok <==> {
            &&& cli.relayer_url is Some
            &&& jitter_in_range
            &&& cli.presigned_batches > 0
            &&& cli.accounts >= 2
            &&& 1 <= cli.value <= account_balance
            &&& cli.rayon_threads > 0
            &&& cli.private ==> cli.relayer_targets@.len() > 0
        },
        cli.relayer_url is None ==> alone == Err::<RelayerModeConfig, SettingsError>(
            SettingsError::NoRelayerUrl,
        ),
{
}

} // verus!
