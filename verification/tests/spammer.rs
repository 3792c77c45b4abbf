use constantinople::keys::{PRIVATE_KEY_BYTES, PUBLIC_KEY_BYTES};
use constantinople::spammer::accounts::generate_accounts;
use constantinople::spammer::chain_api::{
    account_reply, account_url, commitment_hex, health_answered, health_url, is_pristine, lookup_step, poll_step,
    state_unreadable_message, unhealthy_message, AccountError, AccountInfo, AccountReply,
    ChainDefaults, FreshnessCheck, LookupStep, NonceInfo, PollStep,
};
use constantinople::spammer::chains::{ChainBalance, PrivateAction};
use constantinople::spammer::cli::{PrivateProofMode, Workload};
use constantinople::spammer::config::{
    load_args, load_local_args, load_remote_args, RemoteSpamConfig, SpammerConfig,
};
use constantinople::spammer::jitter::{jittered_batch_size, relayer_target_for, JitterRng};
use constantinople::spammer::presigner::{
    BatchFollower, Envelope, Feedback, Presigner, PresignerStep, SignedBatch,
};
use constantinople::spammer::private::{
    apply_effect, plan_and_sign, run_private, Lane, PrivateEffect, PrivatePhase, PrivateSpamState,
};
use constantinople::spammer::run::{
    exit_status, metrics_port, plan_submitters, resolve_settings, CliSettings, FileSettings, RunMonitor,
    SettingsError,
};
use constantinople::spammer::signer::{sign_batch, Transfer};
use constantinople::spammer::submitter::{
    status_error, submit, submit_pause, submit_private, transactions_url, RelayerBatchStatus, Stats,
    SubmitError, SubmitOutcome,
};
use constantinople::validator::config::{HostEntry, PeerEntry};

const DEFAULT_ACCOUNT_BALANCE: u64 = 1_000;

fn max_extra_accounts(accounts: usize, accounts_jitter: f64) -> usize {
    (accounts as f64 * accounts_jitter).floor() as usize
}

/// `range` must hit both endpoints over enough draws and never escape them.
#[test]
fn jitter_rng_range_is_inclusive_and_bounded() {
    let mut rng = JitterRng::new(42);
    let mut hit_lo = false;
    let mut hit_hi = false;
    for _ in 0..2_000 {
        let v = rng.range(1, 5);
        assert!((1..=5).contains(&v));
        if v == 1 {
            hit_lo = true;
        }
        if v == 5 {
            hit_hi = true;
        }
    }
    assert!(hit_lo, "should sample the lower bound");
    assert!(hit_hi, "should sample the upper bound");
}

/// `range(lo, lo)` collapses to the constant `lo`.
#[test]
fn jitter_rng_range_collapses_when_lo_equals_hi() {
    let mut rng = JitterRng::new(7);
    for _ in 0..32 {
        assert_eq!(rng.range(3, 3), 3);
    }
}

#[test]
fn jittered_batch_size_only_adds_transactions() {
    let mut rng = JitterRng::new(42);
    let mut saw_base = false;
    let mut saw_max = false;

    for _ in 0..2_000 {
        let size = jittered_batch_size(10, max_extra_accounts(10, 0.5), &mut rng);
        assert!((10..=15).contains(&size));
        if size == 10 {
            saw_base = true;
        }
        if size == 15 {
            saw_max = true;
        }
    }

    assert!(saw_base, "should sample the base account count");
    assert!(saw_max, "should sample the upper jitter bound");
}

#[test]
fn jitter_is_an_xorshift() {
    let mut rng = JitterRng::new(1);
    assert_eq!(rng.next_u64(), 0x0000_0000_4082_2041);
    assert_eq!(JitterRng::new(0).state, 0x9E37_79B9_7F4A_7C15);
    let mut rng = JitterRng::new(9);
    assert_eq!(jittered_batch_size(4, 0, &mut rng), 4);
    assert_eq!(rng.state, 9);
}

#[test]
fn relayer_targets_are_selected_by_submitter_index() {
    let targets = vec!["primary-0".to_string(), "primary-1".to_string()];

    assert_eq!(
        relayer_target_for(&targets, 0).as_deref(),
        Some("primary-0")
    );
    assert_eq!(
        relayer_target_for(&targets, 1).as_deref(),
        Some("primary-1")
    );
    assert_eq!(
        relayer_target_for(&targets, 2).as_deref(),
        Some("primary-0")
    );
    assert!(relayer_target_for(&[], 0).is_none());
}

fn nonces_of(batch: &[Transfer]) -> Vec<u64> {
    batch.iter().map(|transfer| transfer.nonce).collect()
}

#[test]
fn sign_produces_correct_count() {
    let accounts = generate_accounts(5, 1000);
    let mut nonces = vec![0; accounts.len()];
    let mut cursor = 0;
    let txs = sign_batch(accounts.len(), 1, &mut nonces, &mut cursor, 15);
    assert_eq!(txs.len(), 5 * 3);
}

#[test]
fn single_round_produces_one_tx_per_account() {
    let accounts = generate_accounts(10, 1000);
    let mut nonces = vec![0; accounts.len()];
    let mut cursor = 0;
    let txs = sign_batch(accounts.len(), 1, &mut nonces, &mut cursor, 10);
    assert_eq!(txs.len(), 10);
    for tx in &txs {
        assert_eq!(tx.nonce, 0);
    }
}

#[test]
fn nonces_are_correct() {
    let accounts = generate_accounts(3, 1000);
    let mut nonces = vec![0; accounts.len()];
    let mut cursor = 0;
    let txs = sign_batch(accounts.len(), 1, &mut nonces, &mut cursor, 12);
    for (idx, tx) in txs.iter().enumerate() {
        let round = (idx / 3) as u64;
        assert_eq!(tx.nonce, round);
        assert_eq!(tx.recipient, (tx.sender + 1) % 3);
    }
}

#[test]
fn variable_batch_preserves_per_account_nonces() {
    let accounts = generate_accounts(4, 1000);
    let mut nonces = vec![0; accounts.len()];
    let mut cursor = 0;

    let first = sign_batch(accounts.len(), 1, &mut nonces, &mut cursor, 6);
    let second = sign_batch(accounts.len(), 1, &mut nonces, &mut cursor, 3);

    assert_eq!(first.len(), 6);
    assert_eq!(second.len(), 3);
    assert_eq!(cursor, 1);
    assert_eq!(nonces, vec![3, 2, 2, 2]);

    let observed: Vec<_> = first
        .iter()
        .chain(second.iter())
        .map(|tx| tx.nonce)
        .collect();
    assert_eq!(observed, vec![0, 0, 0, 0, 1, 1, 1, 1, 2]);
}

#[test]
fn accounts_are_deterministic() {
    let accounts = generate_accounts(2, 1000);
    let again = generate_accounts(1, 1001);
    assert_eq!(accounts[1].private_key, again[0].private_key);
    assert_eq!(accounts[1].public_key, again[0].public_key);
    assert_ne!(accounts[0].public_key, accounts[1].public_key);
    assert_ne!(accounts[0].public_key, accounts[0].private_key);
    assert_eq!(accounts[0].private_key.len(), PRIVATE_KEY_BYTES);
    assert_eq!(accounts[0].public_key.len(), PUBLIC_KEY_BYTES);
}

fn private_envelope(step: PresignerStep) -> Envelope {
    match step {
        PresignerStep::Send(envelope) => envelope,
        PresignerStep::AwaitFeedback => panic!("the presigner waits"),
        PresignerStep::Exit => panic!("the presigner is drained"),
    }
}

fn private_nonces(envelope: &Envelope) -> Vec<u64> {
    match &envelope.batch {
        SignedBatch::Private(meta) => meta.steps.iter().map(|step| step.nonce).collect(),
        SignedBatch::Public(_) => panic!("expected a private batch"),
    }
}

fn private_actions(envelope: &Envelope) -> Vec<PrivateAction> {
    match &envelope.batch {
        SignedBatch::Private(meta) => meta.steps.iter().map(|step| step.action).collect(),
        SignedBatch::Public(_) => panic!("expected a private batch"),
    }
}

#[test]
fn public_presigning_advances_every_account() {
    let mut presigner = Presigner::new(3, 100, 1);
    let first = presigner.next_public(3);
    let second = presigner.next_public(3);
    match (&first.batch, &second.batch) {
        (SignedBatch::Public(first), SignedBatch::Public(second)) => {
            assert_eq!(nonces_of(first), vec![0, 0, 0]);
            assert_eq!(nonces_of(second), vec![1, 1, 1]);
        }
        _ => panic!("expected public batches"),
    }
    assert_eq!((first.seq, second.seq), (0, 1));
}

/// A fully failed batch is unwound, together with everything presigned after it, and signed again
/// against the confirmed state in a new epoch.
#[test]
fn failed_batches_are_signed_again_from_confirmed_state() {
    let mut presigner = Presigner::new(3, 100, 2);
    let first = private_envelope(presigner.next_private(3));
    assert_eq!(first.epoch, 0);
    assert_eq!(private_nonces(&first), vec![0, 0, 0]);
    let _later = private_envelope(presigner.next_private(3));

    presigner.apply_feedback(Feedback::Failed {
        seq: first.seq,
        landed: vec![],
    });
    assert!(presigner.inflight.is_empty());
    assert_eq!(presigner.nonces, vec![0, 0, 0]);
    let resigned = private_envelope(presigner.next_private(3));
    assert_eq!(resigned.epoch, 1);
    assert_eq!(private_nonces(&resigned), vec![0, 0, 0]);
}

/// The landed account continues its chain while the rest restart from scratch.
#[test]
fn partial_failures_keep_landed_operations() {
    let mut presigner = Presigner::new(3, 100, 2);
    let first = private_envelope(presigner.next_private(3));
    assert!(matches!(
        private_actions(&first)[0],
        PrivateAction::Fund { value: 100 }
    ));

    presigner.apply_feedback(Feedback::Failed {
        seq: first.seq,
        landed: vec![0, 17],
    });
    assert_eq!(
        presigner.chains[0],
        ChainBalance {
            public: 0,
            private: 100
        }
    );
    let resigned = private_envelope(presigner.next_private(3));
    assert_eq!(private_nonces(&resigned), vec![1, 0, 0]);
    let actions = private_actions(&resigned);
    assert!(matches!(actions[0], PrivateAction::Transfer { value: 2 }));
    assert!(matches!(actions[1], PrivateAction::Fund { .. }));
    assert!(matches!(actions[2], PrivateAction::Fund { .. }));
}

#[test]
fn drained_presigners_exit() {
    // Starting balance 1: each account funds once, transfers once, done.
    let mut presigner = Presigner::new(2, 1, 1);
    let mut total = 0;
    loop {
        match presigner.next_private(2) {
            PresignerStep::Send(envelope) => {
                total += private_nonces(&envelope).len();
                presigner.apply_feedback(Feedback::Resolved { seq: envelope.seq });
            }
            PresignerStep::AwaitFeedback => panic!("nothing is unresolved"),
            PresignerStep::Exit => break,
        }
    }
    assert_eq!(total, 4, "2 funds + 2 transfers, then a clean shutdown");
}

#[test]
fn drained_presigners_wait_for_unresolved_batches() {
    let mut presigner = Presigner::new(2, 1, 1);
    let funds = private_envelope(presigner.next_private(2));
    presigner.apply_feedback(Feedback::Resolved { seq: funds.seq });
    let transfers = private_envelope(presigner.next_private(2));
    assert_eq!(private_nonces(&transfers), vec![1, 1]);
    assert!(matches!(
        presigner.next_private(2),
        PresignerStep::AwaitFeedback
    ));
    presigner.apply_feedback(Feedback::Failed {
        seq: transfers.seq,
        landed: vec![],
    });
    let resigned = private_envelope(presigner.next_private(2));
    assert_eq!(resigned.epoch, 1);
    assert_eq!(private_nonces(&resigned), vec![1, 1]);
    presigner.apply_feedback(Feedback::Resolved { seq: resigned.seq });
    assert!(matches!(presigner.next_private(2), PresignerStep::Exit));
}

#[test]
fn source_cycles_fund_rollover_then_drains_current() {
    let mut state = PrivateSpamState::new(DEFAULT_ACCOUNT_BALANCE);
    let value = 1;

    // 1. Fund the whole public balance into pending.
    let operation = plan_and_sign(&state, value).expect("fund");
    assert!(matches!(operation.effect, PrivateEffect::Fund { .. }));
    assert_eq!(operation.nonce, 0);
    apply_effect(&mut state, &operation.effect);
    assert_eq!(state.public_balance, 0);
    assert_eq!(state.pending, DEFAULT_ACCOUNT_BALANCE);
    assert_eq!(state.current, 0);
    assert_eq!(state.nonce, 1);

    // 2. Roll pending into current.
    let operation = plan_and_sign(&state, value).expect("rollover");
    assert!(matches!(operation.effect, PrivateEffect::Rollover));
    apply_effect(&mut state, &operation.effect);
    assert_eq!(state.current, DEFAULT_ACCOUNT_BALANCE);
    assert_eq!(state.pending, 0);

    // 3. Transfer `value` until current is drained, then the source is exhausted.
    let mut transfers = 0;
    while let Some(operation) = plan_and_sign(&state, value) {
        assert!(matches!(operation.effect, PrivateEffect::Transfer { .. }));
        apply_effect(&mut state, &operation.effect);
        transfers += 1;
    }
    assert_eq!(transfers, DEFAULT_ACCOUNT_BALANCE);
    assert_eq!(state.current, 0);
    assert!(
        state.phase(value).is_none(),
        "exhausted source has no phase"
    );
}

#[test]
fn unfinalized_op_keeps_nonce_for_fresh_retry() {
    // Not applying the effect models a dropped/filtered transaction: the
    // nonce stays free, so the next plan re-signs at the same nonce.
    let state = PrivateSpamState::new(DEFAULT_ACCOUNT_BALANCE);

    let first = plan_and_sign(&state, 1).expect("op");
    let retry = plan_and_sign(&state, 1).expect("retry");
    assert_eq!(first.nonce, 0);
    assert_eq!(retry.nonce, 0);
}

#[test]
fn lanes_fill_batches_from_distinct_sources() {
    let mut lane = Lane::new(3, 10, 5, 2);
    let plan = lane.fill_batch();
    assert_eq!(
        plan.iter().map(|planned| planned.index).collect::<Vec<_>>(),
        vec![0, 1]
    );
    assert_eq!(lane.cursor, 2);
    lane.settle(&plan, &SubmitOutcome::Partial([1u64].into_iter().collect()));
    assert_eq!(lane.states[0].nonce, 0);
    assert_eq!(lane.states[1].pending, 10);
    assert_eq!(lane.states[1].phase(5), Some(PrivatePhase::Rollover));

    let plan = lane.fill_batch();
    assert_eq!(
        plan.iter().map(|planned| planned.index).collect::<Vec<_>>(),
        vec![2, 0]
    );
    lane.settle(&plan, &SubmitOutcome::NoneFinalized);
    assert_eq!(lane.states[2].nonce, 0);

    let mut rounds = 0;
    loop {
        let plan = lane.fill_batch();
        if plan.is_empty() {
            break;
        }
        lane.settle(&plan, &SubmitOutcome::AllFinalized);
        rounds += 1;
        assert!(rounds < 100);
    }
    assert!(lane.states.iter().all(|state| state.current == 0));
}

#[test]
fn lanes_share_accounts_evenly() {
    let targets = vec!["a".to_string(), "b".to_string()];
    let plans = run_private(10, 1000, 3, &targets);
    let counts: Vec<usize> = plans.iter().map(|plan| plan.accounts).collect();
    assert_eq!(counts, vec![4, 3, 3]);
    let sources: Vec<u64> = plans.iter().map(|plan| plan.source_seed).collect();
    assert_eq!(sources, vec![1000, 1004, 1007]);
    let sinks: Vec<u64> = plans.iter().map(|plan| plan.sink_seed).collect();
    assert_eq!(sinks, vec![1010, 1014, 1017]);
    assert_eq!(plans[2].rng_seed, 1003);
    assert_eq!(plans[2].target.as_deref(), Some("a"));

    assert_eq!(run_private(2, 0, 9, &[]).len(), 2);
    assert_eq!(run_private(2, 0, 0, &[]).len(), 1);
    assert!(run_private(0, 0, 4, &[]).is_empty());
    assert_eq!(run_private(1, u64::MAX - 1, 1, &[])[0].rng_seed, u64::MAX);
}

#[test]
fn outcomes_name_finalized_transactions() {
    let mut stats = Stats::new();
    let partial = Ok(RelayerBatchStatus::PartiallyFinalized {
        height: 7,
        included: vec![0],
        filtered: 1,
    });
    let outcome = submit_private(&mut stats, 2, &partial);
    assert!(matches!(outcome, SubmitOutcome::Partial(_)));
    assert!(outcome.finalized(0));
    assert!(!outcome.finalized(1));
    assert_eq!(stats.totals().finalized, 1);
    assert_eq!(stats.totals().filtered, 1);

    let finalized = Ok(RelayerBatchStatus::Finalized { height: 8 });
    let all = submit_private(&mut stats, 3, &finalized);
    assert!(matches!(all, SubmitOutcome::AllFinalized));
    assert!(all.finalized(2));
    assert_eq!(stats.totals().finalized, 4);

    let dropped = Ok(RelayerBatchStatus::Dropped);
    let none = submit_private(&mut stats, 3, &dropped);
    assert!(matches!(none, SubmitOutcome::NoneFinalized));
    assert!(!none.finalized(0));
    assert_eq!(stats.totals().dropped, 3);

    let failed = Err(SubmitError::ServiceUnavailable);
    let none = submit_private(&mut stats, 3, &failed);
    assert!(matches!(none, SubmitOutcome::NoneFinalized));
    assert!(!none.finalized(0));
    assert_eq!(stats.totals().errors, 1);
    assert_eq!(stats.submitted_batches, 4);
    assert_eq!(stats.submitted_transactions, 11);
}

#[test]
fn public_submissions_advance_without_retrying() {
    let mut stats = Stats::new();
    assert_eq!(
        submit(&mut stats, 4, &Ok(RelayerBatchStatus::Dropped)),
        0
    );
    assert_eq!(stats.totals().dropped, 4);
    assert_eq!(
        submit(&mut stats, 4, &Err(SubmitError::ServiceUnavailable)),
        100
    );
    assert_eq!(stats.totals().errors, 1);
    stats.finalized_transactions = u64::MAX;
    submit(&mut stats, 2, &Ok(RelayerBatchStatus::Finalized { height: 1 }));
    assert_eq!(stats.totals().finalized, 1);
}

#[test]
fn statuses_map_to_errors() {
    assert_eq!(status_error(200), None);
    assert_eq!(status_error(400), Some(SubmitError::BadRequest));
    assert_eq!(status_error(413), Some(SubmitError::PayloadTooLarge));
    assert_eq!(status_error(500), Some(SubmitError::InternalServerError));
    assert_eq!(status_error(503), Some(SubmitError::ServiceUnavailable));
    assert_eq!(status_error(418), Some(SubmitError::Unexpected(418)));
    assert_eq!(
        transactions_url("http://127.0.0.1:8084//"),
        "http://127.0.0.1:8084/transactions"
    );
}

fn defaults() -> ChainDefaults {
    ChainDefaults {
        balance: DEFAULT_ACCOUNT_BALANCE,
        zero_commitment: vec![0; 32],
    }
}

fn info(balance: u64, base: u64, bitmap: u64, private: &str, pending: &str) -> AccountInfo {
    AccountInfo {
        balance,
        nonce: NonceInfo { base, bitmap },
        private: private.to_string(),
        pending: pending.to_string(),
    }
}

#[test]
fn pristine_accounts_are_recognized() {
    let zero = commitment_hex(&defaults().zero_commitment);
    assert!(is_pristine(
        &info(DEFAULT_ACCOUNT_BALANCE, 0, 0, &zero, &zero),
        &defaults()
    ));
}

#[test]
fn touched_accounts_are_rejected() {
    let zero = commitment_hex(&defaults().zero_commitment);
    let one = commitment_hex(&[1; 32]);
    let pristine = |info: AccountInfo| is_pristine(&info, &defaults());
    assert!(!pristine(info(DEFAULT_ACCOUNT_BALANCE, 1, 0, &zero, &zero)));
    assert!(!pristine(info(DEFAULT_ACCOUNT_BALANCE, 0, 2, &zero, &zero)));
    assert!(!pristine(info(99, 0, 0, &zero, &zero)));
    assert!(!pristine(info(DEFAULT_ACCOUNT_BALANCE, 0, 0, &one, &zero)));
    assert!(!pristine(info(DEFAULT_ACCOUNT_BALANCE, 0, 0, &zero, &one)));
}

#[test]
fn freshness_checks_every_account() {
    assert_eq!(
        FreshnessCheck::new(0).err().as_deref(),
        Some("no accounts to check")
    );
    let zero = commitment_hex(&defaults().zero_commitment);
    let mut check = FreshnessCheck::new(40).unwrap_or_else(|reason| panic!("{reason}"));
    let mut looked_up = Vec::new();
    while let Some(index) = check.next_lookup() {
        looked_up.push(index);
    }
    assert_eq!(looked_up.len(), 32);
    assert!(!check.is_done());
    let fresh = Ok(Some(info(DEFAULT_ACCOUNT_BALANCE, 0, 0, &zero, &zero)));
    assert_eq!(check.on_lookup(0, &fresh, &defaults()), Ok(()));
    assert_eq!(check.on_lookup(1, &Ok(None), &defaults()), Ok(()));
    assert_eq!(check.next_lookup(), Some(32));
    let touched = Ok(Some(info(99, 3, 0, &zero, &zero)));
    let reason = check
        .on_lookup(7, &touched, &defaults())
        .err()
        .unwrap_or_else(|| panic!("a touched account ends the check"));
    assert!(reason.starts_with(
        "spam account 7 already has on-chain state (nonce base 3, balance 99): the spammer"
    ));
    assert_eq!(
        check.on_lookup(8, &Err(AccountError::NotReady), &defaults()),
        Err("could not read account state: state not attached yet".to_string())
    );
}

#[test]
fn lookups_and_polls_are_budgeted() {
    assert_eq!(lookup_step(true, 3), LookupStep::Retry);
    assert_eq!(lookup_step(true, 4), LookupStep::Report);
    assert_eq!(lookup_step(false, 0), LookupStep::Report);
    assert_eq!(poll_step(true, 9, 5), PollStep::Ready);
    assert_eq!(poll_step(false, 4, 5), PollStep::Wait);
    assert_eq!(poll_step(false, 5, 5), PollStep::GiveUp);
}

#[test]
fn account_answers_are_read() {
    assert!(matches!(account_reply(200), AccountReply::Found));
    assert!(matches!(account_reply(404), AccountReply::Missing));
    assert!(matches!(
        account_reply(503),
        AccountReply::Failed(AccountError::NotReady)
    ));
    match account_reply(418) {
        AccountReply::Failed(error) => {
            assert_eq!(error.message(), "unavailable: http status 418");
            assert_eq!(
                state_unreadable_message(&error),
                "could not read account state from the relayer: unavailable: http status 418"
            );
        }
        _ => panic!("an unexpected status is a failure"),
    }
    assert_eq!(health_url("http://r/"), "http://r/health");
    assert_eq!(account_url("http://r/", &[0xab, 1]), "http://r/account/ab01");
    assert_eq!(
        unhealthy_message("http://r/", "120s"),
        "relayer at http://r did not become healthy within 120s"
    );
}

#[test]
fn defaults_are_public_and_real() {
    assert_eq!(Workload::default(), Workload::Public);
    assert_eq!(PrivateProofMode::default(), PrivateProofMode::Real);
}

fn spammer_config() -> SpammerConfig {
    SpammerConfig {
        count: 8,
        validator_names: vec!["validator-a".to_string(), "validator-b".to_string()],
        http_port: 8080,
        seed_start: 3,
        nonce: 9,
    }
}

fn host_entries() -> Vec<HostEntry> {
    vec![
        HostEntry {
            name: "validator-b".to_string(),
            ip: "203.0.113.2".to_string(),
        },
        HostEntry {
            name: "validator-a".to_string(),
            ip: "203.0.113.1".to_string(),
        },
    ]
}

#[test]
fn load_local_args_uses_validator_order_from_config() {
    let peer = |name: &str, p2p: &str, http: &str| PeerEntry {
        name: name.to_string(),
        p2p: p2p.to_string(),
        http: http.to_string(),
    };
    let peers = vec![
        peer("validator-b", "127.0.0.1:9001", "127.0.0.1:8081"),
        peer("validator-a", "127.0.0.1:9000", "127.0.0.1:8080"),
    ];

    let args = load_local_args(&peers, spammer_config()).expect("config should parse");

    assert_eq!(
        args.endpoints(),
        &["http://127.0.0.1:8080", "http://127.0.0.1:8081"]
    );
    assert_eq!(args.count(), 8);
    assert_eq!(args.seed_start(), 3);
    assert_eq!(args.nonce(), 9);

    assert_eq!(
        load_local_args(&peers[..1].to_vec(), spammer_config()).err().as_deref(),
        Some("missing validator peer 'validator-a'")
    );
}

#[test]
fn load_remote_args_uses_validator_order_from_config() {
    let args = load_remote_args(&host_entries(), spammer_config()).expect("config should parse");

    assert_eq!(
        args.endpoints(),
        &["http://203.0.113.1:8080", "http://203.0.113.2:8080"]
    );
    assert_eq!(args.count(), 8);
    assert_eq!(args.seed_start(), 3);
    assert_eq!(args.nonce(), 9);

    assert_eq!(
        load_remote_args(&Vec::new(), spammer_config()).err().as_deref(),
        Some("missing validator host 'validator-a'")
    );
    let mut config = spammer_config();
    config.count = 0;
    assert_eq!(
        load_remote_args(&host_entries(), config).err().as_deref(),
        Some("count must be non-zero")
    );
    let mut config = spammer_config();
    config.validator_names.clear();
    assert_eq!(
        load_remote_args(&host_entries(), config).err().as_deref(),
        Some("at least one endpoint is required")
    );
}

#[test]
fn load_args_uses_validator_order_from_config() {
    let config = |tps: u32| RemoteSpamConfig {
        spammer: spammer_config(),
        tps,
    };
    let rated = load_args(&host_entries(), config(100)).expect("config should parse");

    assert_eq!(
        rated.args.endpoints(),
        &["http://203.0.113.1:8080", "http://203.0.113.2:8080"]
    );
    assert_eq!(rated.args.count(), 8);
    assert_eq!(rated.tps, 100);
    assert_eq!(rated.args.seed_start(), 3);
    assert_eq!(rated.args.nonce(), 9);

    assert_eq!(
        load_args(&host_entries(), config(0)).err().as_deref(),
        Some("tps must be non-zero")
    );
}

fn cli_settings() -> CliSettings {
    CliSettings {
        accounts: 10,
        value: 1,
        seed_offset: 1000,
        relayer_url: Some("http://127.0.0.1:8084".to_string()),
        relayer_submitters: 0,
        presigned_batches: 16,
        relayer_targets: vec!["aa".to_string()],
        rayon_threads: 2,
        private: false,
    }
}

fn file_settings() -> FileSettings {
    FileSettings {
        accounts: 20,
        value: 2,
        seed_offset: 2000,
        relayer_url: "http://relayer:8080".to_string(),
        relayer_submitters: 0,
        presigned_batches: 4,
        primary_validators: vec!["bb".to_string(), "cc".to_string()],
        rayon_threads: 3,
        private: true,
    }
}

#[test]
fn settings_prefer_the_file() {
    let hosts = vec![HostEntry {
        name: "relayer".to_string(),
        ip: "203.0.113.9".to_string(),
    }];
    let config = resolve_settings(
        cli_settings(),
        Some(file_settings()),
        &hosts,
        true,
        DEFAULT_ACCOUNT_BALANCE,
    )
    .unwrap_or_else(|error| panic!("{}", error.message()));
    assert_eq!(config.relayer_url, "http://203.0.113.9:8080");
    assert_eq!(config.relayer_submitters, 2);
    assert_eq!(config.relayer_targets, vec!["bb", "cc"]);
    assert_eq!(config.accounts_count, 20);

    let config = resolve_settings(cli_settings(), None, &hosts, true, DEFAULT_ACCOUNT_BALANCE)
        .unwrap_or_else(|error| panic!("{}", error.message()));
    assert_eq!(config.relayer_url, "http://127.0.0.1:8084");
    assert_eq!(config.relayer_submitters, 1);
    assert_eq!(config.relayer_targets, vec!["aa"]);
}

#[test]
fn broken_settings_are_rejected() {
    let resolve = |change: &dyn Fn(&mut CliSettings), jitter_in_range: bool| {
        let mut cli = cli_settings();
        change(&mut cli);
        resolve_settings(cli, None, &Vec::new(), jitter_in_range, DEFAULT_ACCOUNT_BALANCE).err()
    };
    assert_eq!(
        resolve(&|cli| cli.relayer_url = None, true),
        Some(SettingsError::NoRelayerUrl)
    );
    assert_eq!(
        resolve(&|_| {}, false),
        Some(SettingsError::JitterOutOfRange)
    );
    assert_eq!(
        resolve(&|cli| cli.presigned_batches = 0, true),
        Some(SettingsError::NoPresignedBatches)
    );
    assert_eq!(
        resolve(&|cli| cli.accounts = 1, true),
        Some(SettingsError::TooFewAccounts)
    );
    assert_eq!(
        resolve(&|cli| cli.value = 0, true),
        Some(SettingsError::NoValue)
    );
    assert_eq!(
        resolve(
            &|cli| {
                cli.private = true;
                cli.relayer_targets.clear();
            },
            true
        ),
        Some(SettingsError::PrivateWithoutTargets)
    );
    let above = resolve(&|cli| cli.value = 1_001, true)
        .unwrap_or_else(|| panic!("the value is above the balance"));
    assert_eq!(
        above.message(),
        "transfer value (1001) must be <= DEFAULT_ACCOUNT_BALANCE (1000)"
    );
    assert_eq!(
        resolve(&|cli| cli.rayon_threads = 0, true),
        Some(SettingsError::NoRayonThreads)
    );
}

#[test]
fn submitters_have_their_own_accounts() {
    let config = resolve_settings(
        cli_settings(),
        Some(file_settings()),
        &Vec::new(),
        true,
        DEFAULT_ACCOUNT_BALANCE,
    )
    .unwrap_or_else(|error| panic!("{}", error.message()));
    let plans = plan_submitters(&config);
    assert_eq!(plans.len(), 2);
    assert_eq!(plans[0].account_offset, 2000);
    assert_eq!(plans[1].account_offset, 2020);
    assert_eq!(plans[1].jitter_seed, 2021);
    assert_eq!(plans[1].target.as_deref(), Some("cc"));

    let mut monitor = RunMonitor::new(2);
    assert!(!monitor.on_done(true));
    assert!(monitor.on_done(true));
    assert!(RunMonitor::new(2).on_done(false));
    assert_eq!(exit_status(0), 0);
    assert_eq!(exit_status(3), 1);
}

#[test]
fn finished_freshness_checks_cover_every_account() {
    let mut check = FreshnessCheck::new(3).unwrap_or_else(|reason| panic!("{reason}"));
    assert_eq!(check.next_lookup(), Some(0));
    assert_eq!(check.next_lookup(), Some(1));
    assert!(check.is_running(1));
    assert!(!check.is_running(2));
    assert_eq!(check.on_lookup(1, &Ok(None), &defaults()), Ok(()));
    assert!(!check.is_running(1));
    assert_eq!(check.next_lookup(), Some(2));
    assert_eq!(check.next_lookup(), None);
    assert_eq!(check.on_lookup(0, &Ok(None), &defaults()), Ok(()));
    assert!(!check.is_done());
    assert_eq!(check.on_lookup(2, &Ok(None), &defaults()), Ok(()));
    assert!(check.is_done());
}

#[test]
fn only_an_ok_answer_is_healthy() {
    assert!(health_answered(200));
    assert!(!health_answered(204));
    assert!(!health_answered(503));
}

#[test]
fn metrics_ports_are_scraped_or_asked_for() {
    assert_eq!(metrics_port(Some(7), true, 9090), Some(7));
    assert_eq!(metrics_port(Some(7), false, 9090), Some(7));
    assert_eq!(metrics_port(None, true, 9090), Some(9090));
    assert_eq!(metrics_port(None, false, 9090), None);
}

#[test]
fn stale_batches_are_not_submitted() {
    let mut follower = BatchFollower::new();
    assert!(follower.admits(0));
    let resolved = follower.report(3, 0, 2, &SubmitOutcome::AllFinalized);
    assert!(matches!(resolved, Feedback::Resolved { seq: 3 }));
    assert!(follower.admits(0));
    let partial = SubmitOutcome::Partial([2, 0, 9].into_iter().collect());
    match follower.report(4, 0, 3, &partial) {
        Feedback::Failed { seq, landed } => {
            assert_eq!(seq, 4);
            assert_eq!(landed, vec![0, 2]);
        }
        Feedback::Resolved { .. } => panic!("the batch failed"),
    }
    assert!(!follower.admits(0));
    assert!(follower.admits(1));
    match follower.report(5, 1, 3, &SubmitOutcome::NoneFinalized) {
        Feedback::Failed { landed, .. } => assert!(landed.is_empty()),
        Feedback::Resolved { .. } => panic!("the batch failed"),
    }
    assert!(!follower.admits(1));
}

#[test]
fn large_balances_are_spent() {
    let presigner = Presigner::new(1, u64::MAX - 1, 1);
    assert_eq!(presigner.chains[0].public, u64::MAX - 1);
    let lane = Lane::new(1, u64::MAX - 2, 1, 1);
    assert_eq!(lane.states[0].public_balance, u64::MAX - 2);
}

#[test]
fn failures_take_operations_back_newest_first() {
    let mut presigner = Presigner::new(2, 100, 2);
    let funds = private_envelope(presigner.next_private(2));
    let transfers = private_envelope(presigner.next_private(2));
    let steps = |steps: Vec<constantinople::spammer::chains::PrivateStep>| {
        steps
            .into_iter()
            .map(|step| (step.account, step.nonce))
            .collect::<Vec<_>>()
    };
    assert_eq!(
        steps(presigner.rollback_steps(funds.seq)),
        vec![(1, 1), (0, 1), (1, 0), (0, 0)]
    );
    assert_eq!(
        steps(presigner.rollback_steps(transfers.seq)),
        vec![(1, 1), (0, 1)]
    );
    assert_eq!(steps(presigner.rollback_steps(9)).len(), 4);
    assert_eq!(
        steps(presigner.landed_steps(funds.seq, &vec![1, 7])),
        vec![(1, 0)]
    );
    assert!(presigner.landed_steps(9, &vec![0]).is_empty());

    presigner.apply_feedback(Feedback::Failed {
        seq: funds.seq,
        landed: Vec::new(),
    });
    let resigned = private_envelope(presigner.next_private(2));
    assert_eq!(funds.salt(), 0);
    assert_eq!(resigned.salt(), 1);
}

#[test]
fn failed_submissions_pause() {
    assert_eq!(submit_pause(&Err(SubmitError::Transport)), 100);
    assert_eq!(submit_pause(&Ok(RelayerBatchStatus::Dropped)), 0);
}

#[test]
fn every_source_pays_its_own_sink() {
    let mut lane = Lane::new(3, 10, 1, 3);
    let sinks: Vec<usize> = lane.fill_batch().iter().map(|planned| planned.sink()).collect();
    assert_eq!(sinks, vec![0, 1, 2]);
}
