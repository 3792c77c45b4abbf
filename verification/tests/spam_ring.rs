use constantinople::spammer::polling::PollError;
use constantinople::spammer::scheduler::{
    build_endpoint_states, Scheduler, SubmissionOutcome,
};
use constantinople::spammer::shared::{
    accept_tx_url, answer_error, receipt_hash, tx_status_url, tx_url, TransactionState,
    TransactionStatus,
};
use constantinople::spammer::spam::{
    build_ring_accounts, build_sender_states, classify_submission_error, format_sender_failure,
    next_retry_backoff, Args, SubmissionErrorKind, MAX_SUBMISSION_TASKS_PER_ENDPOINT,
};

fn is_retryable_submission_error(err: &str) -> bool {
    !matches!(classify_submission_error(err), SubmissionErrorKind::Fatal)
}

fn scheduler(count: usize, endpoints: &[&str]) -> Scheduler {
    let accounts = build_ring_accounts(count, 11, endpoints.len());
    let senders = build_sender_states(accounts, 7);
    build_endpoint_states(
        endpoints.iter().map(|endpoint| endpoint.to_string()).collect(),
        senders,
    )
}

fn outcome(sender_index: usize, result: Result<(), &str>) -> SubmissionOutcome {
    SubmissionOutcome {
        sender_index,
        tx_hash: format!("hash-{sender_index}"),
        nonce: 7,
        result: result.map_err(|err| err.to_string()),
    }
}

fn status(tx_hash: &str, state: TransactionState) -> TransactionStatus {
    TransactionStatus {
        tx_hash: tx_hash.to_string(),
        state,
        height: 1,
    }
}

#[test]
fn spam_ring_accounts_wrap_back_to_the_first_account() {
    let accounts = build_ring_accounts(3, 11, 2);

    assert_eq!(accounts.len(), 3);
    assert_eq!(accounts[0].to, accounts[1].from);
    assert_eq!(accounts[1].to, accounts[2].from);
    assert_eq!(accounts[2].to, accounts[0].from);
}

#[test]
fn ring_accounts_are_sharded_across_endpoints() {
    let accounts = build_ring_accounts(5, 11, 2);

    assert_eq!(accounts[0].endpoint_index, 0);
    assert_eq!(accounts[1].endpoint_index, 1);
    assert_eq!(accounts[2].endpoint_index, 0);
    assert_eq!(accounts[3].endpoint_index, 1);
    assert_eq!(accounts[4].endpoint_index, 0);
}

#[test]
fn retries_network_and_server_overload_errors() {
    assert!(is_retryable_submission_error("request failed: timed out"));
    assert!(is_retryable_submission_error("error (503): mempool full"));
    assert!(!is_retryable_submission_error(
        "error (400): bad transaction"
    ));
}

#[test]
fn mempool_full_backoff_has_minimum_floor() {
    assert_eq!(
        next_retry_backoff(100, "error (503): mempool full"),
        1_000
    );
}

#[test]
fn backoff_doubles_up_to_a_limit() {
    assert_eq!(next_retry_backoff(100, "request failed: x"), 200);
    assert_eq!(next_retry_backoff(3_000, "request failed: x"), 5_000);
    assert_eq!(next_retry_backoff(u64::MAX, "request failed: x"), 5_000);
    assert_eq!(next_retry_backoff(100, "error (503): busy"), 200);
}

#[test]
fn errors_are_classified() {
    assert_eq!(
        classify_submission_error("response body failed: x"),
        SubmissionErrorKind::RetryCheckStatus
    );
    assert_eq!(
        classify_submission_error("error (503): mempool full"),
        SubmissionErrorKind::RetryRejected
    );
    for code in ["408", "429", "500", "502", "503", "504"] {
        assert_eq!(
            classify_submission_error(&format!("error ({code}): busy")),
            SubmissionErrorKind::RetryCheckStatus
        );
    }
    assert_eq!(
        classify_submission_error("error (404): gone"),
        SubmissionErrorKind::Fatal
    );
}

#[test]
fn arguments_are_checked() {
    let endpoints = vec!["http://127.0.0.1:8080".to_string()];
    assert!(Args::new(1, endpoints.clone(), 0, 0).is_ok());
    assert_eq!(
        Args::new(0, endpoints, 0, 0).err().as_deref(),
        Some("count must be non-zero")
    );
    assert_eq!(
        Args::new(1, Vec::new(), 0, 0).err().as_deref(),
        Some("at least one endpoint is required")
    );
}

#[test]
fn urls_are_trimmed() {
    assert_eq!(tx_url("http://a//"), "http://a/tx");
    assert_eq!(accept_tx_url("http://a"), "http://a/tx/accept");
    assert_eq!(tx_status_url("http://a/"), "http://a/tx/status");
    assert_eq!(tx_url("/"), "/tx");
}

#[test]
fn answers_are_read() {
    assert_eq!(answer_error(200, "body"), None);
    assert_eq!(
        answer_error(503, "mempool full").as_deref(),
        Some("error (503): mempool full")
    );
    assert_eq!(receipt_hash("ab".to_string()), Ok("ab".to_string()));
    assert_eq!(
        receipt_hash(String::new()),
        Err("submission receipt omitted tx_hash".to_string())
    );
}

#[test]
fn submissions_are_bounded_per_endpoint() {
    let mut scheduler = scheduler(MAX_SUBMISSION_TASKS_PER_ENDPOINT * 4, &["http://a", "http://b"]);
    let started = scheduler.spawn_submissions();
    assert_eq!(started.len(), 2 * MAX_SUBMISSION_TASKS_PER_ENDPOINT);
    assert!(started.iter().all(|submission| submission.nonce == 7));
    assert!(scheduler.spawn_submissions().is_empty());
    assert!(scheduler
        .handle_submission_completion(outcome(0, Ok(())), 0)
        .is_ok());
    assert_eq!(scheduler.spawn_submissions().len(), 1);
}

#[test]
fn included_senders_move_on() {
    let mut scheduler = scheduler(2, &["http://a"]);
    assert_eq!(scheduler.spawn_submissions().len(), 2);
    for sender in 0..2 {
        assert!(scheduler
            .handle_submission_completion(outcome(sender, Ok(())), 0)
            .is_ok());
    }
    let requests = scheduler.plan_poll();
    assert_eq!(requests.len(), 1);
    assert_eq!(requests[0].senders, vec![0, 1]);
    assert_eq!(requests[0].tx_hashes, vec!["hash-0", "hash-1"]);
    let mut retries = Vec::new();
    scheduler
        .apply_statuses(
            0,
            &requests[0].senders,
            &vec![
                status("hash-0", TransactionState::Included),
                status("hash-1", TransactionState::Pending),
            ],
            &mut retries,
            0,
        )
        .unwrap_or_else(|error| panic!("{}", error.message(&[], &[])));
    assert!(retries.is_empty());
    let started = scheduler.spawn_submissions();
    assert_eq!(started.len(), 1);
    assert_eq!(started[0].sender_index, 0);
    assert_eq!(started[0].nonce, 8);
    assert_eq!(scheduler.endpoints[0].completed, 1);
    assert_eq!(scheduler.plan_poll()[0].senders, vec![1]);
}

#[test]
fn unknown_transactions_are_submitted_again() {
    let mut scheduler = scheduler(1, &["http://a"]);
    scheduler.spawn_submissions();
    assert!(scheduler
        .handle_submission_completion(outcome(0, Ok(())), 0)
        .is_ok());
    let mut retries = Vec::new();
    assert!(scheduler
        .apply_statuses(
            0,
            &vec![0],
            &vec![status("hash-0", TransactionState::Unknown)],
            &mut retries,
            1_000,
        )
        .is_ok());
    assert_eq!(retries, vec![(0, 1_100)]);
    scheduler.schedule_retries(&retries);
    scheduler.activate_ready_senders(1_099);
    assert!(scheduler.spawn_submissions().is_empty());
    scheduler.activate_ready_senders(1_100);
    assert_eq!(scheduler.spawn_submissions()[0].nonce, 7);
}

#[test]
fn overloaded_endpoints_are_retried_later() {
    let mut scheduler = scheduler(2, &["http://a"]);
    scheduler.spawn_submissions();
    assert!(scheduler
        .handle_submission_completion(outcome(0, Err("error (503): mempool full")), 50)
        .is_ok());
    assert!(scheduler
        .handle_submission_completion(outcome(1, Err("request failed: timed out")), 50)
        .is_ok());
    assert_eq!(scheduler.senders[0].retry_backoff_ms, 1_000);
    assert!(scheduler.senders[0].pending_tx_hash.is_none());
    assert_eq!(scheduler.senders[1].retry_backoff_ms, 200);
    assert_eq!(
        scheduler.senders[1].pending_tx_hash.as_deref(),
        Some("hash-1")
    );
    assert_eq!(scheduler.endpoints[0].delayed, vec![(1_050, 0), (250, 1)]);
    scheduler.activate_ready_senders(2_000);
    // The sender whose status is unknown waits for it.
    let started = scheduler.spawn_submissions();
    assert_eq!(started.len(), 1);
    assert_eq!(started[0].sender_index, 0);
    assert!(!scheduler.senders[1].queued_ready);
}

#[test]
fn fatal_errors_end_the_run() {
    let mut scheduler = scheduler(1, &["http://a"]);
    scheduler.spawn_submissions();
    let failure = scheduler
        .handle_submission_completion(outcome(0, Err("error (400): bad")), 0)
        .err()
        .unwrap_or_else(|| panic!("the error is fatal"));
    assert_eq!(
        format_sender_failure(&failure, &[0xaa], &[0xbb]),
        "http://a aa -> bb nonce=7: error (400): bad"
    );
    assert_eq!(scheduler.failed(), 1);
    assert_eq!(
        scheduler.summary_result(),
        Err("failed: 1".to_string())
    );
}

#[test]
fn broken_statuses_end_the_poll() {
    let mut scheduler = scheduler(1, &["http://a"]);
    scheduler.spawn_submissions();
    assert!(scheduler
        .handle_submission_completion(outcome(0, Ok(())), 0)
        .is_ok());
    let mut retries = Vec::new();
    let error = scheduler
        .apply_statuses(0, &vec![0], &Vec::new(), &mut retries, 0)
        .err()
        .unwrap_or_else(|| panic!("statuses are missing"));
    assert_eq!(
        error.message(&[], &[]),
        "http://a returned 0 statuses for 1 requested hashes"
    );
    let error = scheduler
        .apply_statuses(
            0,
            &vec![0],
            &vec![status("other", TransactionState::Included)],
            &mut retries,
            0,
        )
        .err()
        .unwrap_or_else(|| panic!("the hash does not match"));
    assert_eq!(
        error.message(&[], &[]),
        "http://a returned mismatched tx hash other for sender 0"
    );
    let error = scheduler
        .apply_statuses(
            0,
            &vec![0],
            &vec![status("hash-0", TransactionState::Rejected)],
            &mut retries,
            0,
        )
        .err()
        .unwrap_or_else(|| panic!("the transaction is rejected"));
    assert!(matches!(error, PollError::Rejected(_)));
    assert_eq!(
        error.message(&[1], &[2]),
        "http://a 01 -> 02 nonce=7: transaction rejected before inclusion"
    );
    assert_eq!(scheduler.endpoints[0].failed, 1);
}

#[test]
fn runs_are_described() {
    let one = scheduler(2, &["http://a/"]);
    assert_eq!(
        one.startup_lines(2),
        vec![
            "running ring spammer with 2 senders against http://a/tx. Press Ctrl-C to stop.",
            "endpoint[0] http://a/tx senders=2",
        ]
    );
    let two = scheduler(3, &["http://a", "http://b"]);
    assert_eq!(
        two.startup_lines(3),
        vec![
            "running ring spammer with 3 senders across 2 validators. Press Ctrl-C to stop.",
            "endpoint[0] http://a/tx senders=2",
            "endpoint[1] http://b/tx senders=1",
        ]
    );
    assert_eq!(
        two.summary_lines(),
        vec![
            "completed: 0",
            "failed: 0",
            "endpoint[0] http://a/tx senders=2 completed=0 failed=0",
            "endpoint[1] http://b/tx senders=1 completed=0 failed=0",
        ]
    );
    assert_eq!(two.summary_result(), Ok(()));
}

#[test]
fn polls_are_due_once_per_interval() {
    assert_eq!(constantinople::spammer::polling::poll_due(0, 0), Some(1_000));
    assert_eq!(constantinople::spammer::polling::poll_due(999, 1_000), None);
    assert_eq!(constantinople::spammer::polling::poll_due(1_500, 1_000), Some(2_500));
}
