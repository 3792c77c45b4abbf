use constantinople::relayer::status::BatchStatus;
use constantinople::relayer::targets::Leader;
use constantinople::validator::config::RelayerLeaderConfig;
use constantinople::validator::relayer::{
    account_key, account_status, admit_batch, batch_limit, best_effort_status, first_status,
    max_transaction_count, next_two_leaders, normalize_leaders, pinned_refusal, pinned_step,
    read_forward_answer, requested_leader_fanout, requested_target_leader, route_submission,
    summarize_forwards, tx_status_from_batch, view_advances, ForwardResult, IncludedSet, Observer,
    PinnedStep, RetryStep, RetryingBatch, SubmitRoute, TxStatus,
};

fn leader(key: &str) -> Leader {
    Leader {
        public_key: key.to_string(),
        sort_key: commonware_formatting::from_hex(key).expect("hex key"),
        url: format!("http://{key}"),
    }
}

fn keys(leaders: Vec<Leader>) -> Vec<String> {
    leaders.into_iter().map(|leader| leader.public_key).collect()
}

#[test]
fn targets_next_two_views() {
    let leaders = vec![leader("00"), leader("01"), leader("02"), leader("03")];

    let targets = keys(next_two_leaders(&leaders, 0));

    assert_eq!(targets, vec!["01", "02"]);
}

#[test]
fn targets_deduplicate_single_leader_network() {
    let leaders = vec![leader("00")];

    let targets = keys(next_two_leaders(&leaders, 12));

    assert_eq!(targets, vec!["00"]);
}

#[test]
fn retry_budget_returns_partial_status() {
    let digests = vec!["aa".to_string(), "bb".to_string()];
    let mut included = IncludedSet::new();
    included.insert("aa".to_string());

    let status = best_effort_status(&digests, &included, 7);

    assert_eq!(
        status,
        TxStatus::PartiallyFinalized {
            height: 7,
            included: vec!["aa".to_string()],
            filtered: vec!["bb".to_string()]
        }
    );
}

#[test]
fn best_effort_covers_all_and_nothing() {
    let digests = vec!["aa".to_string(), "bb".to_string()];
    let mut included = IncludedSet::new();
    assert_eq!(
        best_effort_status(&digests, &included, 7),
        TxStatus::Dropped
    );
    included.extend(&digests);
    assert_eq!(
        best_effort_status(&digests, &included, 7),
        TxStatus::Finalized { height: 7 }
    );
}

#[test]
fn views_only_advance() {
    let mut observer = Observer::new();
    assert!(observer.report(3));
    assert!(!observer.report(3));
    assert!(!observer.report(2));
    assert_eq!(observer.current_view, 3);
    assert!(view_advances(3, 4));
    assert!(!view_advances(3, 3));
}

#[test]
fn leaders_are_normalized() {
    let config = |key: &str, url: &str| RelayerLeaderConfig {
        public_key: key.to_string(),
        url: url.to_string(),
    };
    let leaders = normalize_leaders(&vec![
        config("BB", "http://b//"),
        config("0a", "http://a"),
    ])
    .unwrap_or_else(|key| panic!("{key} should be hex"));
    assert_eq!(leaders[0].public_key, "0a");
    assert_eq!(leaders[1].public_key, "bb");
    assert_eq!(leaders[1].url, "http://b");
    assert_eq!(leaders[1].sort_key, vec![0xbb]);
    assert!(normalize_leaders(&vec![config("zz", "http://z")]).is_err());

    let twins = normalize_leaders(&vec![
        config("0B", "http://first"),
        config("0a", "http://other"),
        config("0b", "http://second"),
        config("0b", "http://third"),
    ])
    .unwrap_or_else(|key| panic!("{key}"));
    let urls: Vec<&str> = twins.iter().map(|leader| leader.url.as_str()).collect();
    assert_eq!(
        urls,
        vec!["http://other", "http://first", "http://second", "http://third"]
    );
}

#[test]
fn headers_are_read() {
    assert_eq!(requested_target_leader(Some("AB")), Some("ab".to_string()));
    assert_eq!(requested_target_leader(None), None);
    assert_eq!(requested_leader_fanout(Some("12")), Some(12));
    assert_eq!(requested_leader_fanout(Some("+1")), Some(1));
    assert_eq!(requested_leader_fanout(Some("")), None);
    assert_eq!(requested_leader_fanout(Some("1x")), None);
    assert_eq!(
        requested_leader_fanout(Some("99999999999999999999999")),
        None
    );
}

#[test]
fn submissions_are_routed() {
    let leaders = vec![leader("00"), leader("ab")];
    assert!(matches!(
        route_submission(&leaders, None, Some("5"), 10, 100),
        SubmitRoute::Follow
    ));
    assert!(matches!(
        route_submission(&leaders, Some("AB"), Some("1"), 10, 100),
        SubmitRoute::Pinned(leader) if leader.public_key == "ab"
    ));
    assert!(matches!(
        route_submission(&leaders, Some("ab"), Some("2"), 10, 100),
        SubmitRoute::Refuse(400)
    ));
    assert!(matches!(
        route_submission(&leaders, Some("cd"), None, 10, 100),
        SubmitRoute::Refuse(400)
    ));
    assert!(matches!(
        route_submission(&leaders, Some("ab"), None, 10_000, 100),
        SubmitRoute::Refuse(413)
    ));
}

#[test]
fn batches_are_bounded() {
    assert_eq!(max_transaction_count(0, 100), None);
    assert_eq!(max_transaction_count(100, 100), None);
    assert_eq!(max_transaction_count(101, 100), Some(1));
    assert_eq!(batch_limit(301, 1000, 100), Ok(3));
    assert_eq!(batch_limit(50, 1000, 100), Err(400));
    assert_eq!(batch_limit(10_000, 1000, 100), Err(413));
    assert_eq!(admit_batch(None, 100), Err(400));
    assert_eq!(admit_batch(Some(&vec![50, 50]), 100), Ok(()));
    assert_eq!(admit_batch(Some(&vec![50, 51]), 100), Err(413));
}

#[test]
fn forward_answers_are_read() {
    assert_eq!(
        read_forward_answer(Some(202), Some(1)),
        ForwardResult::Accepted
    );
    assert_eq!(
        read_forward_answer(Some(202), Some(0)),
        ForwardResult::Transient
    );
    assert_eq!(
        read_forward_answer(Some(400), None),
        ForwardResult::Deterministic(400)
    );
    assert_eq!(read_forward_answer(Some(503), None), ForwardResult::Transient);
    assert_eq!(read_forward_answer(None, None), ForwardResult::Transient);

    let summary = summarize_forwards(&vec![
        ForwardResult::Accepted,
        ForwardResult::Deterministic(413),
        ForwardResult::Transient,
    ]);
    assert!(summary.accepted);
    assert_eq!(summary.deterministic, Some(413));
    assert_eq!(pinned_refusal(ForwardResult::Accepted), None);
    assert_eq!(pinned_refusal(ForwardResult::Transient), Some(503));
}

#[test]
fn pinned_submissions_wait_for_an_outcome() {
    let dropped = BatchStatus::Dropped { filtered: Vec::new() };
    assert!(matches!(
        pinned_step(Some(dropped), 0, 1),
        PinnedStep::Answer(TxStatus::Dropped)
    ));
    let waiting = BatchStatus::Accepted { digests: Vec::new() };
    assert!(matches!(
        pinned_step(Some(waiting.clone()), 0, 1),
        PinnedStep::Wait
    ));
    assert!(matches!(
        pinned_step(Some(waiting), 1, 1),
        PinnedStep::Refuse(503)
    ));
    assert!(matches!(pinned_step(None, 1, 1), PinnedStep::Refuse(503)));
    assert_eq!(
        tx_status_from_batch(BatchStatus::Finalized {
            height: 4,
            included: Vec::new(),
        }),
        Some(TxStatus::Finalized { height: 4 })
    );
}

#[test]
fn retried_batches_settle_digest_by_digest() {
    let leaders = vec![leader("00"), leader("01"), leader("02")];
    let digests = vec!["aa".to_string(), "bb".to_string()];
    let mut batch = RetryingBatch::new(digests, 0, 1);
    assert_eq!(
        keys(batch.plan_forward(&leaders, "id".to_string())),
        vec!["01", "02"]
    );
    assert_eq!(
        batch.on_forwarded(summarize_forwards(&vec![ForwardResult::Accepted])),
        None
    );
    batch.on_status(&BatchStatus::PartiallyFinalized {
        height: 5,
        included: vec!["aa".to_string()],
        filtered: vec!["bb".to_string()],
    });
    assert!(matches!(batch.settle(), RetryStep::Wait));
    assert!(!batch.is_pending(&"aa".to_string()));
    assert!(batch.is_pending(&"bb".to_string()));
    assert!(!batch.pending_positions().is_empty());
    for at in batch.pending_positions() {
        assert!(batch.is_pending(&batch.digests[at]));
    }
    assert!(!batch.on_wait(None));
    assert!(batch.on_wait(Some(1)));
    match batch.settle() {
        RetryStep::Answer(status) => assert_eq!(
            status,
            TxStatus::PartiallyFinalized {
                height: 5,
                included: vec!["aa".to_string()],
                filtered: vec!["bb".to_string()],
            }
        ),
        _ => panic!("the budget is spent"),
    }
    batch.on_status(&BatchStatus::Finalized {
        height: 6,
        included: vec!["bb".to_string()],
    });
    assert!(matches!(
        batch.settle(),
        RetryStep::Answer(TxStatus::Finalized { height: 6 })
    ));

    let mut refused = RetryingBatch::new(vec!["aa".to_string()], 0, 0);
    assert!(matches!(refused.settle(), RetryStep::Refuse(503)));
    assert_eq!(
        refused.on_forwarded(summarize_forwards(&vec![ForwardResult::Deterministic(400)])),
        Some(400)
    );
}

#[test]
fn account_requests_are_checked() {
    assert_eq!(account_key("0102", 2), Ok(vec![1, 2]));
    assert_eq!(account_key("0102", 3), Err(400));
    assert_eq!(account_key("zz", 1), Err(400));
    assert_eq!(account_status(false, true, true), 400);
    assert_eq!(account_status(true, false, true), 503);
    assert_eq!(account_status(true, true, false), 404);
    assert_eq!(account_status(true, true, true), 200);
}

#[test]
fn only_pending_transactions_are_sent_again() {
    let digests = vec!["aa".to_string(), "bb".to_string(), "cc".to_string()];
    let mut batch = RetryingBatch::new(digests, 1, 3);
    assert_eq!(batch.pending_positions(), vec![0, 1, 2]);
    batch.on_status(&BatchStatus::PartiallyFinalized {
        height: 4,
        included: vec!["bb".to_string()],
        filtered: Vec::new(),
    });
    assert!(matches!(batch.settle(), RetryStep::Wait));
    assert_eq!(batch.pending_positions(), vec![0, 2]);
}

#[test]
fn the_first_report_answers_a_status_request() {
    let report = |height: u64| {
        Some(BatchStatus::Finalized {
            height,
            included: Vec::new(),
        })
    };
    assert!(matches!(
        first_status(vec![None, report(7), report(9)]),
        (200, Some(BatchStatus::Finalized { height: 7, .. }))
    ));
    assert!(matches!(first_status(vec![None, None]), (404, None)));
    assert!(matches!(first_status(Vec::new()), (404, None)));
}
