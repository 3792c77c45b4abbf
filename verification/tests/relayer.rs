use commonware_codec::Encode;
use commonware_consensus::simplex::elector::{
    Config as ElectorConfig, Elector, RoundRobin, RoundRobinElector,
};
use commonware_consensus::simplex::scheme::ed25519 as consensus_ed25519;
use commonware_consensus::types::{Epoch, Round, View};
use commonware_cryptography::{ed25519, sha256, Signer};
use commonware_formatting::hex;
use constantinople::relayer::batches::{BatchRecord, TrackedBatches};
use constantinople::relayer::health::{HealthMap, LeaderHealth};
use constantinople::relayer::state::{
    build_state, default_ack_timeout_ms, default_max_batch_bytes, default_max_tracked_batches,
    default_round_poll_ms, LeaderConfig, RelayerConfig, StateError,
};
use constantinople::relayer::status::{
    merge_terminal_statuses, status_leaders, BatchStatus, StatusCollector,
};
use constantinople::relayer::submit::{
    account_route, batch_id, batch_status_url, begin_submission, consensus_round_url,
    forward_step, ingest_url, max_request_bytes, observe_late, observe_round, ready,
    status_answer, ForwardResult, ForwardStep, Submission, SubmitAnswer,
};
use constantinople::relayer::targets::{leader_by_id, leader_targets, Leader};

fn leader(key: &str) -> Leader {
    Leader {
        public_key: key.to_string(),
        sort_key: commonware_formatting::from_hex(key).expect("test key is hex"),
        url: format!("http://{key}"),
    }
}

fn keys(targets: Vec<Leader>) -> Vec<String> {
    targets.into_iter().map(|leader| leader.public_key).collect()
}

fn unhealthy(key: &str) -> HealthMap {
    let mut health = HealthMap::new();
    health.insert(
        key.to_string(),
        LeaderHealth {
            consecutive_failures: 3,
            healthy: false,
        },
    );
    health
}

fn relayer_config(keys: &[&str], fanout: Option<usize>) -> RelayerConfig {
    RelayerConfig {
        leader_fanout: fanout,
        ack_timeout_ms: default_ack_timeout_ms(),
        round_poll_ms: default_round_poll_ms(),
        max_batch_bytes: default_max_batch_bytes(),
        max_tracked_batches: default_max_tracked_batches(),
        leaders: keys
            .iter()
            .map(|key| LeaderConfig {
                public_key: key.to_string(),
                url: format!("http://{key}/"),
            })
            .collect(),
    }
}

#[test]
fn leader_targets_rotate_from_current_round_and_deduplicate() {
    let leaders = ["01", "02", "00"]
        .into_iter()
        .map(leader)
        .collect::<Vec<_>>();
    let mut sorted = leaders;
    sorted.sort_by(|left, right| left.sort_key.cmp(&right.sort_key));

    let targets = keys(leader_targets(&sorted, &HealthMap::new(), 3, 1));

    assert_eq!(targets, vec!["01", "02", "00"]);
}

#[test]
fn leader_targets_caps_fanout_at_unique_leaders() {
    let leaders = ["00", "01"].into_iter().map(leader).collect::<Vec<_>>();

    let targets = leader_targets(&leaders, &HealthMap::new(), 5, 0);

    assert_eq!(targets.len(), 2);
}

#[test]
fn default_fanout_includes_all_leaders() {
    let state = build_state(relayer_config(&["00", "01", "02", "03"], None))
        .unwrap_or_else(|_| panic!("state should be built"));

    let targets = leader_targets(&state.leaders, &HealthMap::new(), state.leader_fanout, 0);

    assert_eq!(targets.len(), 4);
    assert_eq!(keys(targets), vec!["00", "01", "02", "03"],);
}

#[test]
fn leader_targets_scan_past_unhealthy_leaders_for_partial_fanout() {
    let leaders = ["00", "01", "02", "03"]
        .into_iter()
        .map(leader)
        .collect::<Vec<_>>();

    let targets = keys(leader_targets(&leaders, &unhealthy("01"), 2, 1));

    assert_eq!(targets, vec!["02", "03"]);
}

#[test]
fn leader_targets_include_unhealthy_leaders_for_all_primary_fanout() {
    let leaders = ["00", "01", "02"]
        .into_iter()
        .map(leader)
        .collect::<Vec<_>>();

    let targets = keys(leader_targets(&leaders, &unhealthy("01"), 3, 1));

    assert_eq!(targets, vec!["01", "02", "00"]);
}

#[test]
fn leader_targets_match_commonware_round_robin_order() {
    let public_keys = [7, 3, 11, 5]
        .into_iter()
        .map(|seed| ed25519::PrivateKey::from_seed(seed).public_key())
        .collect::<Vec<_>>();
    let participants = commonware_utils::ordered::Set::from_iter_dedup(public_keys.clone());
    let elector: RoundRobinElector<consensus_ed25519::Scheme> =
        RoundRobin::<sha256::Sha256>::default().build(&participants);
    let mut leaders = public_keys
        .into_iter()
        .map(|key| leader(&hex(&key.encode())))
        .collect::<Vec<_>>();
    leaders.sort_by(|left, right| left.sort_key.cmp(&right.sort_key));

    for view in 0..12 {
        let round = Round::new(Epoch::new(0), View::new(view));
        let elected = elector.elect(round, None);
        let expected = hex(&participants
            .get(usize::from(elected))
            .expect("elected participant exists")
            .encode());
        let target = leader_targets(&leaders, &HealthMap::new(), 1, view)
            .pop()
            .expect("target exists");

        assert_eq!(target.public_key, expected);
    }
}

#[test]
fn status_targets_query_targeted_before_late_acknowledged_leaders() {
    let record = BatchRecord {
        targeted_leaders: vec!["00".to_string(), "01".to_string()],
        acknowledged_leaders: vec!["01".to_string(), "02".to_string()],
    };
    let leaders = status_leaders(&record);

    assert_eq!(leaders, vec!["00", "01", "02"]);
}

#[test]
fn status_merge_prefers_finalized_over_dropped() {
    let statuses = vec![
        BatchStatus::Dropped {
            filtered: vec!["aa".to_string()],
        },
        BatchStatus::Finalized {
            height: 9,
            included: vec!["aa".to_string()],
        },
    ];

    let status = merge_terminal_statuses(&statuses);

    assert_eq!(
        status,
        Some(BatchStatus::Finalized {
            height: 9,
            included: vec!["aa".to_string()],
        }),
    );
}

#[test]
fn status_merge_combines_partial_inclusion() {
    let statuses = vec![
        BatchStatus::PartiallyFinalized {
            height: 7,
            included: vec!["aa".to_string()],
            filtered: vec!["bb".to_string()],
        },
        BatchStatus::PartiallyFinalized {
            height: 8,
            included: vec!["bb".to_string()],
            filtered: vec!["aa".to_string()],
        },
    ];

    let status = merge_terminal_statuses(&statuses);

    assert_eq!(
        status,
        Some(BatchStatus::Finalized {
            height: 8,
            included: vec!["aa".to_string(), "bb".to_string()],
        }),
    );
}

#[test]
fn status_merge_of_nothing_is_nothing() {
    assert_eq!(merge_terminal_statuses(&Vec::new()), None);
    assert_eq!(
        merge_terminal_statuses(&vec![BatchStatus::Dropped {
            filtered: vec!["aa".to_string()],
        }]),
        Some(BatchStatus::Dropped {
            filtered: vec!["aa".to_string()],
        }),
    );
}

#[test]
fn collector_keeps_waiting_while_any_leader_waits() {
    let mut collector = StatusCollector::new();
    assert_eq!(
        collector.observe(BatchStatus::Dropped {
            filtered: vec!["aa".to_string()],
        }),
        None
    );
    assert_eq!(
        collector.observe(BatchStatus::Accepted {
            digests: vec!["aa".to_string()],
        }),
        None
    );
    assert_eq!(
        collector.finish(),
        Some(BatchStatus::Accepted {
            digests: vec!["aa".to_string()],
        }),
    );

    let mut collector = StatusCollector::new();
    let finalized = BatchStatus::Finalized {
        height: 3,
        included: vec!["aa".to_string()],
    };
    assert_eq!(collector.observe(finalized.clone()), Some(finalized));
    assert_eq!(StatusCollector::new().finish(), None);
}

#[test]
fn health_recovers_with_one_success() {
    let mut health = LeaderHealth::new();
    health.record_failure();
    health.record_failure();
    assert!(health.healthy);
    health.record_failure();
    assert!(!health.healthy);
    assert_eq!(health.consecutive_failures, 3);
    health.record_success();
    assert_eq!(health, LeaderHealth::new());

    let mut known = HealthMap::new();
    known.record_failure("00");
    assert_eq!(known.get("00").map(|h| h.consecutive_failures), Some(1));
    known.record_success("00");
    assert_eq!(known.get("00").map(|h| h.consecutive_failures), Some(0));
    assert!(known.get("01").is_none());
}

#[test]
fn only_the_oldest_batch_is_forgotten() {
    let record = |leader: &str| BatchRecord {
        acknowledged_leaders: vec![leader.to_string()],
        targeted_leaders: vec![leader.to_string()],
    };
    let mut batches = TrackedBatches::new(2);
    batches.remember("a".to_string(), record("00"));
    batches.remember("b".to_string(), record("00"));
    batches.remember("c".to_string(), record("00"));
    assert!(batches.get("a").is_none());
    assert!(batches.get("b").is_some());
    assert!(batches.get("c").is_some());
    assert!(batches.acknowledge("b", "01".to_string()));
    assert!(batches.acknowledge("b", "01".to_string()));
    assert_eq!(
        batches.get("b").map(|r| r.acknowledged_leaders.clone()),
        Some(vec!["00".to_string(), "01".to_string()])
    );
    assert!(!batches.acknowledge("a", "01".to_string()));

    // One record always fits.
    let mut batches = TrackedBatches::new(0);
    batches.remember("a".to_string(), record("00"));
    assert!(batches.get("a").is_some());
}

#[test]
fn state_is_sorted_and_checked() {
    let state = build_state(relayer_config(&["02", "00", "01"], Some(0)))
        .unwrap_or_else(|_| panic!("state should be built"));
    assert_eq!(state.leader_fanout, 1);
    assert_eq!(state.leaders[0].public_key, "00");
    assert_eq!(state.leaders[0].url, "http://00");
    assert_eq!(state.leaders[2].public_key, "02");
    assert!(state.leader_health.get("00").is_some());
    assert!(state.leader_health.get("03").is_none());

    assert!(matches!(
        build_state(relayer_config(&["00", "zz"], None)),
        Err(StateError::NotHex { public_key }) if public_key == "zz"
    ));
    assert!(matches!(
        build_state(relayer_config(&["00", "01", "00"], None)),
        Err(StateError::Duplicate { public_key }) if public_key == "00"
    ));
    assert!(matches!(
        build_state(relayer_config(&["03", "03", "01", "02", "01"], None)),
        Err(StateError::Duplicate { public_key }) if public_key == "01"
    ));
    // Both texts stand for one key; the second in order is named.
    assert!(matches!(
        build_state(relayer_config(&["0X01", "01"], None)),
        Err(StateError::Duplicate { public_key }) if public_key == "0x01"
    ));
    assert!(matches!(
        build_state(relayer_config(&["0x01", "01"], None)),
        Err(StateError::Duplicate { public_key }) if public_key == "0x01"
    ));
}

#[test]
fn batches_are_named_by_their_digest() {
    assert_eq!(
        batch_id(b"abc"),
        "ba7816bf8f01cfea414140de5dae2223b00361a396177a9cb410ff61f20015ad"
    );
    assert_ne!(batch_id(b"abc"), batch_id(b"abd"));
}

#[test]
fn submissions_are_bounded() {
    let leaders = vec![leader("00")];
    let health = HealthMap::new();
    let limit = max_request_bytes(100);
    assert!(limit > 100);
    assert_eq!(max_request_bytes(usize::MAX), usize::MAX);
    assert!(begin_submission(limit, 100, &leaders, &health, 1, 0).is_ok());
    assert_eq!(
        begin_submission(limit + 1, 100, &leaders, &health, 1, 0).err(),
        Some(413)
    );
    assert_eq!(
        begin_submission(1, 100, &Vec::new(), &health, 1, 0).err(),
        Some(503)
    );
}

#[test]
fn forwarding_backs_off_and_gives_up() {
    assert!(matches!(
        forward_step(0, None, None),
        ForwardStep::Retry { wait_ms: 50 }
    ));
    assert!(matches!(
        forward_step(1, Some(503), None),
        ForwardStep::Retry { wait_ms: 100 }
    ));
    assert!(matches!(
        forward_step(2, Some(202), None),
        ForwardStep::GiveUp { wait_ms: 200 }
    ));
    assert!(matches!(
        forward_step(0, Some(413), None),
        ForwardStep::Deterministic(413)
    ));
    assert!(matches!(
        forward_step(0, Some(202), Some(vec!["aa".to_string()])),
        ForwardStep::Accepted { .. }
    ));
}

#[test]
fn submissions_wait_for_the_first_acknowledgement() {
    let mut health = HealthMap::new();
    let mut submission = Submission::new();
    assert!(!submission.observe(
        ForwardResult::Transient {
            leader: "00".to_string()
        },
        &mut health
    ));
    assert!(!submission.observe(ForwardResult::Deterministic(400), &mut health));
    assert!(submission.observe(
        ForwardResult::Accepted {
            leader: "01".to_string(),
            digests: vec!["aa".to_string()],
        },
        &mut health
    ));
    assert_eq!(health.get("00").map(|h| h.consecutive_failures), Some(1));
    match submission.finish("id".to_string(), vec!["00".to_string(), "01".to_string()]) {
        SubmitAnswer::Accepted { response, record } => {
            assert_eq!(response.batch_id, "id");
            assert_eq!(response.digests, vec!["aa"]);
            assert_eq!(response.acknowledged_leaders, vec!["01"]);
            assert_eq!(record.targeted_leaders, vec!["00", "01"]);
        }
        SubmitAnswer::Failed { .. } => panic!("a leader acknowledged the batch"),
    }

    let mut refused = Submission::new();
    refused.observe(ForwardResult::Deterministic(400), &mut health);
    assert!(matches!(
        refused.finish("id".to_string(), Vec::new()),
        SubmitAnswer::Failed { status: 400, transient_failures: 0 }
    ));
    assert!(matches!(
        Submission::new().finish("id".to_string(), Vec::new()),
        SubmitAnswer::Failed { status: 503, transient_failures: 0 }
    ));
}

#[test]
fn late_results_are_remembered() {
    let mut health = HealthMap::new();
    let mut batches = TrackedBatches::new(4);
    batches.remember(
        "id".to_string(),
        BatchRecord {
            acknowledged_leaders: vec!["00".to_string()],
            targeted_leaders: vec!["00".to_string(), "01".to_string()],
        },
    );
    assert!(observe_late(
        ForwardResult::Accepted {
            leader: "01".to_string(),
            digests: Vec::new(),
        },
        "id",
        &mut health,
        &mut batches
    ));
    assert_eq!(
        batches.get("id").map(|r| r.acknowledged_leaders.clone()),
        Some(vec!["00".to_string(), "01".to_string()])
    );
    assert!(!observe_late(
        ForwardResult::Accepted {
            leader: "01".to_string(),
            digests: Vec::new(),
        },
        "other",
        &mut health,
        &mut batches
    ));
}

#[test]
fn routes_follow_leaders() {
    let leaders = vec![leader("00"), leader("01")];
    assert_eq!(ready(&leaders), 200);
    assert_eq!(ready(&Vec::new()), 503);
    assert_eq!(
        account_route(&leaders, "ab").ok().as_deref(),
        Some("http://00/account/ab")
    );
    assert_eq!(account_route(&leaders, "zz").err(), Some(400));
    assert_eq!(account_route(&Vec::new(), "ab").err(), Some(503));
    assert_eq!(ingest_url(&leaders[1]), "http://01/transactions/ingest");
    assert_eq!(batch_status_url(&leaders[1], "id"), "http://01/transactions/id");
    assert_eq!(consensus_round_url(&leaders[1]), "http://01/consensus/round");
    assert_eq!(
        leader_by_id(&leaders, &"01".to_string()).map(|l| l.url.clone()),
        Some("http://01".to_string())
    );
    assert!(leader_by_id(&leaders, &"02".to_string()).is_none());
}

#[test]
fn status_requests_need_a_known_batch() {
    assert_eq!(status_answer(false, None), (404, None));
    assert_eq!(status_answer(true, None), (503, None));
    let dropped = BatchStatus::Dropped { filtered: Vec::new() };
    assert_eq!(
        status_answer(true, Some(dropped.clone())),
        (200, Some(dropped))
    );
}

#[test]
fn rounds_only_go_up() {
    assert_eq!(observe_round(3, 5), 5);
    assert_eq!(observe_round(5, 3), 5);
}
