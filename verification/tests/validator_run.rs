use constantinople::deploy::material::generate_local_cluster_material;
use constantinople::deploy::plan::{default_max_pool_bytes, default_max_propose_bytes};
use constantinople::rate::SamplingRate;
use constantinople::validator::config::{
    default_max_shard_bytes, default_network_buffer_pool_max_bytes, HostEntry, IndexerConfig,
    PeerEntry, PeersFile, RelayerConfig, StartupModeConfig, ValidatorConfig,
};
use constantinople::validator::run::{
    buffer_pool_configs, default_mempool_drop_grace_blocks, exit_message, production_sync_config,
    run_deployer, run_local, startup_label, CriticalTask, HttpRole, NodeError, P2pProfile,
    SimplexObserver,
};
use constantinople::validator::setup::{
    setup, setup_command, GenesisAllocation, SetupArgs, SetupError,
};
use constantinople::validator::tx_gen::{generate_transactions, TransactionGenerator};
use constantinople::validator::upload::{
    maybe_build_indexer, recover_cursor, recovered_finalized_upload_cursor,
    scan_finalized_queue_cursor, AckPhase, BuildOutcome, FinalizedUploadCursor,
    FinalizedUploadProducer, ProducerStep, UploadConsumer,
};

fn cursor(state_next: u64, transaction_next: u64) -> FinalizedUploadCursor {
    FinalizedUploadCursor {
        state_next,
        transaction_next,
    }
}

#[test]
fn mempool_drop_grace_defaults_to_twice_validator_count() {
    assert_eq!(default_mempool_drop_grace_blocks(1), 2);
    assert_eq!(default_mempool_drop_grace_blocks(4), 8);
    assert_eq!(default_mempool_drop_grace_blocks(50), 100);
}

#[test]
fn finalized_upload_cursor_keeps_furthest_recovery_position() {
    let older = FinalizedUploadCursor {
        state_next: 10,
        transaction_next: 20,
    };
    let newer_state = FinalizedUploadCursor {
        state_next: 11,
        transaction_next: 1,
    };
    let newer_transaction = FinalizedUploadCursor {
        state_next: 10,
        transaction_next: 21,
    };

    assert_eq!(older.max(newer_state), newer_state);
    assert_eq!(older.max(newer_transaction), newer_transaction);
    assert_eq!(newer_state.max(older), newer_state);
    assert_eq!(newer_transaction.max(older), newer_transaction);
}

#[test]
fn recovered_finalized_upload_cursor_uses_furthest_whole_frontier() {
    let metadata = FinalizedUploadCursor {
        state_next: 10,
        transaction_next: 20,
    };
    let queue = FinalizedUploadCursor {
        state_next: 11,
        transaction_next: 1,
    };

    assert_eq!(
        recovered_finalized_upload_cursor(None, None),
        Default::default()
    );
    assert_eq!(
        recovered_finalized_upload_cursor(Some(metadata), None),
        metadata
    );
    assert_eq!(recovered_finalized_upload_cursor(None, Some(queue)), queue);
    assert_eq!(
        recovered_finalized_upload_cursor(Some(metadata), Some(queue)),
        queue
    );
    assert_eq!(
        recovered_finalized_upload_cursor(Some(queue), Some(metadata)),
        queue
    );
}

#[test]
fn finalized_upload_cursor_ignores_partial_metadata_pairs() {
    assert_eq!(FinalizedUploadCursor::from_parts(None, None), None);
    assert_eq!(FinalizedUploadCursor::from_parts(Some(10), None), None);
    assert_eq!(FinalizedUploadCursor::from_parts(None, Some(20)), None);
    assert_eq!(
        FinalizedUploadCursor::from_parts(Some(10), Some(20)),
        Some(FinalizedUploadCursor {
            state_next: 10,
            transaction_next: 20,
        }),
    );
}

#[test]
fn recovery_stores_only_what_changed() {
    assert_eq!(recover_cursor(None, None), (cursor(0, 0), true));
    assert_eq!(
        recover_cursor(Some(cursor(5, 1)), Some(cursor(4, 9))),
        (cursor(5, 1), false)
    );
    assert_eq!(
        recover_cursor(Some(cursor(5, 1)), Some(cursor(6, 0))),
        (cursor(6, 0), true)
    );
    assert_eq!(scan_finalized_queue_cursor(&Vec::new()), None);
    assert_eq!(
        scan_finalized_queue_cursor(&vec![cursor(1, 1), cursor(2, 2)]),
        Some(cursor(2, 2))
    );
}

#[test]
fn finalized_queue_scan_recovers_last_cursor() {
    let first = FinalizedUploadCursor::from_upload(2, 2);
    let second = FinalizedUploadCursor::from_upload(5, 3);
    assert_eq!(scan_finalized_queue_cursor(&vec![first, second]), Some(second));
}

#[test]
fn producer_moves_only_with_queued_uploads() {
    let mut producer = FinalizedUploadProducer { cursor: cursor(0, 0) };
    assert_eq!(
        producer.after_build(BuildOutcome::StoreEmptyPastGenesis),
        ProducerStep::AskRemote
    );
    assert!(!producer.after_remote(0, 0));
    assert_eq!(producer.cursor, cursor(0, 0));
    assert!(producer.after_remote(7, 3));
    assert_eq!(producer.cursor, cursor(7, 3));
    assert_eq!(
        producer.after_build(BuildOutcome::StoreEmptyPastGenesis),
        ProducerStep::RetryLater
    );
    assert_eq!(
        producer.after_build(BuildOutcome::Failed),
        ProducerStep::RetryLater
    );
    assert_eq!(
        producer.after_build(BuildOutcome::Built(cursor(8, 4))),
        ProducerStep::Enqueue(cursor(8, 4))
    );
    assert!(!producer.after_enqueue(cursor(8, 4), false));
    assert_eq!(producer.cursor, cursor(7, 3));
    assert!(producer.after_enqueue(cursor(8, 4), true));
    assert_eq!(producer.cursor, cursor(8, 4));
}

#[test]
fn consumer_is_bounded_and_never_stalls() {
    let mut consumer = UploadConsumer::new(0);
    assert!(consumer.may_receive());
    consumer.on_started();
    assert!(!consumer.wants_more());
    assert!(!consumer.may_receive());
    assert!(consumer.may_join());
    consumer.on_closed();
    assert!(!consumer.is_done());
    consumer.on_completed();
    assert!(consumer.is_done());
}

#[test]
fn acknowledgements_are_made_durable() {
    let phase = AckPhase::Acknowledge;
    assert_eq!(phase.after_attempt(false), AckPhase::Acknowledge);
    let phase = phase.after_attempt(true);
    assert_eq!(phase, AckPhase::Sync);
    assert_eq!(phase.after_attempt(false), AckPhase::Sync);
    assert_eq!(phase.after_attempt(true), AckPhase::Settled);
}

#[test]
fn only_opted_in_secondaries_index() {
    let indexer = || {
        Some(IndexerConfig {
            chain_indexer_url: "http://store:1".to_string(),
            upload_buffer: 500,
        })
    };
    assert!(maybe_build_indexer(true, indexer(), "node").is_none());
    assert!(maybe_build_indexer(false, None, "node").is_none());
    let plan = maybe_build_indexer(false, indexer(), "node").expect("secondary indexes");
    assert_eq!(plan.queue_partition, "node-finalized-index-queue");
    assert_eq!(plan.cursor_partition, "node-finalized-index-cursor");
    assert_eq!(plan.max_active_uploads, 64);
    assert_eq!(plan.upload_buffer, 500);
}

#[test]
fn buffer_pools_need_threads() {
    let pools = buffer_pool_configs(2, 512).unwrap_or_else(|_| panic!("pools are sized"));
    assert_eq!(pools.network_parallelism, 2);
    assert_eq!(pools.network_max_size, 1_048_576);
    assert_eq!(pools.network_max_per_class, 8_192);
    assert_eq!(pools.storage_parallelism, 514);
    assert_eq!(pools.storage_max_per_class, 1_024);
    assert!(matches!(
        buffer_pool_configs(0, 512),
        Err(NodeError::NoWorkerThreads)
    ));
    assert!(matches!(
        buffer_pool_configs(2, usize::MAX),
        Err(NodeError::StorageParallelismOverflow)
    ));
}

fn primary() -> (PeersFile, Vec<HostEntry>, ValidatorConfig) {
    let cluster =
        generate_local_cluster_material(2, 0).unwrap_or_else(|_| panic!("material is dealt"));
    let names = cluster.primary_hex();
    let share = cluster.share_for(&cluster.public_keys[0]).expect("share");
    let peers = PeersFile {
        validators: names
            .iter()
            .map(|name| PeerEntry {
                name: name.clone(),
                p2p: "127.0.0.1:9000".to_string(),
                http: "127.0.0.1:8080".to_string(),
            })
            .collect(),
        secondaries: Vec::new(),
    };
    let hosts = names
        .iter()
        .map(|name| HostEntry {
            name: name.clone(),
            ip: "203.0.113.1".to_string(),
        })
        .collect();
    let config = ValidatorConfig {
        private_key: commonware_formatting::hex(&cluster.signers[0]),
        dkg_output: commonware_formatting::hex(&cluster.dealing.output),
        dkg_share: commonware_formatting::hex(share),
        startup: StartupModeConfig::MarshalSync,
        listen_port: 9000,
        genesis_leader: names[0].clone(),
        partition_prefix: "validator-0".to_string(),
        num_validators: 2,
        primary_validators: names,
        secondary_validators: Vec::new(),
        log_level: "info".to_string(),
        worker_threads: 2,
        rayon_threads: 2,
        http_port: 8080,
        metrics_port: 9090,
        max_propose_bytes: default_max_propose_bytes(),
        max_pool_bytes: default_max_pool_bytes(),
        network_buffer_pool_max_bytes: default_network_buffer_pool_max_bytes()
            .max(default_max_propose_bytes()),
        max_shard_bytes: default_max_shard_bytes().max(default_max_propose_bytes()),
        mempool_drop_grace_blocks: None,
        traces: SamplingRate { bits: 0 },
        otel_endpoint: None,
        bootstrappers: Vec::new(),
        indexer: None,
        relayer: None,
    };
    (peers, hosts, config)
}

#[test]
fn primaries_serve_their_mempool() {
    let (peers, hosts, config) = primary();
    let plan = run_local(peers, &Vec::new(), config.clone(), "/etc/node", 512)
        .unwrap_or_else(|_| panic!("the node starts"));
    assert!(plan.is_primary);
    assert!(plan.reports_to_mempool);
    assert!(matches!(plan.http, HttpRole::Mempool));
    assert_eq!(plan.storage_dir, "/etc/node/validator-0");
    assert_eq!(plan.decoded.primary_participants.len(), 2);
    assert_eq!(plan.decoded.listen_bind, "0.0.0.0:9000");
    assert_eq!(plan.http_listen, "0.0.0.0:8080");
    assert_eq!(plan.metrics_listen, "0.0.0.0:9090");
    assert_eq!(plan.rayon_threads, 2);
    assert!(!plan.json_logs);
    assert_eq!(plan.p2p, P2pProfile::Local);
    assert_eq!(plan.drop_grace_blocks, 4);
    assert_eq!(plan.observer, None);
    assert!(plan.indexer.is_none());
    assert_eq!(plan.name, config.primary_validators[0]);

    let mut config = config;
    config.mempool_drop_grace_blocks = Some(9);
    config.partition_prefix = "/var/node".to_string();
    let plan = run_deployer(&hosts, "10.0.0.2", config, "/etc/node", 512)
        .unwrap_or_else(|_| panic!("the node starts"));
    assert_eq!(plan.p2p, P2pProfile::Recommended);
    assert_eq!(plan.drop_grace_blocks, 9);
    assert_eq!(plan.storage_dir, "/var/node");
}

#[test]
fn secondaries_relay_or_index() {
    let (peers, _, mut config) = primary();
    config.dkg_share = String::new();
    let plan = run_local(peers.clone(), &Vec::new(), config.clone(), "etc", 512)
        .unwrap_or_else(|_| panic!("the node starts"));
    assert!(!plan.is_primary);
    assert!(matches!(plan.http, HttpRole::Idle));

    let mut indexing = config.clone();
    indexing.indexer = Some(IndexerConfig {
        chain_indexer_url: "http://store:1".to_string(),
        upload_buffer: 4,
    });
    let plan = run_local(peers.clone(), &Vec::new(), indexing, "etc", 512)
        .unwrap_or_else(|_| panic!("the node starts"));
    assert_eq!(plan.observer, Some(SimplexObserver::Indexer));
    assert!(plan.indexer.is_some());

    config.relayer = Some(RelayerConfig {
        leaders: Vec::new(),
        max_retry_views: 3,
    });
    let plan =
        run_local(peers, &Vec::new(), config, "etc", 512).unwrap_or_else(|_| panic!("the node starts"));
    assert_eq!(plan.observer, Some(SimplexObserver::Relayer));
    assert!(matches!(plan.http, HttpRole::Relayer(relayer) if relayer.max_retry_views == 3));
}

#[test]
fn nodes_that_cannot_start_are_rejected() {
    let (peers, _, config) = primary();
    let start = |change: &dyn Fn(&mut ValidatorConfig)| {
        let mut config = config.clone();
        change(&mut config);
        run_local(peers.clone(), &Vec::new(), config, "etc", 512).err()
    };
    assert!(matches!(
        start(&|config| config.worker_threads = 0),
        Some(NodeError::NoWorkerThreads)
    ));
    assert!(matches!(
        start(&|config| config.rayon_threads = 0),
        Some(NodeError::NoRayonThreads)
    ));
    assert!(matches!(
        start(&|config| {
            let again = config.primary_validators[1].clone();
            config.primary_validators.push(again);
        }),
        Some(NodeError::DuplicatePrimary)
    ));
    assert!(matches!(
        start(&|config| {
            let listed = config.primary_validators[1].clone();
            config.secondary_validators = vec![listed.clone(), listed];
        }),
        Some(NodeError::DuplicateSecondary)
    ));
    assert!(matches!(
        start(&|config| config.private_key = "zz".to_string()),
        Some(NodeError::Config(_))
    ));
}

#[test]
fn modes_and_exits_are_named() {
    assert_eq!(startup_label(StartupModeConfig::MarshalSync), "marshal_sync");
    assert_eq!(startup_label(StartupModeConfig::StateSync), "state_sync");
    assert_eq!(exit_message(CriticalTask::Engine), "engine exited");
    assert_eq!(production_sync_config().max_outstanding_requests, 8);
    assert_eq!(production_sync_config().apply_batch_size, 1024);
}

#[test]
fn generations_follow_each_other() {
    let transfers = generate_transactions(3, 7);
    assert_eq!(transfers.len(), 3);
    assert_eq!((transfers[0].from, transfers[0].to), (0, 1));
    assert_eq!((transfers[2].from, transfers[2].to), (2, 0));
    assert_eq!(transfers[1].nonce, 7);
    assert_eq!(transfers[1].value, 1);

    let mut generator = TransactionGenerator::new(2);
    assert!(generator.next_batch().is_empty());
    assert_eq!(generator.next_batch()[0].nonce, 0);
    assert_eq!(generator.next_batch()[1].nonce, 1);
}

fn setup_args(validators: u32) -> SetupArgs {
    SetupArgs {
        validators,
        base_port: 9000,
        base_http_port: 8080,
        log_level: "info".to_string(),
        worker_threads: 2,
        genesis_allocations: vec![GenesisAllocation {
            address: "aa".to_string(),
            balance: 5,
        }],
    }
}

#[test]
fn networks_are_set_up() {
    let material =
        generate_local_cluster_material(3, 0).unwrap_or_else(|_| panic!("material is dealt"));
    let files = setup(&setup_args(3), "out", &material)
        .unwrap_or_else(|error| panic!("the network is set up: {error:?}"));
    assert_eq!(files.len(), 3);
    assert_eq!(files[1].path, "out/validator-1.toml");
    let config = &files[1].config;
    assert_eq!(config.listen, "127.0.0.1:9001");
    assert_eq!(config.http_port, 8081);
    assert_eq!(config.max_propose_bytes, 4 * 1024 * 1024);
    assert_eq!(config.max_pool_bytes, 64 * 1024 * 1024);
    assert_eq!(config.genesis_allocations[0].balance, 5);
    let addresses: Vec<&str> = config
        .bootstrappers
        .iter()
        .map(|entry| entry.address.as_str())
        .collect();
    assert_eq!(addresses, vec!["127.0.0.1:9000", "127.0.0.1:9002"]);
    assert_eq!(
        setup_command("out", 2),
        "mprocs \"cargo run --bin constantinople -- run --config out/validator-0.toml\" \
         \"cargo run --bin constantinople -- run --config out/validator-1.toml\""
    );
}

#[test]
fn broken_setups_are_rejected() {
    let mut material =
        generate_local_cluster_material(2, 0).unwrap_or_else(|_| panic!("material is dealt"));
    assert_eq!(
        setup(&setup_args(0), "out", &material).err(),
        Some(SetupError::NoValidators)
    );
    let mut args = setup_args(2);
    args.base_port = u16::MAX;
    assert_eq!(
        setup(&args, "out", &material).err(),
        Some(SetupError::PortOverflow)
    );
    material.dealing.shares.clear();
    assert_eq!(
        setup(&setup_args(2), "out", &material).err(),
        Some(SetupError::MissingShare)
    );
}
