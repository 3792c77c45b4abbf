use constantinople::deploy::local::{
    build_secondaries, build_validators, generate, join_path, local_otel_endpoint, local_run_commands,
    mprocs_command, relayer_http_port, GenerateArgs, LocalArgs, LocalError,
};
use constantinople::deploy::material::{
    generate_local_cluster_material, simplex_verification_material_from_config, ClusterMaterial,
};
use constantinople::deploy::plan::{
    default_max_pool_bytes, default_max_propose_bytes, default_max_shard_bytes, list_roles,
    SpammerProofMode, SpammerWorkload, DEFAULT_SPAMMER_PRESIGNED_BATCHES,
    DEFAULT_SPAMMER_RAYON_THREADS,
};
use constantinople::rate::SamplingRate;
use constantinople::validator::config::{
    default_network_buffer_pool_max_bytes, default_relayer_retry_views, load_local_config,
    NodeAddress, StartupModeConfig,
};

const TEST_SIMPLEX_VERIFICATION_MATERIAL: &str = "abcdef";

fn test_args(spammer: bool) -> GenerateArgs {
    GenerateArgs {
        validators: 2,
        indexer: false,
        relayer: false,
        relayer_max_retry_views: default_relayer_retry_views(),
        log_level: "info".to_string(),
        worker_threads: 2,
        rayon_threads: 2,
        max_propose_bytes: default_max_propose_bytes(),
        max_pool_bytes: default_max_pool_bytes(),
        network_buffer_pool_max_bytes: default_network_buffer_pool_max_bytes(),
        max_shard_bytes: default_max_shard_bytes(),
        mempool_drop_grace_blocks: None,
        startup: StartupModeConfig::MarshalSync,
        spammer,
        spammer_accounts: 10,
        spammer_value: 1,
        spammer_seed_offset: 1000,
        spammer_worker_threads: 2,
        spammer_rayon_threads: DEFAULT_SPAMMER_RAYON_THREADS,
        spammer_accounts_jitter: 0.0f64.to_string(),
        spammer_presigned_batches: DEFAULT_SPAMMER_PRESIGNED_BATCHES,
        spammer_workload: SpammerWorkload::Public,
        spammer_private_groups: 1,
        spammer_private_proof_mode: SpammerProofMode::Real,
    }
}

fn test_local_args() -> LocalArgs {
    LocalArgs {
        base_port: 9000,
        base_http_port: 8080,
        base_metrics_port: 9090,
        chain_indexer_port: 8090,
        metadata_indexer_port: 8091,
        qmdb_indexer_port: 8092,
        traces: SamplingRate { bits: 0.0f64.to_bits() },
        otel_endpoint: "http://127.0.0.1:4318/v1/traces".to_string(),
    }
}

fn material_for(args: &GenerateArgs) -> ClusterMaterial {
    let secondaries = list_roles(args.indexer, args.relayer).len() as u32;
    generate_local_cluster_material(args.validators, secondaries)
        .unwrap_or_else(|_| panic!("material should be dealt"))
}

fn commands_for(args: &GenerateArgs, local: &LocalArgs, targets: &[&str]) -> Vec<String> {
    let targets: Vec<String> = targets.iter().map(|target| target.to_string()).collect();
    local_run_commands(
        "/tmp/configs",
        args,
        local,
        &targets,
        TEST_SIMPLEX_VERIFICATION_MATERIAL,
    )
}

fn set_local_ports(local: &mut LocalArgs, chain: u16, metadata: u16, qmdb: u16) {
    local.chain_indexer_port = chain;
    local.metadata_indexer_port = metadata;
    local.qmdb_indexer_port = qmdb;
}

#[test]
fn local_run_commands_only_start_validators() {
    let args = test_args(false);
    let commands = commands_for(&args, &test_local_args(), &[]);

    assert_eq!(commands.len(), 2);
    assert!(commands.iter().all(|command| !command.contains("spammer")));
}

#[test]
fn local_validator_configs_include_otel_when_traces_enabled() {
    let args = test_args(false);
    let mut local = test_local_args();
    local.traces = SamplingRate { bits: 0.5f64.to_bits() };
    local.otel_endpoint = "http://127.0.0.1:4318/v1/traces".to_string();
    let material = material_for(&args);

    let validators = build_validators(&args, &local, "/tmp", &material)
        .unwrap_or_else(|error| panic!("validators should be built: {error:?}"));

    assert_eq!(f64::from_bits(validators[0].config.traces.bits), 0.5);
    assert_eq!(
        validators[0].config.otel_endpoint.as_deref(),
        Some("http://127.0.0.1:4318/v1/traces")
    );
}

#[test]
fn local_run_commands_include_spammer_when_enabled() {
    let mut args = test_args(true);
    args.relayer = true;
    let commands = commands_for(&args, &test_local_args(), &[]);

    assert_eq!(commands.len(), 4);
    assert!(commands[2].contains("secondary-0.yaml"));
    assert!(commands[3].contains("constantinople-spammer"));
    assert!(commands[3].contains("--relayer-url http://127.0.0.1:8082"));
    assert!(commands[3].contains("--relayer-submitters 2"));
    assert!(commands[3].contains("--accounts 10"));
    assert!(commands[3].contains("--value 1"));
    assert!(commands[3].contains("--seed-offset 1000"));
    assert!(commands[3].contains("--worker-threads 2"));
    assert!(commands[3].contains("--rayon-threads 2"));
    assert!(commands[3].contains("--accounts-jitter 0"));
    assert!(commands[3].contains("--workload public"));
}

#[test]
fn local_run_commands_include_relayer() {
    let mut args = test_args(false);
    args.relayer = true;
    let commands = commands_for(&args, &test_local_args(), &[]);

    assert_eq!(commands.len(), 3);
    assert!(commands[2].contains("constantinople"));
    assert!(commands[2].contains("secondary-0.yaml"));
}

#[test]
fn local_spammer_uses_relayer() {
    let mut args = test_args(true);
    args.relayer = true;
    let commands = commands_for(&args, &test_local_args(), &["aa", "bb"]);

    assert_eq!(commands.len(), 4);
    assert!(commands[2].contains("secondary-0.yaml"));
    assert!(commands[3].contains("constantinople-spammer"));
    assert!(commands[3].contains("--relayer-url http://127.0.0.1:8082"));
    assert!(commands[3].contains("--relayer-submitters 2"));
    assert!(commands[3].contains("--relayer-targets aa,bb"));
    assert!(commands[3].contains("--presigned-batches 16"));
    assert!(!commands[3].contains("--peers"));
}

#[test]
fn local_run_commands_propagate_accounts_jitter_to_spammer() {
    let mut args = test_args(true);
    args.relayer = true;
    args.spammer_accounts_jitter = 0.25f64.to_string();
    let commands = commands_for(&args, &test_local_args(), &[]);

    assert!(commands[3].contains("--accounts-jitter 0.25"));
}

#[test]
fn local_run_commands_propagate_private_workload_to_spammer() {
    let mut args = test_args(true);
    args.relayer = true;
    args.spammer_workload = SpammerWorkload::Private;
    let commands = commands_for(&args, &test_local_args(), &[]);

    assert!(commands[3].contains("--workload private"));
}

#[test]
fn local_run_commands_propagate_private_groups_to_spammer() {
    let mut args = test_args(true);
    args.relayer = true;
    args.spammer_private_groups = 4;
    let commands = commands_for(&args, &test_local_args(), &[]);

    assert!(commands[3].contains("--private-groups 4"));
}

#[test]
fn local_run_commands_propagate_presigned_batches_to_spammer() {
    let mut args = test_args(true);
    args.relayer = true;
    args.spammer_presigned_batches = 32;
    let commands = commands_for(&args, &test_local_args(), &[]);

    assert!(commands[3].contains("--presigned-batches 32"));
}

#[test]
fn local_run_commands_propagate_rayon_threads_to_spammer() {
    let mut args = test_args(true);
    args.relayer = true;
    args.spammer_rayon_threads = 6;
    let commands = commands_for(&args, &test_local_args(), &[]);

    assert!(commands[3].contains("--rayon-threads 6"));
}

#[test]
fn local_run_commands_propagate_worker_threads_to_spammer() {
    let mut args = test_args(true);
    args.relayer = true;
    args.spammer_worker_threads = 6;
    let commands = commands_for(&args, &test_local_args(), &[]);

    assert!(commands[3].contains("--worker-threads 6"));
}

#[test]
fn local_run_commands_include_indexer_and_relayer_stack() {
    let mut args = test_args(false);
    args.indexer = true;
    args.relayer = true;
    let commands = commands_for(&args, &test_local_args(), &[]);

    assert_eq!(commands.len(), 8);
    assert!(commands[2].contains("secondary-0.yaml"));
    assert!(commands[3].contains("secondary-1.yaml"));
}

#[test]
fn local_run_commands_do_not_sleep() {
    let mut args = test_args(true);
    args.relayer = true;
    let commands = commands_for(&args, &test_local_args(), &[]);

    assert!(
        commands.iter().all(|command| !command.contains("sleep ")),
        "local commands should start directly: {commands:?}"
    );
}

#[test]
fn local_run_commands_include_indexer_stack() {
    let mut args = test_args(false);
    args.indexer = true;
    args.relayer = true;
    let mut local = test_local_args();
    set_local_ports(&mut local, 8090, 8091, 8092);
    let commands = commands_for(&args, &local, &[]);

    // 2 validators + 1 indexer secondary + 1 relayer secondary + store/sql/qmdb + explorer.
    assert_eq!(commands.len(), 8);
    let indexer_cmd = commands
        .iter()
        .find(|c| c.contains("--bin chain-indexer"))
        .expect("chain-indexer command should be present");
    assert!(indexer_cmd.contains("--port 8090"));
    assert!(indexer_cmd.contains("--data-dir /tmp/configs/chain-indexer"));
}

#[test]
fn local_run_commands_include_metadata_indexer_when_indexer_enabled() {
    let mut args = test_args(false);
    args.indexer = true;
    let mut local = test_local_args();
    set_local_ports(&mut local, 8090, 8091, 8092);
    let commands = commands_for(&args, &local, &[]);

    let metadata_cmd = commands
        .iter()
        .find(|c| c.contains("--bin metadata-indexer"))
        .expect("metadata-indexer command should be present");
    // The metadata service reads from the store and serves on its own port.
    assert!(metadata_cmd.contains("--store-url http://127.0.0.1:8090"));
    assert!(metadata_cmd.contains("--port 8091"));
}

#[test]
fn local_run_commands_include_qmdb_indexer_when_indexer_enabled() {
    let mut args = test_args(false);
    args.indexer = true;
    let mut local = test_local_args();
    set_local_ports(&mut local, 8090, 8091, 8092);
    let commands = commands_for(&args, &local, &[]);

    let qmdb_cmd = commands
        .iter()
        .find(|c| c.contains("--bin qmdb-indexer"))
        .expect("qmdb-indexer command should be present");
    assert!(qmdb_cmd.contains("--store-url http://127.0.0.1:8090"));
    assert!(qmdb_cmd.contains("--port 8092"));
}

#[test]
fn local_run_commands_include_explorer_when_indexer_enabled() {
    let mut args = test_args(false);
    args.indexer = true;
    let mut local = test_local_args();
    set_local_ports(&mut local, 18_090, 18_091, 18_092);
    let commands = commands_for(&args, &local, &[]);

    let explorer_cmd = commands
        .iter()
        .find(|c| c.contains("npm --prefix explorer"))
        .expect("explorer dev server command should be present");
    assert!(explorer_cmd.contains("VITE_SQL_URL=http://127.0.0.1:18091"));
    assert!(explorer_cmd.contains("VITE_QMDB_URL=http://127.0.0.1:18092"));
    assert!(explorer_cmd.contains("VITE_STORE_URL=http://127.0.0.1:18090"));
    assert!(explorer_cmd.contains("VITE_SIMPLEX_VERIFICATION_MATERIAL=abcdef"));
    assert!(!explorer_cmd.contains("VITE_INDEXER_URL"));
    assert!(explorer_cmd.contains("run dev"));
}

#[test]
fn local_run_commands_omit_explorer_without_indexer() {
    let args = test_args(false);
    let commands = commands_for(&args, &test_local_args(), &[]);

    assert!(
        commands
            .iter()
            .all(|c| !c.contains("npm --prefix explorer")),
        "explorer must only launch when indexer is enabled: {commands:?}"
    );
}

#[test]
fn secondary_yaml_gets_full_indexer() {
    let mut args = test_args(false);
    args.indexer = true;
    args.relayer = true;
    let mut local = test_local_args();
    set_local_ports(&mut local, 8090, 8091, 8092);

    let material = material_for(&args);
    let validators = build_validators(&args, &local, "/tmp/configs", &material)
        .unwrap_or_else(|error| panic!("validators should be built: {error:?}"));
    let secondaries = build_secondaries(&args, &local, "/tmp/configs", &material)
        .unwrap_or_else(|error| panic!("secondaries should be built: {error:?}"));

    // Primaries never get indexer wiring.
    assert!(validators.iter().all(|v| v.config.indexer.is_none()));

    // Secondaries point at the configured shared store URL.
    let indexer = secondaries[0]
        .config
        .indexer
        .as_ref()
        .expect("secondary should have indexer config");
    assert_eq!(indexer.upload_buffer, 64);
    let expected_url = "http://127.0.0.1:8090".to_string();
    assert_eq!(indexer.chain_indexer_url, expected_url);
    assert!(
        secondaries[1].config.indexer.is_none(),
        "relayer secondary should not have indexer config"
    );
    assert!(
        secondaries[1].config.relayer.is_some(),
        "last secondary should run relayer"
    );
}

#[test]
fn validators_only_has_no_indexer_configs() {
    let args = test_args(false);
    let material = material_for(&args);
    let validators = build_validators(&args, &test_local_args(), "/tmp/configs", &material)
        .unwrap_or_else(|error| panic!("validators should be built: {error:?}"));

    assert!(validators.iter().all(|v| v.config.indexer.is_none()));
}

#[test]
fn startup_mode_defaults_to_marshal_sync() {
    assert_eq!(StartupModeConfig::default(), StartupModeConfig::MarshalSync);
}

#[test]
fn ports_out_of_range_are_rejected() {
    let mut args = test_args(false);
    args.indexer = true;
    args.relayer = true;
    let material = material_for(&args);

    let mut local = test_local_args();
    local.base_port = u16::MAX;
    assert!(matches!(
        build_validators(&args, &local, "out", &material),
        Err(LocalError::ListenPortOverflow)
    ));

    let mut local = test_local_args();
    local.base_http_port = u16::MAX;
    assert!(matches!(
        build_validators(&args, &local, "out", &material),
        Err(LocalError::HttpPortOverflow)
    ));

    let mut local = test_local_args();
    local.base_metrics_port = u16::MAX;
    assert!(matches!(
        build_validators(&args, &local, "out", &material),
        Err(LocalError::MetricsPortOverflow)
    ));

    let mut local = test_local_args();
    local.base_port = u16::MAX - 1;
    assert!(matches!(
        build_secondaries(&args, &local, "out", &material),
        Err(LocalError::SecondaryListenPortOverflow)
    ));

    let mut local = test_local_args();
    local.base_http_port = u16::MAX - 1;
    assert!(matches!(
        build_secondaries(&args, &local, "out", &material),
        Err(LocalError::SecondaryHttpPortOverflow)
    ));

    let mut local = test_local_args();
    local.base_metrics_port = u16::MAX - 1;
    assert!(matches!(
        build_secondaries(&args, &local, "out", &material),
        Err(LocalError::SecondaryMetricsPortOverflow)
    ));
}

#[test]
fn validators_without_shares_are_rejected() {
    let args = test_args(false);
    let mut material = material_for(&args);
    material.dealing.shares.clear();

    assert!(matches!(
        build_validators(&args, &test_local_args(), "out", &material),
        Err(LocalError::MissingShare)
    ));
}

#[test]
fn otel_is_off_without_sampling() {
    let mut local = test_local_args();
    assert!(local_otel_endpoint(&local).is_none());
    local.traces = SamplingRate { bits: 1.0f64.to_bits() };
    assert_eq!(
        local_otel_endpoint(&local).as_deref(),
        Some("http://127.0.0.1:4318/v1/traces")
    );
    local.traces = SamplingRate { bits: (-0.5f64).to_bits() };
    assert!(local_otel_endpoint(&local).is_none());
    local.traces = SamplingRate { bits: f64::NAN.to_bits() };
    assert!(local_otel_endpoint(&local).is_none());
}

#[test]
fn relayer_port_follows_the_indexer() {
    let mut args = test_args(false);
    let local = test_local_args();
    assert_eq!(relayer_http_port(&args, &local), None);
    args.relayer = true;
    assert_eq!(relayer_http_port(&args, &local), Some(8082));
    args.indexer = true;
    assert_eq!(relayer_http_port(&args, &local), Some(8083));
}

#[test]
fn process_manager_quotes_every_command() {
    let commands = vec!["run a".to_string(), "run b".to_string()];
    assert_eq!(mprocs_command(&commands), "mprocs \"run a\" \"run b\"");
}

#[test]
fn generated_nodes_can_be_loaded() {
    let mut args = test_args(false);
    args.validators = 4;
    args.indexer = true;
    args.relayer = true;
    args.max_shard_bytes = args.max_propose_bytes;
    args.network_buffer_pool_max_bytes = args.max_propose_bytes;
    let local = test_local_args();
    let material = material_for(&args);
    let bundle = generate(&args, &local, "/tmp/configs", &material)
        .unwrap_or_else(|error| panic!("deployment should be generated: {error:?}"));

    assert_eq!(bundle.validators.len(), 4);
    assert_eq!(bundle.secondaries.len(), 2);
    assert_eq!(bundle.peers.validators.len(), 4);
    assert_eq!(bundle.peers.secondaries.len(), 2);
    assert_eq!(
        bundle.verification_material,
        material.simplex_verification_material_hex()
    );
    assert_eq!(bundle.validators[1].config_file, "/tmp/configs/validator-1.yaml");

    for node in bundle.validators.iter().chain(bundle.secondaries.iter()) {
        let loaded = load_local_config(bundle.peers.clone(), &Vec::new(), node.config.clone())
            .unwrap_or_else(|error| panic!("{}", error.message("local")));
        assert_eq!(loaded.decoded.primary_participants.len(), 4);
        assert_eq!(loaded.decoded.secondary_participants.len(), 2);
        assert!(!loaded.deployer_managed);
        assert_eq!(
            simplex_verification_material_from_config(
                &node.config.dkg_output,
                node.config.num_validators
            )
            .ok(),
            Some(bundle.verification_material.clone())
        );
        for bootstrapper in &loaded.decoded.bootstrappers {
            assert!(matches!(bootstrapper.1, NodeAddress::Socket(_)));
        }
    }
}

#[test]
fn generated_nodes_share_no_port() {
    let mut args = test_args(false);
    args.indexer = true;
    args.relayer = true;
    let bundle = generate(&args, &test_local_args(), "out", &material_for(&args))
        .unwrap_or_else(|error| panic!("deployment should be generated: {error:?}"));
    let ports: Vec<(u16, u16, u16)> = bundle
        .validators
        .iter()
        .chain(bundle.secondaries.iter())
        .map(|node| {
            let config = &node.config;
            (config.listen_port, config.http_port, config.metrics_port)
        })
        .collect();

    assert_eq!(
        ports,
        vec![
            (9000, 8080, 9090),
            (9001, 8081, 9091),
            (9002, 8082, 9092),
            (9003, 8083, 9093),
        ]
    );
}

#[test]
fn absolute_names_replace_the_directory() {
    assert_eq!(join_path("a", "b"), "a/b");
    assert_eq!(join_path("a/", "b"), "a/b");
    assert_eq!(join_path("", "b"), "b");
    assert_eq!(join_path("a", ""), "a/");
    assert_eq!(join_path("a", "/b"), "/b");
}
