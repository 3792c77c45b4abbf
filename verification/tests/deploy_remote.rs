use constantinople::deploy::material::{generate_local_cluster_material, ClusterMaterial};
use constantinople::deploy::plan::{default_max_pool_bytes, default_max_propose_bytes};
use constantinople::deploy::remote::{
    build_deployer_config, build_secondaries, build_validators, chain_indexer_config, generate,
    generate_deployer_tag, metadata_indexer_config, port_configs, remote_relayer_config,
    remote_spammer_config, validate_remote_args, DeployerConfig, GenerateArgs, GeneratedValidator,
    IndexerMode, RemoteArgs, RemoteError, ValidatorConfig,
};
use constantinople::validator::config::StartupModeConfig;

const STORAGE_CLASS: &str = "gp3";
const VALIDATOR_BINARY_FILE: &str = "validator";
const SPAMMER_BINARY_FILE: &str = "spammer";
const RELAYER_BINARY_FILE: &str = "relayer";
const RELAYER_HOST: &str = "relayer";
const CHAIN_INDEXER_BINARY_FILE: &str = "chain-indexer";
const METADATA_INDEXER_BINARY_FILE: &str = "metadata-indexer";
const METRICS_PORT: u16 = 9090;

fn generate_args() -> GenerateArgs {
    GenerateArgs {
        validators: 3,
        secondaries: 0,
        log_level: "info".to_string(),
        worker_threads: 2,
        rayon_threads: 2,
        startup: StartupModeConfig::MarshalSync,
        spammer: false,
        relayer: false,
        spammer_accounts: 10,
        spammer_value: 1,
        spammer_seed_offset: 1000,
        spammer_accounts_jitter: 0.0f64.to_string(),
    }
}

fn remote_args() -> RemoteArgs {
    RemoteArgs {
        regions: vec!["us-east-1".to_string(), "us-west-2".to_string()],
        instance_type: "c8g.large".to_string(),
        storage_size: 25,
        monitoring_instance_type: "c8g.2xlarge".to_string(),
        monitoring_storage_size: 100,
        listen_port: 9000,
        http_port: 8080,
        http_cidrs: vec!["198.51.100.4/32".to_string()],
        indexer: false,
        indexer_metadata_only: false,
        chain_indexer_port: 8090,
        metadata_indexer_port: 8091,
        profiling: true,
        spammer_instance_type: None,
        spammer_storage_size: 25,
    }
}

fn validator_config(index: u32) -> ValidatorConfig {
    ValidatorConfig {
        private_key: "private".to_string(),
        dkg_output: "output".to_string(),
        dkg_share: "share".to_string(),
        startup: StartupModeConfig::MarshalSync,
        listen_port: 9000,
        genesis_leader: "leader".to_string(),
        partition_prefix: format!("validator-{index}"),
        num_validators: 3,
        primary_validators: Vec::new(),
        secondary_validators: Vec::new(),
        log_level: "info".to_string(),
        worker_threads: 2,
        rayon_threads: 2,
        http_port: 8080,
        metrics_port: 9090,
        max_propose_bytes: default_max_propose_bytes(),
        max_pool_bytes: default_max_pool_bytes(),
        bootstrappers: Vec::new(),
        indexer: None,
    }
}

fn validator(index: u32) -> GeneratedValidator {
    GeneratedValidator {
        public_key_hex: format!("validator-{index}"),
        config_name: format!("validator-{index}.yaml"),
        config_file: format!("/tmp/validator-{index}.yaml"),
        config: validator_config(index),
    }
}

fn secondary(index: u32) -> GeneratedValidator {
    GeneratedValidator {
        public_key_hex: format!("secondary-{index}"),
        config_name: format!("secondary-{index}.yaml"),
        config_file: format!("/tmp/secondary-{index}.yaml"),
        config: validator_config(0),
    }
}

fn deployer_config(
    args: &GenerateArgs,
    remote: &RemoteArgs,
    secondaries: &Vec<GeneratedValidator>,
) -> DeployerConfig {
    let validators = vec![validator(0), validator(1), validator(2)];
    build_deployer_config(
        args,
        remote,
        VALIDATOR_BINARY_FILE,
        "dashboard.json",
        generate_deployer_tag(1_700_000_000_000, 42),
        &validators,
        secondaries,
    )
}

fn material_for(args: &GenerateArgs) -> ClusterMaterial {
    generate_local_cluster_material(args.validators, args.secondaries)
        .unwrap_or_else(|_| panic!("material should be dealt"))
}

#[test]
fn remote_deployer_config_only_includes_validators() {
    let args = generate_args();
    let remote = remote_args();
    let config = deployer_config(&args, &remote, &Vec::new());

    assert!(!config.tag.is_empty());
    assert_eq!(config.instances.len(), args.validators as usize);
    assert_eq!(config.instances[0].region, "us-east-1");
    assert_eq!(config.instances[1].region, "us-west-2");
    assert_eq!(config.instances[2].region, "us-east-1");
    assert_eq!(config.instances[0].storage_class, STORAGE_CLASS);
    assert_eq!(config.instances[0].binary, VALIDATOR_BINARY_FILE);
    assert_eq!(config.instances[0].config, "validator-0.yaml");
    assert_eq!(config.monitoring.dashboard, "dashboard.json");
    assert_eq!(config.ports[0].port, 9000);
    assert_eq!(config.ports[1].port, 8080);
    assert_eq!(config.ports[1].cidr, "198.51.100.4/32");
}

#[test]
fn remote_deployer_config_includes_optional_relayer_when_enabled() {
    let mut args = generate_args();
    args.relayer = true;
    let remote = remote_args();
    let config = deployer_config(&args, &remote, &Vec::new());

    assert_eq!(config.instances.len(), args.validators as usize + 1);
    let relayer = config
        .instances
        .iter()
        .find(|instance| instance.name == RELAYER_HOST)
        .expect("relayer instance should be present");
    assert_eq!(relayer.binary, RELAYER_BINARY_FILE);
    assert_eq!(relayer.config, "relayer.yaml");
}

#[test]
fn remote_deployer_config_spammer_does_not_imply_relayer() {
    let mut args = generate_args();
    args.spammer = true;
    let remote = remote_args();
    let config = deployer_config(&args, &remote, &Vec::new());

    assert_eq!(config.instances.len(), args.validators as usize + 1);
    assert!(config
        .instances
        .iter()
        .any(|instance| instance.binary == SPAMMER_BINARY_FILE),);
    assert!(config
        .instances
        .iter()
        .all(|instance| instance.name != RELAYER_HOST),);
}

#[test]
fn remote_spammer_config_only_uses_relayer_when_enabled() {
    let mut args = generate_args();
    args.spammer = true;
    let remote = remote_args();
    let material = material_for(&args);

    let direct = remote_spammer_config(&args, &remote, &material);
    args.relayer = true;
    let relayed = remote_spammer_config(&args, &remote, &material);

    assert_eq!(direct.relayer_url, None);
    assert_eq!(direct.relayer_submitters, 0);
    assert_eq!(relayed.relayer_url, Some("http://relayer:8080".to_string()));
    assert_eq!(relayed.relayer_submitters, args.validators as usize);
}

#[test]
fn remote_deployer_config_includes_secondaries() {
    let mut args = generate_args();
    args.secondaries = 2;
    let remote = remote_args();
    let config = deployer_config(&args, &remote, &vec![secondary(0), secondary(1)]);

    // 3 primaries + 2 secondaries, no spammer.
    assert_eq!(config.instances.len(), 5);
    assert_eq!(config.instances[3].name, "secondary-0");
    assert_eq!(config.instances[3].binary, VALIDATOR_BINARY_FILE);
    assert_eq!(config.instances[3].config, "secondary-0.yaml");
    assert_eq!(config.instances[4].name, "secondary-1");
}

#[test]
fn remote_ports_only_open_http_for_explicit_cidrs() {
    let mut remote = remote_args();
    remote.http_cidrs.clear();

    let ports = port_configs(&remote);

    assert_eq!(ports.len(), 1);
    assert_eq!(ports[0].port, 9000);
}

#[test]
fn remote_secondaries_get_shared_chain_indexer_wiring() {
    let mut args = generate_args();
    args.secondaries = 1;
    let mut remote = remote_args();
    remote.indexer = true;
    let material = material_for(&args);

    let secondaries = build_secondaries(&args, &remote, "/tmp/configs", &material, METRICS_PORT);

    let indexer = secondaries[0]
        .config
        .indexer
        .as_ref()
        .expect("secondary should have indexer wiring");
    assert_eq!(indexer.mode, IndexerMode::Full);
    assert_eq!(indexer.chain_indexer_url, "http://chain-indexer:8090");
}

#[test]
fn remote_secondaries_support_metadata_only_mode() {
    let mut args = generate_args();
    args.secondaries = 1;
    let mut remote = remote_args();
    remote.indexer_metadata_only = true;
    let material = material_for(&args);

    let secondaries = build_secondaries(&args, &remote, "/tmp/configs", &material, METRICS_PORT);

    let indexer = secondaries[0]
        .config
        .indexer
        .as_ref()
        .expect("secondary should have indexer wiring");
    assert_eq!(indexer.mode, IndexerMode::MetadataOnly);
}

#[test]
fn remote_deployer_config_includes_shared_indexer_services() {
    let mut args = generate_args();
    args.secondaries = 1;
    let mut remote = remote_args();
    remote.indexer = true;
    let config = deployer_config(&args, &remote, &vec![secondary(0)]);

    assert_eq!(config.instances.len(), 6);
    assert_eq!(config.instances[4].name, "chain-indexer");
    assert_eq!(config.instances[4].binary, CHAIN_INDEXER_BINARY_FILE);
    assert_eq!(config.instances[5].name, "metadata-indexer");
    assert_eq!(config.instances[5].binary, METADATA_INDEXER_BINARY_FILE);
    assert!(config.ports.iter().any(|port| port.port == 8090));
    assert!(config.ports.iter().any(|port| port.port == 8091));
}

#[test]
fn remote_options_are_validated() {
    let mut args = generate_args();
    args.validators = 0;
    assert_eq!(
        validate_remote_args(&args, &remote_args()),
        Err(RemoteError::NoValidators)
    );

    let args = generate_args();
    let mut remote = remote_args();
    remote.regions.clear();
    assert_eq!(
        validate_remote_args(&args, &remote),
        Err(RemoteError::NoRegions)
    );

    let mut args = generate_args();
    args.validators = 1;
    assert_eq!(
        validate_remote_args(&args, &remote_args()),
        Err(RemoteError::TooManyRegions)
    );

    let args = generate_args();
    let mut remote = remote_args();
    remote.indexer = true;
    assert_eq!(
        validate_remote_args(&args, &remote),
        Err(RemoteError::IndexerNeedsSecondary)
    );

    assert_eq!(validate_remote_args(&args, &remote_args()), Ok(()));
}

#[test]
fn tags_name_time_and_process() {
    assert_eq!(generate_deployer_tag(255, 16), "ff-10");
}

#[test]
fn relayer_knows_every_primary() {
    let args = generate_args();
    let remote = remote_args();
    let material = material_for(&args);
    let relayer = remote_relayer_config(&remote, &material);

    assert_eq!(relayer.listen, "0.0.0.0:8080");
    assert_eq!(relayer.leader_fanout, None);
    assert_eq!(relayer.leaders.len(), 3);
    let name = &material.primary_hex()[1];
    assert_eq!(&relayer.leaders[1].public_key, name);
    assert_eq!(relayer.leaders[1].url, format!("http://{name}:8080"));
}

#[test]
fn shared_services_follow_the_indexer() {
    let mut remote = remote_args();
    assert!(chain_indexer_config(&remote).is_none());
    assert!(metadata_indexer_config(&remote).is_none());
    remote.indexer = true;
    let store = chain_indexer_config(&remote).expect("store is configured");
    assert_eq!(store.port, 8090);
    let metadata = metadata_indexer_config(&remote).expect("metadata service is configured");
    assert_eq!(metadata.chain_indexer_url, "http://chain-indexer:8090");
}

#[test]
fn whole_remote_deployments_are_generated() {
    let mut args = generate_args();
    args.secondaries = 1;
    args.relayer = true;
    args.spammer = true;
    let mut remote = remote_args();
    remote.indexer = true;
    let material = material_for(&args);
    let bundle = generate(
        &args,
        &remote,
        "out",
        &material,
        METRICS_PORT,
        generate_deployer_tag(255, 16),
    )
    .unwrap_or_else(|error| panic!("deployment should be generated: {error:?}"));

    assert_eq!(bundle.validators.len(), 3);
    assert_eq!(bundle.secondaries.len(), 1);
    assert!(bundle.relayer.is_some());
    assert!(bundle.spammer.is_some());
    assert!(bundle.chain_indexer.is_some());
    assert!(bundle.metadata_indexer.is_some());
    assert_eq!(bundle.deployer.tag, "ff-10");
    assert_eq!(bundle.validators[0].config.metrics_port, METRICS_PORT);

    let mut broken = material_for(&args);
    broken.dealing.shares.clear();
    assert!(matches!(
        build_validators(&args, &remote, "out", &broken, METRICS_PORT),
        Err(RemoteError::MissingShare)
    ));
}
