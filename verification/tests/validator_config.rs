use commonware_codec::Encode;
use commonware_cryptography::{ed25519, Signer};
use commonware_formatting::hex;
use constantinople::deploy::material::{generate_local_cluster_material, ClusterMaterial};
use constantinople::rate::SamplingRate;
use constantinople::validator::config::{
    decode_with_network, default_max_pool_bytes, default_max_propose_bytes,
    default_max_shard_bytes, default_metrics_port, default_network_buffer_pool_max_bytes,
    default_rayon_threads, default_upload_buffer, load_deployer_config, load_local_config,
    resolve_named_http_url, ConfigError, HexField, HostEntry, IndexerConfig, LoadedConfig,
    NamedBootstrapperEntry, NodeAddress, PeerEntry, PeersFile, RelayerConfig,
    RelayerLeaderConfig, StartupModeConfig, ValidatorConfig,
};

const MONITORING_PRIVATE: &str = "10.0.0.2";

/// A cluster with `primary_count` primaries (seeds from 0) and `secondary_count` secondaries (seeds
/// from 1_000_000).
fn cluster(primary_count: u32, secondary_count: u32) -> ClusterMaterial {
    generate_local_cluster_material(primary_count, secondary_count)
        .unwrap_or_else(|_| panic!("material should be dealt"))
}

fn config_for(
    cluster: &ClusterMaterial,
    private_key: String,
    dkg_share: String,
    partition_prefix: String,
    startup: StartupModeConfig,
    bootstrappers: Vec<NamedBootstrapperEntry>,
) -> ValidatorConfig {
    ValidatorConfig {
        private_key,
        dkg_output: hex(&cluster.dealing.output),
        dkg_share,
        startup,
        listen_port: 9000,
        genesis_leader: hex(&cluster.public_keys[0]),
        partition_prefix,
        num_validators: cluster.public_keys.len() as u32,
        primary_validators: cluster.primary_hex(),
        secondary_validators: cluster.secondary_hex(),
        log_level: "info".to_string(),
        worker_threads: 2,
        rayon_threads: 2,
        http_port: 8080,
        metrics_port: 9090,
        max_propose_bytes: default_max_propose_bytes(),
        max_pool_bytes: default_max_pool_bytes(),
        network_buffer_pool_max_bytes: default_network_buffer_pool_max_bytes(),
        max_shard_bytes: default_max_shard_bytes(),
        mempool_drop_grace_blocks: None,
        traces: SamplingRate { bits: 0.0f64.to_bits() },
        otel_endpoint: None,
        bootstrappers,
        indexer: None,
        relayer: None,
    }
}

fn primary_config(
    cluster: &ClusterMaterial,
    index: usize,
    startup: StartupModeConfig,
    bootstrappers: Vec<NamedBootstrapperEntry>,
) -> ValidatorConfig {
    let share = cluster
        .share_for(&cluster.public_keys[index])
        .expect("share");
    config_for(
        cluster,
        hex(&cluster.signers[index]),
        hex(share),
        format!("validator-{index}"),
        startup,
        bootstrappers,
    )
}

fn secondary_config(
    cluster: &ClusterMaterial,
    index: usize,
    startup: StartupModeConfig,
    bootstrappers: Vec<NamedBootstrapperEntry>,
) -> ValidatorConfig {
    config_for(
        cluster,
        hex(&cluster.secondary_signers[index]),
        String::new(),
        format!("secondary-{index}"),
        startup,
        bootstrappers,
    )
}

fn bootstrapper_entry(public_key: &Vec<u8>) -> NamedBootstrapperEntry {
    let name = hex(public_key);
    NamedBootstrapperEntry {
        public_key: name.clone(),
        name,
    }
}

fn peer(public_key: &Vec<u8>, p2p: &str, http: &str) -> PeerEntry {
    PeerEntry {
        name: hex(public_key),
        p2p: p2p.to_string(),
        http: http.to_string(),
    }
}

fn two_peers(cluster: &ClusterMaterial) -> PeersFile {
    PeersFile {
        validators: vec![
            peer(&cluster.public_keys[0], "127.0.0.1:9000", "127.0.0.1:8080"),
            peer(&cluster.public_keys[1], "127.0.0.1:9001", "127.0.0.1:8081"),
        ],
        secondaries: Vec::new(),
    }
}

fn host(name: String, ip: &str) -> HostEntry {
    HostEntry {
        name,
        ip: ip.to_string(),
    }
}

fn key_host(public_key: &Vec<u8>, ip: &str) -> HostEntry {
    host(hex(public_key), ip)
}

fn local(peers: PeersFile, config: ValidatorConfig) -> LoadedConfig {
    load_local_config(peers, &Vec::new(), config).unwrap_or_else(|error| panic!("{}", error.message("peer")))
}

fn deployer(hosts: &Vec<HostEntry>, config: ValidatorConfig) -> LoadedConfig {
    load_deployer_config(hosts, MONITORING_PRIVATE, config)
        .unwrap_or_else(|error| panic!("{}", error.message("host")))
}

fn is_socket(address: &NodeAddress, expected: &str) -> bool {
    match address {
        NodeAddress::Socket(text) => text == expected,
        NodeAddress::Host { ip, port } => format!("{ip}:{port}") == expected,
    }
}

fn decode_primary_config(cluster: &ClusterMaterial, config: ValidatorConfig) -> LoadedConfig {
    decode_with_network(
        config,
        NodeAddress::Socket("127.0.0.1:9000".to_string()),
        cluster.public_keys.clone(),
        cluster.secondary_public_keys.clone(),
        Vec::new(),
        None,
        false,
    )
    .unwrap_or_else(|error| panic!("{}", error.message("peer")))
}

fn set_limits(config: &mut ValidatorConfig) {
    config.max_propose_bytes = 1_234_567;
    config.max_pool_bytes = 9_876_543;
    config.network_buffer_pool_max_bytes = 8_388_608;
    config.max_shard_bytes = 4_194_304;
    config.mempool_drop_grace_blocks = Some(512);
}

#[test]
fn local_config_resolves_bootstrapper_peers() {
    let cluster = cluster(2, 0);
    let self_key = &cluster.public_keys[0];
    let peer_key = &cluster.public_keys[1];
    let mut config = primary_config(
        &cluster,
        0,
        StartupModeConfig::MarshalSync,
        vec![bootstrapper_entry(peer_key)],
    );
    set_limits(&mut config);

    let loaded = local(two_peers(&cluster), config);

    assert!(!loaded.json_logs);
    assert!(!loaded.deployer_managed);
    assert_eq!(loaded.startup, StartupModeConfig::MarshalSync);
    assert_eq!(loaded.http_listen, "0.0.0.0:8080");
    assert_eq!(loaded.metrics_listen, "0.0.0.0:9090");
    assert_eq!(loaded.max_propose_bytes, 1_234_567);
    assert_eq!(loaded.max_pool_bytes, 9_876_543);
    assert_eq!(loaded.network_buffer_pool_max_bytes, 8_388_608);
    assert_eq!(loaded.max_shard_bytes, 4_194_304);
    assert_eq!(loaded.mempool_drop_grace_blocks, Some(512));
    assert_eq!(loaded.decoded.listen_bind, "0.0.0.0:9000");
    assert!(is_socket(&loaded.decoded.listen_advertise, "127.0.0.1:9000"));
    assert!(loaded.decoded.share.is_some());
    assert_eq!(loaded.decoded.primary_participants.len(), 2);
    assert!(loaded.decoded.primary_participants.contains(self_key));
    assert!(loaded.decoded.primary_participants.contains(peer_key));
    assert!(loaded.decoded.secondary_participants.is_empty());
    assert!(is_socket(&loaded.decoded.bootstrappers[0].1, "127.0.0.1:9001"));
}

#[test]
#[should_panic(expected = "max_shard_bytes")]
fn rejects_shard_limit_below_propose_limit() {
    let cluster = cluster(4, 0);
    let mut config = primary_config(&cluster, 0, StartupModeConfig::MarshalSync, Vec::new());
    config.max_propose_bytes = 2 * 1024 * 1024;
    config.max_shard_bytes = 1024 * 1024;
    config.network_buffer_pool_max_bytes = 2 * 1024 * 1024;

    let _ = decode_primary_config(&cluster, config);
}

#[test]
#[should_panic(expected = "network_buffer_pool_max_bytes")]
fn rejects_network_buffer_limit_below_shard_limit() {
    let cluster = cluster(4, 0);
    let mut config = primary_config(&cluster, 0, StartupModeConfig::MarshalSync, Vec::new());
    config.max_propose_bytes = 1024 * 1024;
    config.max_shard_bytes = 2 * 1024 * 1024;
    config.network_buffer_pool_max_bytes = 1024 * 1024;

    let _ = decode_primary_config(&cluster, config);
}

#[test]
fn deployer_config_resolves_bootstrapper_hosts() {
    let cluster = cluster(2, 0);
    let self_key = &cluster.public_keys[0];
    let peer_key = &cluster.public_keys[1];
    let mut config = primary_config(
        &cluster,
        0,
        StartupModeConfig::MarshalSync,
        vec![bootstrapper_entry(peer_key)],
    );
    set_limits(&mut config);
    let hosts = vec![
        key_host(self_key, "203.0.113.1"),
        key_host(peer_key, "203.0.113.2"),
    ];

    let loaded = deployer(&hosts, config);

    assert!(loaded.json_logs);
    assert!(loaded.deployer_managed);
    assert_eq!(loaded.startup, StartupModeConfig::MarshalSync);
    assert_eq!(loaded.http_listen, "0.0.0.0:8080");
    assert_eq!(loaded.metrics_listen, "0.0.0.0:9090");
    assert_eq!(loaded.max_propose_bytes, 1_234_567);
    assert_eq!(loaded.max_pool_bytes, 9_876_543);
    assert_eq!(loaded.network_buffer_pool_max_bytes, 8_388_608);
    assert_eq!(loaded.max_shard_bytes, 4_194_304);
    assert_eq!(loaded.mempool_drop_grace_blocks, Some(512));
    assert_eq!(loaded.decoded.listen_bind, "0.0.0.0:9000");
    assert!(is_socket(&loaded.decoded.listen_advertise, "203.0.113.1:9000"));
    assert!(loaded.decoded.share.is_some());
    assert_eq!(loaded.decoded.primary_participants.len(), 2);
    assert!(loaded.decoded.primary_participants.contains(self_key));
    assert!(loaded.decoded.primary_participants.contains(peer_key));
    assert!(loaded.decoded.secondary_participants.is_empty());
    assert!(is_socket(&loaded.decoded.bootstrappers[0].1, "203.0.113.2:9000"));
    assert!(loaded.otel.is_none());
}

#[test]
fn deployer_config_enables_traces_with_sampling_rate() {
    let cluster = cluster(2, 0);
    let mut config = primary_config(
        &cluster,
        0,
        StartupModeConfig::MarshalSync,
        vec![bootstrapper_entry(&cluster.public_keys[1])],
    );
    config.traces = SamplingRate { bits: 0.25f64.to_bits() };
    let hosts = vec![
        key_host(&cluster.public_keys[0], "203.0.113.1"),
        key_host(&cluster.public_keys[1], "203.0.113.2"),
    ];

    let loaded = deployer(&hosts, config);
    assert_eq!(
        loaded
            .otel
            .map(|(endpoint, rate)| (endpoint, f64::from_bits(rate.bits))),
        Some(("http://10.0.0.2:4318/v1/traces".to_string(), 0.25))
    );
}

#[test]
fn deployer_config_tracks_all_participants_not_only_bootstrappers() {
    let cluster = cluster(3, 0);
    let config = primary_config(
        &cluster,
        0,
        StartupModeConfig::MarshalSync,
        vec![bootstrapper_entry(&cluster.public_keys[1])],
    );
    let hosts = vec![
        key_host(&cluster.public_keys[0], "203.0.113.1"),
        key_host(&cluster.public_keys[1], "203.0.113.2"),
        key_host(&cluster.public_keys[2], "203.0.113.3"),
    ];

    let loaded = deployer(&hosts, config);

    assert_eq!(loaded.decoded.primary_participants.len(), 3);
    for key in &cluster.public_keys {
        assert!(loaded.decoded.primary_participants.contains(key));
    }
    assert_eq!(loaded.decoded.bootstrappers.len(), 1);
}

#[test]
fn deployer_config_ignores_non_validator_hosts() {
    let cluster = cluster(2, 0);
    let config = primary_config(
        &cluster,
        0,
        StartupModeConfig::MarshalSync,
        vec![bootstrapper_entry(&cluster.public_keys[1])],
    );
    let hosts = vec![
        key_host(&cluster.public_keys[0], "203.0.113.1"),
        key_host(&cluster.public_keys[1], "203.0.113.2"),
        host("spammer".to_string(), "203.0.113.9"),
    ];

    let loaded = deployer(&hosts, config);

    assert_eq!(loaded.decoded.primary_participants.len(), 2);
    for key in &cluster.public_keys {
        assert!(loaded.decoded.primary_participants.contains(key));
    }
    assert!(loaded.decoded.secondary_participants.is_empty());
}

#[test]
fn local_config_honors_state_sync_startup() {
    let cluster = cluster(2, 0);
    let config = primary_config(
        &cluster,
        0,
        StartupModeConfig::StateSync,
        vec![bootstrapper_entry(&cluster.public_keys[1])],
    );

    let loaded = local(two_peers(&cluster), config);

    assert_eq!(loaded.startup, StartupModeConfig::StateSync);
}

#[test]
fn local_config_enables_otel_traces() {
    let cluster = cluster(2, 0);
    let mut config = primary_config(
        &cluster,
        0,
        StartupModeConfig::MarshalSync,
        vec![bootstrapper_entry(&cluster.public_keys[1])],
    );
    config.traces = SamplingRate { bits: 1.0f64.to_bits() };
    config.otel_endpoint = Some("http://127.0.0.1:4318/v1/traces".to_string());

    let loaded = local(two_peers(&cluster), config);

    assert_eq!(
        loaded
            .otel
            .map(|(endpoint, rate)| (endpoint, f64::from_bits(rate.bits))),
        Some(("http://127.0.0.1:4318/v1/traces".to_string(), 1.0))
    );
}

#[test]
fn deployer_config_resolves_named_chain_indexer_url() {
    let cluster = cluster(2, 1);
    let mut config = secondary_config(
        &cluster,
        0,
        StartupModeConfig::MarshalSync,
        vec![bootstrapper_entry(&cluster.public_keys[0])],
    );
    config.indexer = Some(IndexerConfig {
        chain_indexer_url: "http://chain-indexer:8090".to_string(),
        upload_buffer: default_upload_buffer(),
    });
    let hosts = vec![
        key_host(&cluster.public_keys[0], "203.0.113.1"),
        key_host(&cluster.public_keys[1], "203.0.113.2"),
        key_host(&cluster.secondary_public_keys[0], "203.0.113.3"),
        host("chain-indexer".to_string(), "203.0.113.9"),
    ];

    let loaded = deployer(&hosts, config);

    let indexer = loaded
        .indexer
        .expect("secondary should keep indexer config");
    assert_eq!(indexer.chain_indexer_url, "http://203.0.113.9:8090");
}

/// Secondary validator: empty `dkg_share` must decode to `None`.
#[test]
fn deployer_config_secondary_has_no_share() {
    let cluster = cluster(2, 1);
    let self_key = &cluster.secondary_public_keys[0];
    let config = secondary_config(
        &cluster,
        0,
        StartupModeConfig::MarshalSync,
        vec![bootstrapper_entry(&cluster.public_keys[0])],
    );
    let hosts = vec![
        key_host(&cluster.public_keys[0], "203.0.113.1"),
        key_host(&cluster.public_keys[1], "203.0.113.2"),
        key_host(self_key, "203.0.113.3"),
    ];

    let loaded = deployer(&hosts, config);

    // Secondary node: no share.
    assert!(loaded.decoded.share.is_none());
    // Primary set has the 2 primaries, secondary set has the one secondary.
    assert_eq!(loaded.decoded.primary_participants.len(), 2);
    for key in &cluster.public_keys {
        assert!(loaded.decoded.primary_participants.contains(key));
    }
    assert_eq!(loaded.decoded.secondary_participants.len(), 1);
    assert!(loaded.decoded.secondary_participants.contains(self_key));
    // Self IP resolved from hosts file via the secondary's hex name.
    assert!(is_socket(&loaded.decoded.listen_advertise, "203.0.113.3:9000"));
}

/// Explicit lists populate both `primary_participants` and `secondary_participants` correctly,
/// regardless of host ordering.
#[test]
fn deployer_config_populates_primary_and_secondary_lists() {
    let cluster = cluster(2, 2);
    // Load from the perspective of primary[0].
    let config = primary_config(
        &cluster,
        0,
        StartupModeConfig::MarshalSync,
        vec![bootstrapper_entry(&cluster.public_keys[1])],
    );
    let hosts = vec![
        key_host(&cluster.public_keys[0], "203.0.113.1"),
        key_host(&cluster.public_keys[1], "203.0.113.2"),
        key_host(&cluster.secondary_public_keys[0], "203.0.113.3"),
        key_host(&cluster.secondary_public_keys[1], "203.0.113.4"),
    ];

    let loaded = deployer(&hosts, config);

    assert_eq!(loaded.decoded.primary_participants.len(), 2);
    for key in &cluster.public_keys {
        assert!(loaded.decoded.primary_participants.contains(key));
    }
    assert_eq!(loaded.decoded.secondary_participants.len(), 2);
    for key in &cluster.secondary_public_keys {
        assert!(loaded.decoded.secondary_participants.contains(key));
    }
    // Primary has a share.
    assert!(loaded.decoded.share.is_some());
}

/// Non-validator hosts (spammer, monitoring) and unlisted hex-named hosts must not leak into
/// `primary_participants` or `secondary_participants`.
#[test]
fn deployer_config_only_explicit_yaml_lists_determine_participants() {
    let cluster = cluster(2, 1);
    // An extra host listed in neither primary_validators nor secondary_validators: ignored.
    let stranger = ed25519::PrivateKey::from_seed(9_999_999)
        .public_key()
        .encode()
        .to_vec();
    let config = primary_config(
        &cluster,
        0,
        StartupModeConfig::MarshalSync,
        vec![bootstrapper_entry(&cluster.public_keys[1])],
    );
    let hosts = vec![
        key_host(&cluster.public_keys[0], "203.0.113.1"),
        key_host(&cluster.public_keys[1], "203.0.113.2"),
        key_host(&cluster.secondary_public_keys[0], "203.0.113.3"),
        host("spammer".to_string(), "203.0.113.8"),
        key_host(&stranger, "203.0.113.9"),
    ];

    let loaded = deployer(&hosts, config);

    // Exactly the explicit list entries, nothing else.
    assert_eq!(loaded.decoded.primary_participants.len(), 2);
    for key in &cluster.public_keys {
        assert!(loaded.decoded.primary_participants.contains(key));
    }
    assert_eq!(loaded.decoded.secondary_participants.len(), 1);
    assert!(loaded
        .decoded
        .secondary_participants
        .contains(&cluster.secondary_public_keys[0]));
    // The stranger (valid ed25519 hex name, unlisted) must not appear.
    assert!(!loaded.decoded.primary_participants.contains(&stranger));
    assert!(!loaded.decoded.secondary_participants.contains(&stranger));
}

/// A secondary node resolves its own p2p address from the secondaries of the peers file.
#[test]
fn local_config_secondary_resolves_from_secondaries_block() {
    let cluster = cluster(2, 1);
    let self_key = &cluster.secondary_public_keys[0];
    let config = secondary_config(
        &cluster,
        0,
        StartupModeConfig::MarshalSync,
        vec![bootstrapper_entry(&cluster.public_keys[0])],
    );
    let mut peers = two_peers(&cluster);
    peers
        .secondaries
        .push(peer(self_key, "127.0.0.1:9100", "127.0.0.1:8180"));

    let loaded = local(peers, config);

    assert!(loaded.decoded.share.is_none());
    assert_eq!(loaded.decoded.primary_participants.len(), 2);
    assert_eq!(loaded.decoded.secondary_participants.len(), 1);
    assert!(loaded.decoded.secondary_participants.contains(self_key));
    assert!(is_socket(&loaded.decoded.listen_advertise, "127.0.0.1:9100"));
}

fn load_error(change: impl Fn(&mut ValidatorConfig)) -> ConfigError {
    let cluster = cluster(2, 0);
    let mut config = primary_config(
        &cluster,
        0,
        StartupModeConfig::MarshalSync,
        vec![bootstrapper_entry(&cluster.public_keys[1])],
    );
    change(&mut config);
    load_local_config(two_peers(&cluster), &Vec::new(), config)
        .err()
        .unwrap_or_else(|| panic!("the configuration should be rejected"))
}

#[test]
fn broken_configurations_are_rejected() {
    assert!(matches!(
        load_error(|config| config.private_key = "zz".to_string()),
        ConfigError::BadHex(HexField::PrivateKey)
    ));
    assert!(matches!(
        load_error(|config| config.private_key = "00".to_string()),
        ConfigError::BadPrivateKey
    ));
    assert!(matches!(
        load_error(|config| config.dkg_output = "zz".to_string()),
        ConfigError::BadHex(HexField::DkgOutput)
    ));
    assert!(matches!(
        load_error(|config| config.dkg_output = "00".to_string()),
        ConfigError::BadDkgOutput
    ));
    assert!(matches!(
        load_error(|config| config.dkg_share = "00".to_string()),
        ConfigError::BadShare
    ));
    assert!(matches!(
        load_error(|config| config.num_validators = 0),
        ConfigError::NoValidators
    ));
    assert!(matches!(
        load_error(|config| config.genesis_leader = "00".to_string()),
        ConfigError::BadPublicKey(HexField::GenesisLeader)
    ));
    assert!(matches!(
        load_error(|config| config.primary_validators = Vec::new()),
        ConfigError::SelfNotListed { .. }
    ));
    assert!(matches!(
        load_error(|config| config.bootstrappers[0].name = "stranger".to_string()),
        ConfigError::MissingBootstrapper { name } if name == "stranger"
    ));
    assert!(matches!(
        load_error(|config| {
            config.relayer = Some(RelayerConfig {
                leaders: vec![RelayerLeaderConfig {
                    public_key: "00".to_string(),
                    url: "http://00".to_string(),
                }],
                max_retry_views: 1,
            })
        }),
        ConfigError::RelayerOnPrimary
    ));
}

#[test]
fn nodes_without_an_address_are_rejected() {
    let cluster = cluster(2, 0);
    let config = primary_config(&cluster, 0, StartupModeConfig::MarshalSync, Vec::new());
    let error = load_local_config(
        PeersFile {
            validators: Vec::new(),
            secondaries: Vec::new(),
        },
        &Vec::new(),
        config,
    )
    .err()
    .unwrap_or_else(|| panic!("the node has no address"));
    assert!(error.message("peer").starts_with("missing self peer '"));
}

#[test]
fn malformed_sockets_are_rejected() {
    let cluster = cluster(2, 0);
    let config = primary_config(
        &cluster,
        0,
        StartupModeConfig::MarshalSync,
        vec![bootstrapper_entry(&cluster.public_keys[1])],
    );
    let peers = two_peers(&cluster);
    let rejection = |sockets: &[&String]| {
        let malformed = sockets.iter().map(|socket| socket.to_string()).collect();
        load_local_config(peers.clone(), &malformed, config.clone())
            .err()
            .map(|error| error.message("peer"))
    };
    let (own, other) = (&peers.validators[0], &peers.validators[1]);
    assert_eq!(
        rejection(&[&own.http, &own.p2p]).as_deref(),
        Some("failed to parse self p2p socket")
    );
    assert_eq!(
        rejection(&[&other.p2p, &own.http]).as_deref(),
        Some("failed to parse self http socket")
    );
    assert_eq!(
        rejection(&[&other.p2p]).as_deref(),
        Some("failed to parse bootstrapper p2p socket")
    );
    assert_eq!(rejection(&[&other.http]), None);
}

#[test]
fn relaying_secondaries_do_not_index() {
    let cluster = cluster(2, 1);
    let mut config = secondary_config(&cluster, 0, StartupModeConfig::MarshalSync, Vec::new());
    config.relayer = Some(RelayerConfig {
        leaders: Vec::new(),
        max_retry_views: 1,
    });
    config.indexer = Some(IndexerConfig {
        chain_indexer_url: "http://chain-indexer:8090".to_string(),
        upload_buffer: 1,
    });
    let hosts = vec![key_host(&cluster.secondary_public_keys[0], "203.0.113.3")];
    assert!(matches!(
        load_deployer_config(&hosts, MONITORING_PRIVATE, config),
        Err(ConfigError::RelayerWithIndexer)
    ));
}

#[test]
fn urls_are_resolved_by_host_name() {
    let hosts = vec![
        host("relayer".to_string(), "203.0.113.1"),
        host("relayer".to_string(), "203.0.113.2"),
    ];
    let resolve = |url: &str| resolve_named_http_url(&url.to_string(), &hosts);
    // The last host of a name counts.
    assert_eq!(resolve("http://relayer:8080/path"), "http://203.0.113.2:8080/path");
    assert_eq!(resolve("http://other:8080"), "http://other:8080");
    assert_eq!(resolve("http://relayer"), "http://relayer");
    assert_eq!(resolve("https://relayer:8080"), "https://relayer:8080");
}

#[test]
fn defaults_are_stable() {
    assert_eq!(default_rayon_threads(), 2);
    assert_eq!(default_metrics_port(), 9090);
    assert_eq!(default_upload_buffer(), 64);
}
