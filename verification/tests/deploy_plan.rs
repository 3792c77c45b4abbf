use constantinople::deploy::material::{
    assemble_cluster_material, generate_local_cluster_material, generate_remote_cluster_material,
    simplex_verification_material_from_config, ClusterMaterial, MaterialError,
    Identity, SimplexMaterialError,
};
use constantinople::deploy::plan::{
    default_max_pool_bytes, default_max_propose_bytes, default_max_shard_bytes,
    default_page_cache_bytes, default_public_key_cache_size,
    derived_shard_bound, indexer_enabled, resolve_spammer_plan, resolved_max_shard_bytes,
    secondary_roles, spammer_plan_report, total_secondaries, validate_generate_args, GenerateArgs,
    PlanError, SecondaryRole, SpammerPlan, SpammerProofMode, SpammerWorkload,
};

fn generate_args_for_bounds(validators: u32) -> GenerateArgs {
    GenerateArgs {
        validators,
        indexer: false,
        relayer: false,
        max_propose_bytes: default_max_propose_bytes(),
        max_pool_bytes: default_max_pool_bytes(),
        max_shard_bytes: None,
        spammer: false,
        spammer_accounts: None,
        spammer_value: 1,
        spammer_workload: SpammerWorkload::Public,
        spammer_private_batch: None,
        spammer_private_lanes: None,
        spammer_target_inflight: None,
    }
}

fn private_plan_args(validators: u32) -> GenerateArgs {
    let mut args = generate_args_for_bounds(validators);
    args.relayer = true;
    args.spammer = true;
    args.spammer_workload = SpammerWorkload::Private;
    args
}

fn plan_of(args: &GenerateArgs) -> SpammerPlan {
    resolve_spammer_plan(args).unwrap_or_else(|error| panic!("{}", error.message()))
}

fn local_material(validators: u32, secondaries: u32) -> ClusterMaterial {
    generate_local_cluster_material(validators, secondaries)
        .unwrap_or_else(|_| panic!("material should be dealt"))
}

#[test]
fn derives_shard_bound_from_cluster_size() {
    // 4 validators -> 2 data shards: an 8 MiB block needs ~5 MiB shards.
    assert_eq!(
        derived_shard_bound(8 * 1024 * 1024, 4),
        8 * 1024 * 1024 / 2 * 5 / 4
    );
    // 50 validators -> 17 data shards: well under the 1 MiB floor.
    assert!(derived_shard_bound(8 * 1024 * 1024, 50) < default_max_shard_bytes());
}

#[test]
fn derived_shard_limit_never_drops_below_historical_default() {
    let mut args = generate_args_for_bounds(50);
    args.max_shard_bytes = None;
    assert_eq!(resolved_max_shard_bytes(&args), default_max_shard_bytes());

    let args = generate_args_for_bounds(4);
    assert_eq!(
        resolved_max_shard_bytes(&args),
        derived_shard_bound(args.max_propose_bytes, 4)
    );
}

#[test]
#[should_panic(expected = "cannot carry a full")]
fn rejects_shard_limit_too_small_for_full_blocks() {
    let mut args = generate_args_for_bounds(4);
    // The historical 1 MiB default cannot carry 8 MiB blocks at 4
    // validators; explicit values must fail at generate time instead of
    // wedging consensus at the first full block.
    args.max_shard_bytes = Some(default_max_shard_bytes());
    validate_generate_args(&args).unwrap_or_else(|error| panic!("{}", error.message()));
}

#[test]
fn target_inflight_derives_lanes_batch_and_accounts() {
    let mut args = private_plan_args(50);
    args.spammer_target_inflight = Some(50000);
    let plan = plan_of(&args);

    // The plan must meet the target, overshooting by less than one
    // transaction per lane.
    assert!(plan.inflight >= 50_000);
    assert!(plan.inflight - 50_000 < plan.total_private_lanes);
    // Derived batches never exceed the default batch size.
    assert!(plan.private_batch <= 64);
    // Lanes stay a whole multiple of the validator count.
    assert_eq!(plan.total_private_lanes % 50, 0);
    // Accounts cover every in-flight slot with headroom.
    assert_eq!(plan.accounts as usize, plan.inflight * 2);
}

#[test]
fn target_inflight_respects_explicit_lanes() {
    let mut args = private_plan_args(50);
    args.spammer_target_inflight = Some(50000);
    args.spammer_private_lanes = Some(10);
    let plan = plan_of(&args);

    assert_eq!(plan.total_private_lanes, 500);
    assert_eq!(plan.private_batch, 100);
    assert_eq!(plan.inflight, 50_000);
}

#[test]
fn private_defaults_hold_without_target() {
    let args = private_plan_args(2);
    let plan = plan_of(&args);

    assert_eq!(plan.total_private_lanes, 16);
    assert_eq!(plan.private_batch, 64);
    assert_eq!(plan.inflight, 1024);
    assert_eq!(plan.accounts, 2048);
}

#[test]
fn public_workload_keeps_legacy_defaults() {
    let args = generate_args_for_bounds(4);
    let plan = plan_of(&args);

    assert_eq!(plan.accounts, 10);
    assert_eq!(plan.private_batch, 64);
    assert_eq!(plan.total_private_lanes, 32);
}

#[test]
#[should_panic(expected = "only applies to --spammer-workload private")]
fn rejects_target_inflight_for_public_workload() {
    let mut args = generate_args_for_bounds(4);
    args.spammer_target_inflight = Some(1000);
    plan_of(&args);
}

#[test]
#[should_panic(expected = "needs its own source account")]
fn rejects_accounts_below_lane_capacity() {
    // 2 validators x 8 lanes x 64 batch = 1024 in-flight slots; 100
    // accounts used to silently shrink batches, now it fails.
    let mut args = private_plan_args(2);
    args.spammer_accounts = Some(100);
    plan_of(&args);
}

#[test]
#[should_panic(expected = "below --spammer-target-inflight")]
fn rejects_explicit_sizing_below_target() {
    let mut args = private_plan_args(2);
    args.spammer_target_inflight = Some(1000);
    args.spammer_private_lanes = Some(1);
    args.spammer_private_batch = Some(1);
    plan_of(&args);
}

#[test]
#[should_panic(expected = "above --max-propose-bytes")]
fn rejects_batch_larger_than_a_proposal() {
    // 20000 txs x 512 B > the default 8 MiB propose/submission limit.
    let mut args = private_plan_args(1);
    args.spammer_private_batch = Some(20000);
    plan_of(&args);
}

#[test]
fn extracts_simplex_verification_material_from_config() {
    let material = local_material(4, 1);
    let dkg_output = commonware_formatting::hex(&material.dealing.output);

    let extracted = simplex_verification_material_from_config(&dkg_output, 4)
        .unwrap_or_else(|_| panic!("material should be found"));

    assert_eq!(extracted, material.simplex_verification_material_hex());
}

#[test]
fn broken_verification_material_is_rejected() {
    assert!(matches!(
        simplex_verification_material_from_config("zz", 4),
        Err(SimplexMaterialError::BadHex)
    ));
    assert!(matches!(
        simplex_verification_material_from_config("00", 0),
        Err(SimplexMaterialError::NoValidators)
    ));
    assert!(matches!(
        simplex_verification_material_from_config("00", 4),
        Err(SimplexMaterialError::BadOutput)
    ));
}

#[test]
fn local_material_is_deterministic() {
    let first = local_material(4, 2);
    let second = local_material(4, 2);
    assert_eq!(first.signers, second.signers);
    assert_eq!(first.public_keys, second.public_keys);
    assert_eq!(first.dealing.output, second.dealing.output);
    assert_ne!(first.signers, first.public_keys);
    assert_eq!(first.public_keys.len(), 4);
    assert_eq!(first.secondary_public_keys.len(), 2);
    assert_eq!(first.primary_hex().len(), 4);
    assert_eq!(first.genesis_leader, first.primary_hex()[0]);
    for key in &first.public_keys {
        assert!(first.share_for(key).is_some());
    }
    for key in &first.secondary_public_keys {
        assert!(first.share_for(key).is_none());
        assert!(!first.public_keys.contains(key));
    }
}

#[test]
fn remote_material_is_random() {
    let first = generate_remote_cluster_material(3, 1)
        .unwrap_or_else(|_| panic!("material should be dealt"));
    let second = generate_remote_cluster_material(3, 1)
        .unwrap_or_else(|_| panic!("material should be dealt"));
    assert_ne!(first.signers, second.signers);
    assert_eq!(first.signers.len(), 3);
    assert_eq!(first.secondary_signers.len(), 1);
    for pair in first.public_keys.windows(2) {
        assert!(pair[0] <= pair[1]);
    }
}

#[test]
fn material_is_assembled_from_distinct_keys() {
    let cluster =
        generate_local_cluster_material(3, 1).unwrap_or_else(|_| panic!("material is dealt"));
    let identity = |index: usize| Identity {
        signer: cluster.signers[index].clone(),
        public_key: cluster.public_keys[index].clone(),
    };
    let material = assemble_cluster_material(vec![identity(2), identity(0)], vec![identity(1)])
        .unwrap_or_else(|_| panic!("distinct keys are dealt to"));
    assert_eq!(material.public_keys.len(), 2);
    assert!(material.public_keys[0] < material.public_keys[1]);
    assert_eq!(material.secondary_public_keys, vec![cluster.public_keys[1].clone()]);
    assert!(matches!(
        assemble_cluster_material(vec![identity(0), identity(0)], Vec::new()),
        Err(MaterialError::DuplicateKey)
    ));
    assert!(matches!(
        assemble_cluster_material(Vec::new(), vec![identity(0)]),
        Err(MaterialError::NoValidators)
    ));
}

#[test]
fn material_needs_validators() {
    assert!(matches!(
        generate_remote_cluster_material(0, 1),
        Err(MaterialError::NoValidators)
    ));
    assert!(generate_remote_cluster_material(1, 0).is_ok());
    assert!(matches!(
        generate_local_cluster_material(0, 1),
        Err(MaterialError::NoValidators)
    ));
}

#[test]
fn sizing_options_are_validated() {
    let mut args = private_plan_args(2);
    args.spammer_private_lanes = Some(0);
    assert!(resolve_spammer_plan(&args).is_err());

    let mut args = private_plan_args(2);
    args.spammer_private_batch = Some(0);
    assert!(resolve_spammer_plan(&args).is_err());

    let mut args = generate_args_for_bounds(0);
    args.max_shard_bytes = None;
    assert!(validate_generate_args(&args).is_err());

    let mut args = generate_args_for_bounds(4);
    args.spammer = true;
    let error: PlanError = validate_generate_args(&args)
        .err()
        .unwrap_or_else(|| panic!("a spammer needs the relayer"));
    assert!(!error.message().is_empty());

    assert!(validate_generate_args(&generate_args_for_bounds(4)).is_ok());
    assert!(validate_generate_args(&private_plan_args(4)).is_ok());
}

#[test]
fn report_estimates_the_runway() {
    let args = private_plan_args(2);
    let report = spammer_plan_report(&args)
        .unwrap_or_else(|error| panic!("{}", error.message()))
        .expect("private workload is reported");
    // 2048 accounts x (1000 transfers + fund + rollover), 1024 in flight, per minute.
    assert_eq!(report.est_runway_minutes, 2048 * 1002 / 1024 / 60);

    let public = generate_args_for_bounds(2);
    assert!(matches!(spammer_plan_report(&public), Ok(None)));
}

#[test]
fn secondaries_are_counted_by_role() {
    let mut args = generate_args_for_bounds(4);
    assert_eq!(total_secondaries(&args), 0);
    assert!(!indexer_enabled(&args));
    args.indexer = true;
    args.relayer = true;
    assert_eq!(total_secondaries(&args), 2);
    assert_eq!(
        secondary_roles(&args),
        vec![SecondaryRole::Indexer, SecondaryRole::Relayer]
    );
    assert!(indexer_enabled(&args));
}

#[test]
fn workloads_have_names() {
    assert_eq!(SpammerWorkload::default().as_str(), "public");
    assert_eq!(SpammerWorkload::Private.as_str(), "private");
    assert_eq!(SpammerProofMode::default().as_str(), "real");
    assert_eq!(SpammerProofMode::Simulated.as_str(), "simulated");
}

#[test]
fn cache_defaults() {
    assert_eq!(default_page_cache_bytes(), 2_147_483_648);
    assert_eq!(default_public_key_cache_size(), 100_000);
}
