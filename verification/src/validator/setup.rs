//! Setup of a local network from seeds: one file per validator, everyone bootstraps everyone.

use crate::deploy::local::{join_path, low_half, mprocs_command, number_text};
use crate::deploy::material::ClusterMaterial;
use crate::formatting::hex;
use crate::text::push_decimal;
use vstd::prelude::*;

verus! {

/// A balance that an account starts with.
#[derive(Debug, Clone)]
pub struct GenesisAllocation {
    /// The account.
    pub address: String,
    /// Its balance.
    pub balance: u64,
}

/// A peer to bootstrap from.
#[derive(Debug, Clone)]
pub struct BootstrapperEntry {
    /// Hex-encoded public key.
    pub public_key: String,
    /// Socket address.
    pub address: String,
}

/// The options of the setup command.
pub struct SetupArgs {
    /// Number of validators.
    pub validators: u32,
    /// Base p2p port; each validator is offset from this.
    pub base_port: u16,
    /// Base HTTP port; each validator is offset from this.
    pub base_http_port: u16,
    /// Logging verbosity.
    pub log_level: String,
    /// Runtime worker threads.
    pub worker_threads: usize,
    /// Starting balances.
    pub genesis_allocations: Vec<GenesisAllocation>,
}

/// One validator's file.
pub struct SetupConfig {
    pub private_key: String,
    pub dkg_output: String,
    pub dkg_share: String,
    pub listen: String,
    pub genesis_leader: String,
    pub partition_prefix: String,
    pub num_validators: u32,
    pub log_level: String,
    pub worker_threads: usize,
    pub http_port: u16,
    pub max_propose_bytes: usize,
    pub max_pool_bytes: usize,
    pub bootstrappers: Vec<BootstrapperEntry>,
    pub genesis_allocations: Vec<GenesisAllocation>,
}

/// A file to write.
pub struct SetupFile {
    /// Path of the file.
    pub path: String,
    /// Its contents.
    pub config: SetupConfig,
}

/// Why a network cannot be set up.
#[derive(Debug, Clone, Copy, PartialEq, Eq, Structural)]
pub enum SetupError {
    /// There is no validator.
    NoValidators,
    /// A port is out of range.
    PortOverflow,
    /// A validator has no share.
    MissingShare,
}

/// Whether every port of the network is in range.
pub open spec fn ports_fit(args: SetupArgs) -> bool {
    forall|index: int|
        0 <= index < args.validators ==> {
            &&& args.base_port + #[trigger] crate::deploy::local::port_offset(index) <= u16::MAX
            &&& args.base_http_port + crate::deploy::local::port_offset(index) <= u16::MAX
        }
}

/// The socket address of the validator at `index`.
pub open spec fn setup_address(args: SetupArgs, index: int) -> Seq<char> {
    "127.0.0.1:"@ + crate::text::decimal(
        (args.base_port + crate::deploy::local::port_offset(index)) as nat,
    )
}

/// The indices of a validator's bootstrappers: everyone else, in order.
pub open spec fn peer_index(own: int, position: int) -> int {
    if position < own {
        position
    } else {
        position + 1
    }
}

/// Whether `entries` are everyone but the validator at `own`.
pub open spec fn bootstraps_from_others(
    entries: Seq<BootstrapperEntry>,
    args: SetupArgs,
    material: ClusterMaterial,
    own: int,
) -> bool {
    &&& entries.len() == args.validators - 1
    &&& forall|k: int|
        0 <= k < entries.len() ==> {
            let peer = peer_index(own, k);
            &&& (#[trigger] entries[k]).public_key@ == crate::formatting::hex_text(
                material.public_keys@[peer]@,
            )
            &&& entries[k].address@ == setup_address(args, peer)
        }
}

/// Whether a file is that of the validator at `index`.
pub open spec fn sets_up(
    file: SetupFile,
    args: SetupArgs,
    output_dir: Seq<char>,
    material: ClusterMaterial,
    index: int,
) -> bool {
    let key = material.public_keys@[index]@;
    let config = file.config;
    &&& file.path@ == crate::deploy::local::joined_path(
        output_dir,
        crate::deploy::local::numbered("validator-"@, index as nat, ".toml"@),
    )
    &&& config.private_key@ == crate::formatting::hex_text(material.signers@[index]@)
    &&& config.dkg_output@ == crate::formatting::hex_text(material.dealing.output@)
    &&& material.share_position(key) is Some
    &&& config.dkg_share@ == crate::formatting::hex_text(
        material.dealing.shares@[material.share_position(key).unwrap()].1@,
    )
    &&& config.listen@ == setup_address(args, index)
    &&& config.genesis_leader == material.genesis_leader
    &&& config.partition_prefix@ == crate::deploy::local::numbered(
        "validator-"@,
        index as nat,
        ""@,
    )
    &&& config.num_validators == args.validators
    &&& config.log_level == args.log_level
    &&& config.worker_threads == args.worker_threads
    &&& config.http_port == args.base_http_port + crate::deploy::local::port_offset(
        index,
    )
    &&& config.max_propose_bytes == 4 * 1024 * 1024
    &&& config.max_pool_bytes == 64 * 1024 * 1024
    &&& bootstraps_from_others(config.bootstrappers@, args, material, index)
    &&& config.genesis_allocations@ == args.genesis_allocations@
}

fn address_text(base_port: u16, index: u32) -> (address: String)
    requires
        base_port + crate::deploy::local::port_offset(index as int) <= u16::MAX,
    ensures
        address@ == "127.0.0.1:"@ + crate::text::decimal(
            (base_port + crate::deploy::local::port_offset(index as int)) as nat,
        ),
{
    let mut address = "127.0.0.1:".to_string();
    push_decimal(&mut address, base_port as u64 + low_half(index) as u64);
    address
}

fn other_validators(args: &SetupArgs, material: &ClusterMaterial, own: u32) -> (entries: Vec<
    BootstrapperEntry,
>)
    requires
        own < args.validators,
        ports_fit(*args),
        material.public_keys@.len() >= args.validators,
    ensures
        bootstraps_from_others(entries@, *args, *material, own as int),
{
    let mut entries: Vec<BootstrapperEntry> = Vec::new();
    let mut j: u32 = 0;
    while j < args.validators
        invariant
            j <= args.validators,
            own < args.validators,
            ports_fit(*args),
            material.public_keys@.len() >= args.validators,
            entries@.len() == if j <= own {
                j as int
            } else {
                j - 1
            },
            forall|k: int|
                0 <= k < entries@.len() ==> {
                    let peer = peer_index(own as int, k);
                    &&& (#[trigger] entries@[k]).public_key@ == crate::formatting::hex_text(
                        material.public_keys@[peer]@,
                    )
                    &&& entries@[k].address@ == setup_address(*args, peer)
                },
        decreases args.validators - j,
    {
        if j != own {
            entries.push(
                BootstrapperEntry {
                    public_key: hex(material.public_keys[j as usize].as_slice()),
                    address: address_text(args.base_port, j),
                },
            );
        }
        j += 1;
    }
    entries
}

fn copy_allocations(items: &Vec<GenesisAllocation>) -> (copies: Vec<GenesisAllocation>)
    ensures
        copies@ == items@,
{
    let mut copies: Vec<GenesisAllocation> = Vec::new();
    let mut i: usize = 0;
    while i < items.len()
        invariant
            i <= items.len(),
            copies@ == items@.take(i as int),
        decreases items.len() - i,
    {
        copies.push(
            GenesisAllocation { address: items[i].address.clone(), balance: items[i].balance },
        );
        proof {
            assert(items@.take(i + 1) =~= items@.take(i as int).push(items@[i as int]));
        }
        i += 1;
    }
    proof {
        assert(items@.take(i as int) =~= items@);
    }
    copies
}

/// Sets a local network up: one file per validator.
pub fn setup(args: &SetupArgs, output_dir: &str, material: &ClusterMaterial) -> (files: Result<
    Vec<SetupFile>,
    SetupError,
>)
    requires
        material.public_keys@.len() >= args.validators,
        material.signers@.len() >= args.validators,
    ensures
        match files {
            Ok(files) => {
                &&& args.validators >= 1
                &&& ports_fit(*args)
                &&& files@.len() == args.validators
                &&& forall|i: int|
                    0 <= i < args.validators ==> sets_up(
                        #[trigger] files@[i],
                        *args,
                        output_dir@,
                        *material,
                        i,
                    )
            },
            Err(SetupError::NoValidators) => args.validators < 1,
            Err(SetupError::PortOverflow) => args.validators >= 1 && !ports_fit(*args),
            Err(SetupError::MissingShare) => {
                &&& args.validators >= 1
                &&& ports_fit(*args)
                &&& exists|i: int|
                    0 <= i < args.validators && material.share_position(
                        (#[trigger] material.public_keys@[i])@,
                    ) is None
            },
        },
{
    if args.validators < 1 {
        return Err(SetupError::NoValidators);
    }
    let highest: u32 = if args.validators > 0x1_0000 {
        0xFFFF
    } else {
        args.validators - 1
    };
    if highest > (u16::MAX - args.base_port) as u32 || highest > (u16::MAX
        - args.base_http_port) as u32 {
        proof {
            assert(crate::deploy::local::port_offset(highest as int) == highest);
        }
        return Err(SetupError::PortOverflow);
    }
    let mut files: Vec<SetupFile> = Vec::new();
    let mut i: u32 = 0;
    while i < args.validators
        invariant
            i <= args.validators,
            args.validators >= 1,
            ports_fit(*args),
            material.public_keys@.len() >= args.validators,
            material.signers@.len() >= args.validators,
            files@.len() == i,
            forall|k: int|
                0 <= k < i ==> sets_up(
                    #[trigger] files@[k],
                    *args,
                    output_dir@,
                    *material,
                    k,
                ),
        decreases args.validators - i,
    {
        let key = &material.public_keys[i as usize];
        let share = match material.share_for(key) {
            Some(share) => share,
            None => {
                assert(material.share_position(material.public_keys@[i as int]@) is None);
                return Err(SetupError::MissingShare);
            },
        };
        let config = SetupConfig {
            private_key: hex(material.signers[i as usize].as_slice()),
            dkg_output: hex(material.dealing.output.as_slice()),
            dkg_share: hex(share.as_slice()),
            listen: address_text(args.base_port, i),
            genesis_leader: material.genesis_leader.clone(),
            partition_prefix: number_text("validator-", i as u64, ""),
            num_validators: args.validators,
            log_level: args.log_level.clone(),
            worker_threads: args.worker_threads,
            http_port: args.base_http_port + low_half(i),
            max_propose_bytes: 4 * 1024 * 1024,
            max_pool_bytes: 64 * 1024 * 1024,
            bootstrappers: other_validators(args, material, i),
            genesis_allocations: copy_allocations(&args.genesis_allocations),
        };
        let file = number_text("validator-", i as u64, ".toml");
        files.push(SetupFile { path: join_path(output_dir, file.as_str()), config });
        i += 1;
    }
    Ok(files)
}

/// Every validator bootstraps from every other one, and never from itself.
pub proof fn bootstrapping_is_complete(own: int, peer: int, validators: int)
    requires
        0 <= own < validators,
        0 <= peer < validators,
    ensures
        peer != own <==> exists|position: int|
            0 <= position < validators - 1 && #[trigger] peer_index(own, position) == peer,
{
    if peer < own {
        assert(peer_index(own, peer) == peer);
    } else if peer > own {
        assert(peer_index(own, peer - 1) == peer);
    }
}

/// The commands that run the validators of a network.
pub open spec fn run_commands(output_dir: Seq<char>, validators: nat) -> Seq<Seq<char>> {
    Seq::new(
        validators,
        |i: int|
            "cargo run --bin constantinople -- run --config "@ + crate::deploy::local::joined_path(
                output_dir,
                crate::deploy::local::numbered("validator-"@, i as nat, ".toml"@),
            ),
    )
}

/// Returns the command that runs the validators of a network under one process manager.
pub fn setup_command(output_dir: &str, validators: u32) -> (command: String)
    ensures
        command@ == "mprocs "@ + crate::text::joined(
            crate::deploy::local::quoted(run_commands(output_dir@, validators as nat)),
            " "@,
        ),
{
    let mut commands: Vec<String> = Vec::new();
    let mut i: u32 = 0;
    while i < validators
        invariant
            i <= validators,
            commands@.len() == i,
            forall|k: int|
                0 <= k < i ==> (#[trigger] commands@[k])@ == run_commands(
                    output_dir@,
                    validators as nat,
                )[k],
        decreases validators - i,
    {
        let file = number_text("validator-", i as u64, ".toml");
        let mut command = "cargo run --bin constantinople -- run --config ".to_string();
        command.append(join_path(output_dir, file.as_str()).as_str());
        commands.push(command);
        i += 1;
    }
    proof {
        assert(crate::text::texts(commands@) =~= run_commands(output_dir@, validators as nat));
    }
    mprocs_command(&commands)
}

/// In a network that [`setup`] sets up, every validator bootstraps from every other one where that
/// one listens and under its key, and never from itself.
pub proof fn validators_find_each_other(
    args: SetupArgs,
    output_dir: &str,
    material: ClusterMaterial,
    files: Vec<SetupFile>,
    own: int,
    peer: int,
) -> (place: int)
    requires
        call_ensures(
            setup,
            (&args, output_dir, &material),
            Ok::<Vec<SetupFile>, SetupError>(files),
        ),
        0 <= own < files@.len(),
        0 <= peer < files@.len(),
        own != peer,
    ensures
        files@.len() == args.validators,
        files@[own].config.bootstrappers@.len() == files@.len() - 1,
        0 <= place < files@.len() - 1,
        files@[own].config.bootstrappers@[place].address@ == files@[peer].config.listen@,
        files@[own].config.bootstrappers@[place].public_key@ == crate::formatting::hex_text(
            material.public_keys@[peer]@,
        ),
{
    let place = if peer < own {
        peer
    } else {
        peer - 1
    };
    assert(sets_up(files@[own], args, output_dir@, material, own));
    assert(sets_up(files@[peer], args, output_dir@, material, peer));
    assert(peer_index(own, place) == peer);
    let entries = files@[own].config.bootstrappers@;
    assert(entries[place].address@ == setup_address(args, peer));
    place
}

/// In a network of fewer than 65 536 validators that [`setup`] sets up, the ports count up from the
/// base ports, so no two validators share one. Every validator has the keys of its own index, and
/// the commands run their files.
pub proof fn validators_stand_apart(
    args: SetupArgs,
    output_dir: &str,
    material: ClusterMaterial,
    files: Vec<SetupFile>,
    index: int,
)
    requires
        call_ensures(
            setup,
            (&args, output_dir, &material),
            Ok::<Vec<SetupFile>, SetupError>(files),
        ),
        args.validators < 0x1_0000,
        0 <= index < files@.len(),
    ensures
        files@[index].config.http_port == args.base_http_port + index,
        files@[index].config.listen@ == "127.0.0.1:"@ + crate::text::decimal(
            (args.base_port + index) as nat,
        ),
        crate::formatting::hex_bytes(files@[index].config.private_key@) == Some(
            material.signers@[index]@,
        ),
        run_commands(output_dir@, files@.len())[index]
            == "cargo run --bin constantinople -- run --config "@ + files@[index].path@,
        files@[index].config.genesis_allocations@ == args.genesis_allocations@,
{
    assert(sets_up(files@[index], args, output_dir@, material, index));
    crate::formatting::hex_round_trip(material.signers@[index]@);
}

/// A network of fewer than 65 536 validators, whose material holds together, is set up exactly if it
/// has a validator and the ports of the last one are in range.
pub proof fn network_in_range_is_set_up(
    args: SetupArgs,
    output_dir: &str,
    material: ClusterMaterial,
    files: Result<Vec<SetupFile>, SetupError>,
)
    requires
        call_ensures(setup, (&args, output_dir, &material), files),
        material.well_formed(),
        material.public_keys@.len() >= args.validators,
        args.validators < 0x1_0000,
    ensures
        files is Ok <==> {
            &&& args.validators >= 1
            &&& args.base_port + args.validators - 1 <= 65_535
            &&& args.base_http_port + args.validators - 1 <= 65_535
        },
{
    if args.validators >= 1 {
        let last = crate::deploy::local::port_offset(args.validators - 1);
        assert(last == args.validators - 1);
        assert forall|i: int| 0 <= i < args.validators implies material.share_position(
            (#[trigger] material.public_keys@[i])@,
        ) is Some by {
            crate::deploy::material::primaries_hold_shares(material, i);
        }
        assert(args.base_port + args.validators - 1 <= 65_535 && args.base_http_port
            + args.validators - 1 <= 65_535 ==> ports_fit(args));
    }
}

/// Every validator of a network that [`setup`] sets up holds the share that was dealt to its own key,
/// knows how many validators there are, and keeps to a proposal of 4 MiB and a mempool of 64 MiB.
pub proof fn validators_hold_their_own_shares(
    args: SetupArgs,
    output_dir: &str,
    material: ClusterMaterial,
    files: Vec<SetupFile>,
    index: int,
)
    requires
        call_ensures(
            setup,
            (&args, output_dir, &material),
            Ok::<Vec<SetupFile>, SetupError>(files),
        ),
        material.well_formed(),
        material.public_keys@.len() == args.validators,
        0 <= index < files@.len(),
    ensures
        ({
            let config = files@[index].config;
            &&& config.num_validators == files@.len()
            &&& config.max_propose_bytes == 4_194_304
            &&& config.max_pool_bytes == 67_108_864
            &&& config.worker_threads == args.worker_threads
            &&& config.log_level == args.log_level
            &&& config.genesis_leader == material.genesis_leader
            &&& crate::formatting::hex_bytes(config.private_key@) matches Some(signer)
            &&& exists|at: int|
                {
                    &&& 0 <= at < material.dealing.shares@.len()
                    &&& (#[trigger] material.dealing.shares@[at]).0@
                        == crate::keys::derived_public_key(signer)
                    &&& crate::formatting::hex_bytes(config.dkg_share@) == Some(
                        material.dealing.shares@[at].1@,
                    )
                }
        }),
{
    assert(sets_up(files@[index], args, output_dir@, material, index));
    let key = material.public_keys@[index]@;
    crate::formatting::hex_round_trip(material.signers@[index]@);
    crate::deploy::material::primaries_hold_shares(material, index);
    let at = material.share_position(key).unwrap();
    crate::formatting::hex_round_trip(material.dealing.shares@[at].1@);
    assert(material.dealing.shares@[at].0@ == key);
}

/// The command for one validator more ends with that validator's own command, in quotes.
pub proof fn one_more_validator_is_started(
    output_dir: &str,
    validators: u32,
    command: String,
    longer: String,
)
    requires
        0 < validators < u32::MAX,
        call_ensures(setup_command, (output_dir, validators), command),
        call_ensures(setup_command, (output_dir, (validators + 1) as u32), longer),
    ensures
        longer@ == command@ + " "@ + ("\""@ + ("cargo run --bin constantinople -- run --config "@
            + crate::deploy::local::joined_path(
            output_dir@,
            crate::deploy::local::numbered("validator-"@, validators as nat, ".toml"@),
        )) + "\""@),
{
    let before = crate::deploy::local::quoted(run_commands(output_dir@, validators as nat));
    let after = crate::deploy::local::quoted(run_commands(output_dir@, (validators + 1) as nat));
    assert(after.drop_last() =~= before);
    assert(longer@ =~= command@ + " "@ + after.last());
}

} // verus!
