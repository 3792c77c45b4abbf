//! Spammer configuration: endpoints by validator name.

use crate::spammer::spam::Args;
use crate::text::push_decimal;
use crate::validator::config::{find_host, HostEntry, PeerEntry};
use vstd::prelude::*;

verus! {

/// Configuration of the ring spammer.
#[derive(Debug, Clone)]
pub struct SpammerConfig {
    pub count: usize,
    pub validator_names: Vec<String>,
    pub http_port: u16,
    pub seed_start: u64,
    pub nonce: u64,
}

/// The first name without an address.
pub open spec fn first_missing(
    entries: Seq<(Seq<char>, Seq<char>)>,
    names: Seq<Seq<char>>,
) -> Option<Seq<char>>
    decreases names.len(),
{
    if names.len() == 0 {
        None
    } else {
        match first_missing(entries, names.drop_last()) {
            Some(name) => Some(name),
            None => if crate::validator::config::address_of(entries, names.last()) is None {
                Some(names.last())
            } else {
                None
            },
        }
    }
}

/// The endpoints of validators, in the order of their names.
pub open spec fn endpoint_urls(
    entries: Seq<(Seq<char>, Seq<char>)>,
    names: Seq<Seq<char>>,
    suffix: Seq<char>,
) -> Seq<Seq<char>> {
    Seq::new(
        names.len(),
        |i: int|
            "http://"@ + crate::validator::config::address_of(entries, names[i]).unwrap() + suffix,
    )
}

/// Returns the endpoints of validators in the order of their names, or the first name without an
/// address.
fn endpoints_by_name(names: &Vec<String>, hosts: &Vec<HostEntry>, suffix: &str) -> (endpoints:
    Result<Vec<String>, String>)
    ensures
        ({
            let entries = crate::validator::config::host_addresses(hosts@);
            match endpoints {
                Ok(endpoints) => {
                    &&& first_missing(entries, crate::text::texts(names@)) is None
                    &&& crate::text::texts(endpoints@) == endpoint_urls(
                        entries,
                        crate::text::texts(names@),
                        suffix@,
                    )
                },
                Err(name) => first_missing(entries, crate::text::texts(names@)) == Some(name@),
            }
        }),
{
    let ghost entries = crate::validator::config::host_addresses(hosts@);
    let ghost all = crate::text::texts(names@);
    let mut endpoints: Vec<String> = Vec::new();
    let mut i: usize = 0;
    proof {
        assert(all.take(0) =~= Seq::<Seq<char>>::empty());
    }
    while i < names.len()
        invariant
            i <= names@.len(),
            entries == crate::validator::config::host_addresses(hosts@),
            all == crate::text::texts(names@),
            first_missing(entries, all.take(i as int)) is None,
            endpoints@.len() == i,
            forall|k: int|
                0 <= k < i ==> (#[trigger] endpoints@[k])@ == endpoint_urls(
                    entries,
                    all,
                    suffix@,
                )[k],
        decreases names@.len() - i,
    {
        proof {
            assert(all.take(i + 1).drop_last() =~= all.take(i as int));
            assert(all.take(i + 1).last() == names@[i as int]@);
        }
        let ip = match find_host(hosts, &names[i]) {
            Some(ip) => ip,
            None => {
                proof {
                    missing_stays_first(entries, all, i + 1);
                }
                return Err(names[i].clone());
            },
        };
        let mut endpoint = "http://".to_string();
        endpoint.append(ip.as_str());
        endpoint.append(suffix);
        endpoints.push(endpoint);
        i += 1;
    }
    proof {
        assert(all.take(i as int) =~= all);
        assert(crate::text::texts(endpoints@) =~= endpoint_urls(entries, all, suffix@));
    }
    Ok(endpoints)
}

/// A name that is missing first among some names is missing first among more.
proof fn missing_stays_first(
    entries: Seq<(Seq<char>, Seq<char>)>,
    names: Seq<Seq<char>>,
    count: int,
)
    requires
        0 <= count <= names.len(),
        first_missing(entries, names.take(count)) is Some,
    ensures
        first_missing(entries, names) == first_missing(entries, names.take(count)),
    decreases names.len(),
{
    if count < names.len() {
        assert(names.drop_last().take(count) =~= names.take(count));
        missing_stays_first(entries, names.drop_last(), count);
    } else {
        assert(names.take(count) =~= names);
    }
}

fn missing_text(prefix: &str, name: &String) -> (text: String)
    ensures
        text@ == prefix@ + name@ + "'"@,
{
    let mut text = prefix.to_string();
    text.append(name.as_str());
    text.append("'");
    text
}

/// Whether `loaded` is what a configuration gives when its validators are found among `entries`.
pub open spec fn loads_args(
    loaded: Result<Args, String>,
    config: SpammerConfig,
    entries: Seq<(Seq<char>, Seq<char>)>,
    suffix: Seq<char>,
    missing: Seq<char>,
) -> bool {
    let names = crate::text::texts(config.validator_names@);
    match first_missing(entries, names) {
        Some(name) => loaded matches Err(reason) && reason@ == missing + name + "'"@,
        None => match crate::spammer::spam::args_rejection(config.count, names.len()) {
            Some(rejection) => loaded matches Err(reason) && reason@ == rejection,
            None => {
                &&& loaded matches Ok(args)
                &&& args.well_formed()
                &&& args.count == config.count
                &&& args.seed_start == config.seed_start
                &&& args.nonce == config.nonce
                &&& crate::text::texts(args.endpoints@) == endpoint_urls(entries, names, suffix)
            },
        },
    }
}

/// Loads the arguments of a local run: validators are found among the peers, the last of a name
/// counting.
pub fn load_local_args(peers: &Vec<PeerEntry>, config: SpammerConfig) -> (args: Result<
    Args,
    String,
>)
    ensures
        loads_args(args, config, crate::validator::config::http_addresses(peers@), ""@, "missing validator peer '"@),
{
    let mut hosts: Vec<HostEntry> = Vec::new();
    let mut i: usize = 0;
    while i < peers.len()
        invariant
            i <= peers@.len(),
            hosts@.len() == i,
            forall|k: int|
                0 <= k < i ==> (#[trigger] hosts@[k]).name == peers@[k].name && hosts@[k].ip
                    == peers@[k].http,
        decreases peers@.len() - i,
    {
        hosts.push(HostEntry { name: peers[i].name.clone(), ip: peers[i].http.clone() });
        i += 1;
    }
    proof {
        assert(crate::validator::config::host_addresses(hosts@) =~= crate::validator::config::http_addresses(peers@));
        reveal_strlit("");
    }
    match endpoints_by_name(&config.validator_names, &hosts, "") {
        Ok(endpoints) => {
            proof {
                assert(crate::text::texts(endpoints@).len() == endpoints@.len());
            }
            Args::new(config.count, endpoints, config.seed_start, config.nonce)
        },
        Err(name) => Err(missing_text("missing validator peer '", &name)),
    }
}

/// The port part of an endpoint.
pub open spec fn port_suffix(port: u16) -> Seq<char> {
    ":"@ + crate::text::decimal(port as nat)
}

/// Loads the arguments of a remote run: validators are found among the hosts, the last of a name
/// counting.
pub fn load_remote_args(hosts: &Vec<HostEntry>, config: SpammerConfig) -> (args: Result<
    Args,
    String,
>)
    ensures
        loads_args(
            args,
            config,
            crate::validator::config::host_addresses(hosts@),
            port_suffix(config.http_port),
            "missing validator host '"@,
        ),
{
    let mut suffix = ":".to_string();
    push_decimal(&mut suffix, config.http_port as u64);
    match endpoints_by_name(&config.validator_names, hosts, suffix.as_str()) {
        Ok(endpoints) => {
            proof {
                assert(crate::text::texts(endpoints@).len() == endpoints@.len());
            }
            Args::new(config.count, endpoints, config.seed_start, config.nonce)
        },
        Err(name) => Err(missing_text("missing validator host '", &name)),
    }
}

/// Configuration of a ring spammer with a fixed rate.
#[derive(Debug, Clone)]
pub struct RemoteSpamConfig {
    pub spammer: SpammerConfig,
    pub tps: u32,
}

/// What a ring spammer with a fixed rate runs with.
#[derive(Debug)]
pub struct RatedArgs {
    pub args: Args,
    pub tps: u32,
}

/// Loads the arguments of a remote run with a fixed rate.
pub fn load_args(hosts: &Vec<HostEntry>, config: RemoteSpamConfig) -> (args: Result<
    RatedArgs,
    String,
>)
    ensures
        exists|loaded: Result<Args, String>|
            {
                &&& #[trigger] loads_args(
                    loaded,
                    config.spammer,
                    crate::validator::config::host_addresses(hosts@),
                    port_suffix(config.spammer.http_port),
                    "missing validator host '"@,
                )
                &&& match (loaded, args) {
                    (Err(reason), Err(cause)) => reason == cause,
                    (Ok(inner), Ok(rated)) => config.tps > 0 && rated.args == inner && rated.tps
                        == config.tps,
                    (Ok(_), Err(reason)) => config.tps == 0 && reason@ == "tps must be non-zero"@,
                    _ => false,
                }
            },
{
    let tps: u32 = config.tps;
    let loaded = load_remote_args(hosts, config.spammer);
    let ghost inner = loaded;
    let args = match loaded {
        Ok(args) => if tps == 0 {
            Err("tps must be non-zero".to_string())
        } else {
            Ok(RatedArgs { args, tps })
        },
        Err(reason) => Err(reason),
    };
    proof {
        assert(loads_args(
            inner,
            config.spammer,
            crate::validator::config::host_addresses(hosts@),
            port_suffix(config.spammer.http_port),
            "missing validator host '"@,
        ));
    }
    args
}

/// Endpoints keep the order in which the configuration names the validators.
pub proof fn endpoints_follow_names(
    entries: Seq<(Seq<char>, Seq<char>)>,
    names: Seq<Seq<char>>,
    suffix: Seq<char>,
    index: int,
)
    requires
        first_missing(entries, names) is None,
        0 <= index < names.len(),
    ensures
        crate::validator::config::address_of(entries, names[index]) matches Some(address)
            && endpoint_urls(entries, names, suffix)[index] == "http://"@ + address + suffix,
    decreases names.len(),
{
    if index < names.len() - 1 {
        endpoints_follow_names(entries, names.drop_last(), suffix, index);
    }
}

/// The ring spammer of a local run submits to each validator where the last peer of that name
/// serves, in the order in which the configuration names the validators.
pub proof fn local_endpoints_are_served(
    peers: Vec<PeerEntry>,
    config: SpammerConfig,
    args: Args,
    index: int,
    at: int,
)
    requires
        call_ensures(load_local_args, (&peers, config), Ok::<Args, String>(args)),
        0 <= index < config.validator_names@.len(),
        0 <= at < peers@.len(),
        peers@[at].name@ == config.validator_names@[index]@,
        forall|later: int|
            at < later < peers@.len() ==> (#[trigger] peers@[later]).name@
                != config.validator_names@[index]@,
    ensures
        args.count == config.count,
        args.count > 0,
        args.endpoints@.len() == config.validator_names@.len(),
        args.endpoints@[index]@ == "http://"@ + peers@[at].http@,
{
    let entries = crate::validator::config::http_addresses(peers@);
    let names = crate::text::texts(config.validator_names@);
    assert(names[index] == config.validator_names@[index]@);
    assert(entries[at] == (peers@[at].name@, peers@[at].http@));
    assert forall|later: int| at < later < entries.len() implies (#[trigger] entries[later]).0
        != names[index] by {
        assert(entries[later].0 == peers@[later].name@);
    }
    crate::validator::config::last_entry_counts(entries, names[index], at);
    let urls = endpoint_urls(entries, names, ""@);
    assert(crate::text::texts(args.endpoints@) == urls);
    assert(urls.len() == names.len());
    assert(crate::text::texts(args.endpoints@).len() == args.endpoints@.len());
    assert(args.endpoints@[index]@ == urls[index]);
    reveal_strlit("");
    assert(urls[index] =~= "http://"@ + peers@[at].http@);
}

/// The ring spammer of a remote run submits to each validator at the address of the last host of
/// that name and at the configured port, in the order in which the configuration names the
/// validators.
pub proof fn remote_endpoints_are_served(
    hosts: Vec<HostEntry>,
    config: SpammerConfig,
    args: Args,
    index: int,
    at: int,
)
    requires
        call_ensures(load_remote_args, (&hosts, config), Ok::<Args, String>(args)),
        0 <= index < config.validator_names@.len(),
        0 <= at < hosts@.len(),
        hosts@[at].name@ == config.validator_names@[index]@,
        forall|later: int|
            at < later < hosts@.len() ==> (#[trigger] hosts@[later]).name@
                != config.validator_names@[index]@,
    ensures
        args.count == config.count,
        args.count > 0,
        args.endpoints@.len() == config.validator_names@.len(),
        args.endpoints@[index]@ == "http://"@ + hosts@[at].ip@ + (":"@ + crate::text::decimal(
            config.http_port as nat,
        )),
{
    let entries = crate::validator::config::host_addresses(hosts@);
    let names = crate::text::texts(config.validator_names@);
    assert(names[index] == config.validator_names@[index]@);
    assert(entries[at] == (hosts@[at].name@, hosts@[at].ip@));
    assert forall|later: int| at < later < entries.len() implies (#[trigger] entries[later]).0
        != names[index] by {
        assert(entries[later].0 == hosts@[later].name@);
    }
    crate::validator::config::last_entry_counts(entries, names[index], at);
    let urls = endpoint_urls(entries, names, port_suffix(config.http_port));
    assert(urls.len() == names.len());
    assert(crate::text::texts(args.endpoints@).len() == args.endpoints@.len());
    assert(args.endpoints@[index]@ == urls[index]);
}

/// A run with a fixed rate is loaded like one without, and refused without a rate.
pub proof fn rated_runs_need_a_rate(
    hosts: Vec<HostEntry>,
    config: RemoteSpamConfig,
    args: Result<RatedArgs, String>,
)
    requires
        call_ensures(load_args, (&hosts, config), args),
    ensures
        args matches Ok(rated) ==> {
            &&& rated.tps == config.tps
            &&& rated.tps > 0
            &&& rated.args.count == config.spammer.count
            &&& rated.args.count > 0
            &&& rated.args.endpoints@.len() == config.spammer.validator_names@.len()
            &&& rated.args.seed_start == config.spammer.seed_start
            &&& rated.args.nonce == config.spammer.nonce
        },
        config.tps == 0 ==> args is Err,
{
    if let Ok(rated) = args {
        let names = crate::text::texts(config.spammer.validator_names@);
        assert(names.len() == config.spammer.validator_names@.len());
        assert(crate::text::texts(rated.args.endpoints@).len() == rated.args.endpoints@.len());
    }
}

/// A run whose configuration names a validator that no peer is named after is refused, and the words
/// for it begin with what is missing.
pub proof fn missing_validators_are_refused(
    peers: Vec<PeerEntry>,
    config: SpammerConfig,
    args: Result<Args, String>,
    index: int,
)
    requires
        call_ensures(load_local_args, (&peers, config), args),
        0 <= index < config.validator_names@.len(),
        forall|i: int|
            0 <= i < peers@.len() ==> (#[trigger] peers@[i]).name@
                != config.validator_names@[index]@,
    ensures
        args matches Err(reason) && "missing validator peer '"@.is_prefix_of(reason@),
{
    let entries = crate::validator::config::http_addresses(peers@);
    let names = crate::text::texts(config.validator_names@);
    assert(names[index] == config.validator_names@[index]@);
    assert forall|i: int| 0 <= i < entries.len() implies (#[trigger] entries[i]).0
        != names[index] by {
        assert(entries[i].0 == peers@[i].name@);
    }
    crate::validator::config::last_entry_counts(entries, names[index], 0);
    if first_missing(entries, names) is None {
        endpoints_follow_names(entries, names, ""@, index);
    }
}

} // verus!
