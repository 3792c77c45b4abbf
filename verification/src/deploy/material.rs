//! Key material of a cluster: identities, threshold dealing, and what is written of them.

use crate::formatting::{from_hex, hex};
use crate::keys::{
    deal_fixed, deal_random, private_key_from_seed, public_key_of, random_private_key,
    read_dealing_output, Dealing,
};
use crate::order::{bytes_eq, bytes_le, sort, Ranked};
use crate::validator::config::NamedBootstrapperEntry;
use vstd::prelude::*;

verus! {

/// Secondary seeds start here, past every primary seed of a cluster that is not larger.
pub const SECONDARY_SEED_OFFSET: u64 = 1_000_000;

/// Bootstrappers named in generated configs.
pub const DEFAULT_BOOTSTRAPPERS: usize = 3;

/// Why a cluster's material cannot be made.
#[derive(Debug, Clone, Copy, PartialEq, Eq, Structural)]
pub enum MaterialError {
    /// There are no primary validators to deal to.
    NoValidators,
    /// Two primary validators have the same public key.
    DuplicateKey,
}

/// The identities and the threshold dealing of a cluster.
pub struct ClusterMaterial {
    /// Encoded private keys of the primary (voting) validators.
    pub signers: Vec<Vec<u8>>,
    /// Encoded public keys of the primary validators, in dealing order.
    pub public_keys: Vec<Vec<u8>>,
    /// Encoded private keys of the secondary (non-voting) validators.
    pub secondary_signers: Vec<Vec<u8>>,
    /// Encoded public keys of the secondary validators.
    pub secondary_public_keys: Vec<Vec<u8>>,
    /// Threshold dealing over the primary validators.
    pub dealing: Dealing,
    /// Hex-encoded public key of the genesis leader.
    pub genesis_leader: String,
}

/// The hex renderings of a list of encoded keys.
pub open spec fn hex_texts(keys: Seq<Vec<u8>>) -> Seq<Seq<char>> {
    Seq::new(keys.len(), |i: int| crate::formatting::hex_text(keys[i]@))
}

/// Whether `public_keys` are the public keys of `signers`, one for one.
pub open spec fn pairs(signers: Seq<Vec<u8>>, public_keys: Seq<Vec<u8>>) -> bool {
    &&& signers.len() == public_keys.len()
    &&& forall|i: int|
        0 <= i < signers.len() ==> {
            &&& (#[trigger] signers[i])@.len() == crate::keys::PRIVATE_KEY_BYTES
            &&& public_keys[i]@ == crate::keys::derived_public_key(signers[i]@)
        }
    &&& valid_keys(public_keys)
}

/// Whether every one of `keys` is the encoding of a public key.
pub open spec fn valid_keys(keys: Seq<Vec<u8>>) -> bool {
    forall|i: int|
        0 <= i < keys.len() ==> crate::keys::encodes_public_key((#[trigger] keys[i])@)
            && keys[i]@.len() == crate::keys::PUBLIC_KEY_BYTES
}

impl ClusterMaterial {
    /// Whether the material holds together: keys pair up, the dealing covers every primary, its
    /// output reads back, and the first primary leads genesis.
    pub open spec fn well_formed(self) -> bool {
        &&& pairs(self.signers@, self.public_keys@)
        &&& pairs(self.secondary_signers@, self.secondary_public_keys@)
        &&& 0 < self.public_keys@.len() <= u32::MAX
        &&& crate::keys::blobs(self.public_keys@).no_duplicates()
        &&& self.dealing.covers(crate::keys::blobs(self.public_keys@))
        &&& self.dealing.output_reads_back(self.public_keys@.len() as u32)
        &&& self.genesis_leader@ == crate::formatting::hex_text(self.public_keys@[0]@)
    }

    /// The position of the share that belongs to `key`: the first one filed under it.
    pub open spec fn share_position(self, key: Seq<u8>) -> Option<int>
    {
        share_position_in(self.dealing.shares@, key)
    }

    /// Returns the hex-encoded public keys of the primary validators.
    pub fn primary_hex(&self) -> (list: Vec<String>)
        ensures
            crate::text::texts(list@) == hex_texts(self.public_keys@),
    {
        hex_list(&self.public_keys)
    }

    /// Returns the hex-encoded public keys of the secondary validators.
    pub fn secondary_hex(&self) -> (list: Vec<String>)
        ensures
            crate::text::texts(list@) == hex_texts(self.secondary_public_keys@),
    {
        hex_list(&self.secondary_public_keys)
    }

    /// Returns the hex-encoded group public key that consensus certificates verify against.
    pub fn simplex_verification_material_hex(&self) -> (text: String)
        ensures
            text@ == crate::formatting::hex_text(self.dealing.group_key@),
    {
        hex(self.dealing.group_key.as_slice())
    }

    /// Returns the share that belongs to `key`.
    pub fn share_for<'a>(&'a self, key: &Vec<u8>) -> (share: Option<&'a Vec<u8>>)
        ensures
            match (share, self.share_position(key@)) {
                (Some(share), Some(at)) => *share == self.dealing.shares@[at].1,
                (None, None) => true,
                _ => false,
            },
    {
        let shares = &self.dealing.shares;
        let mut i: usize = 0;
        proof {
            assert(shares@.skip(0) =~= shares@);
        }
        while i < shares.len()
            invariant
                shares == &self.dealing.shares,
                i <= shares.len(),
                share_position_in(shares@, key@) == match share_position_in(
                    shares@.skip(i as int),
                    key@,
                ) {
                    Some(at) => Some(at + i),
                    None => None,
                },
            decreases shares.len() - i,
        {
            proof {
                assert(shares@.skip(i as int)[0] == shares@[i as int]);
                assert(shares@.skip(i as int).drop_first() =~= shares@.skip(i + 1));
            }
            if bytes_eq(&shares[i].0, key) {
                return Some(&shares[i].1);
            }
            i += 1;
        }
        None
    }
}

/// The position of the first share filed under `key`.
pub open spec fn share_position_in(shares: Seq<(Vec<u8>, Vec<u8>)>, key: Seq<u8>) -> Option<int>
    decreases shares.len(),
{
    if shares.len() == 0 {
        None
    } else if shares[0].0@ == key {
        Some(0)
    } else {
        match share_position_in(shares.drop_first(), key) {
            Some(at) => Some(at + 1),
            None => None,
        }
    }
}

proof fn filed_share_is_found(shares: Seq<(Vec<u8>, Vec<u8>)>, key: Seq<u8>, at: int)
    requires
        0 <= at < shares.len(),
        shares[at].0@ == key,
    ensures
        share_position_in(shares, key) is Some,
        0 <= share_position_in(shares, key).unwrap() < shares.len(),
        shares[share_position_in(shares, key).unwrap()].0@ == key,
    decreases shares.len(),
{
    if shares[0].0@ != key {
        filed_share_is_found(shares.drop_first(), key, at - 1);
    }
}

/// Every primary validator of well-formed material has a share of its own.
pub proof fn primaries_hold_shares(material: ClusterMaterial, index: int)
    requires
        material.well_formed(),
        0 <= index < material.public_keys@.len(),
    ensures
        material.share_position(material.public_keys@[index]@) is Some,
        ({
            let at = material.share_position(material.public_keys@[index]@).unwrap();
            &&& 0 <= at < material.dealing.shares@.len()
            &&& material.dealing.shares@[at].0@ == material.public_keys@[index]@
        }),
{
    let keys = crate::keys::blobs(material.public_keys@);
    let shares = material.dealing.shares@;
    assert(keys[index] == material.public_keys@[index]@);
    let at = choose|j: int| 0 <= j < shares.len() && (#[trigger] shares[j]).0@ == keys[index];
    filed_share_is_found(shares, keys[index], at);
}

fn hex_list(keys: &Vec<Vec<u8>>) -> (list: Vec<String>)
    ensures
        crate::text::texts(list@) == hex_texts(keys@),
{
    let mut list: Vec<String> = Vec::new();
    let mut i: usize = 0;
    while i < keys.len()
        invariant
            i <= keys.len(),
            list@.len() == i,
            forall|j: int|
                0 <= j < i ==> (#[trigger] list@[j])@ == crate::formatting::hex_text(keys@[j]@),
        decreases keys.len() - i,
    {
        list.push(hex(keys[i].as_slice()));
        i += 1;
    }
    proof {
        assert(crate::text::texts(list@) =~= hex_texts(keys@));
    }
    list
}

/// Seeds of the primary validators of a local cluster.
pub open spec fn primary_seed(index: int) -> u64 {
    index as u64
}

/// Seeds of the secondary validators of a local cluster.
pub open spec fn secondary_seed(index: int) -> u64 {
    (SECONDARY_SEED_OFFSET + index) as u64
}

/// No primary of a local cluster shares its seed with a secondary.
pub proof fn local_seeds_are_disjoint(validators: u32, primary: int, secondary: int)
    requires
        validators <= SECONDARY_SEED_OFFSET,
        0 <= primary < validators,
        0 <= secondary <= u32::MAX,
    ensures
        primary_seed(primary) != secondary_seed(secondary),
{
}

/// The encoded private keys of the seeds from `start` on.
pub open spec fn seeded_keys(start: u64, count: nat) -> Seq<Seq<u8>> {
    Seq::new(count, |i: int| crate::keys::seeded_private_key((start + i) as u64))
}

/// The public keys of encoded private keys.
pub open spec fn derived_keys(signers: Seq<Seq<u8>>) -> Seq<Seq<u8>> {
    Seq::new(signers.len(), |i: int| crate::keys::derived_public_key(signers[i]))
}

fn seeded_signers(start: u64, count: u32) -> (signers: Vec<Vec<u8>>)
    requires
        start + count <= u64::MAX,
    ensures
        crate::keys::blobs(signers@) == seeded_keys(start, count as nat),
        forall|i: int|
            0 <= i < signers@.len() ==> (#[trigger] signers@[i])@.len()
                == crate::keys::PRIVATE_KEY_BYTES,
{
    let mut signers: Vec<Vec<u8>> = Vec::new();
    let mut i: u32 = 0;
    while i < count
        invariant
            i <= count,
            start + count <= u64::MAX,
            signers@.len() == i,
            forall|j: int|
                0 <= j < i ==> (#[trigger] signers@[j])@ == crate::keys::seeded_private_key(
                    (start + j) as u64,
                ) && signers@[j]@.len() == crate::keys::PRIVATE_KEY_BYTES,
        decreases count - i,
    {
        signers.push(private_key_from_seed(start + i as u64));
        i += 1;
    }
    proof {
        assert(crate::keys::blobs(signers@) =~= seeded_keys(start, count as nat));
    }
    signers
}

fn public_keys_of(signers: &Vec<Vec<u8>>) -> (public_keys: Vec<Vec<u8>>)
    requires
        forall|i: int|
            0 <= i < signers@.len() ==> (#[trigger] signers@[i])@.len()
                == crate::keys::PRIVATE_KEY_BYTES,
    ensures
        pairs(signers@, public_keys@),
        crate::keys::blobs(public_keys@) == derived_keys(crate::keys::blobs(signers@)),
{
    let mut public_keys: Vec<Vec<u8>> = Vec::new();
    let mut i: usize = 0;
    while i < signers.len()
        invariant
            i <= signers.len(),
            public_keys@.len() == i,
            forall|j: int|
                0 <= j < signers@.len() ==> (#[trigger] signers@[j])@.len()
                    == crate::keys::PRIVATE_KEY_BYTES,
            forall|j: int|
                0 <= j < i ==> {
                    &&& (#[trigger] public_keys@[j])@ == crate::keys::derived_public_key(
                        signers@[j]@,
                    )
                    &&& crate::keys::encodes_public_key(public_keys@[j]@)
                    &&& public_keys@[j]@.len() == crate::keys::PUBLIC_KEY_BYTES
                },
        decreases signers.len() - i,
    {
        public_keys.push(public_key_of(&signers[i]));
        i += 1;
    }
    proof {
        assert(crate::keys::blobs(public_keys@) =~= derived_keys(crate::keys::blobs(signers@)));
    }
    public_keys
}

/// Why a dealing over `public_keys` fails.
pub open spec fn dealing_failure(public_keys: Seq<Seq<u8>>) -> MaterialError {
    if public_keys.len() == 0 {
        MaterialError::NoValidators
    } else {
        MaterialError::DuplicateKey
    }
}

/// Puts a cluster's material together around a dealing to its primaries.
///
/// The dealing runs over primary validators only; secondaries hold identities but no share.
pub fn build_cluster_material(
    signers: Vec<Vec<u8>>,
    public_keys: Vec<Vec<u8>>,
    secondary_signers: Vec<Vec<u8>>,
    secondary_public_keys: Vec<Vec<u8>>,
    dealing: Option<Dealing>,
) -> (material: Result<ClusterMaterial, MaterialError>)
    requires
        pairs(signers@, public_keys@),
        pairs(secondary_signers@, secondary_public_keys@),
        public_keys@.len() <= u32::MAX,
        match dealing {
            Some(dealing) => {
                &&& crate::keys::can_deal(crate::keys::blobs(public_keys@))
                &&& dealing.covers(crate::keys::blobs(public_keys@))
                &&& dealing.output_reads_back(public_keys@.len() as u32)
            },
            None => !crate::keys::can_deal(crate::keys::blobs(public_keys@)),
        },
    ensures
        match material {
            Ok(material) => {
                &&& dealing == Some(material.dealing)
                &&& material.well_formed()
                &&& material.signers == signers
                &&& material.public_keys == public_keys
                &&& material.secondary_signers == secondary_signers
                &&& material.secondary_public_keys == secondary_public_keys
            },
            Err(error) => dealing is None && error == dealing_failure(
                crate::keys::blobs(public_keys@),
            ),
        },
{
    match dealing {
        Some(dealing) => {
            let genesis_leader = hex(public_keys[0].as_slice());
            Ok(
                ClusterMaterial {
                    signers,
                    public_keys,
                    secondary_signers,
                    secondary_public_keys,
                    dealing,
                    genesis_leader,
                },
            )
        },
        None => Err(
            if public_keys.len() == 0 {
                MaterialError::NoValidators
            } else {
                MaterialError::DuplicateKey
            },
        ),
    }
}

/// Makes the reproducible material of a local cluster.
pub fn generate_local_cluster_material(validators: u32, secondaries: u32) -> (material: Result<
    ClusterMaterial,
    MaterialError,
>)
    ensures
        ({
            let signers = seeded_keys(0, validators as nat);
            let secondary = seeded_keys(SECONDARY_SEED_OFFSET, secondaries as nat);
            match material {
                Ok(material) => {
                    &&& crate::keys::can_deal(derived_keys(signers))
                    &&& material.well_formed()
                    &&& crate::keys::blobs(material.signers@) == signers
                    &&& crate::keys::blobs(material.secondary_signers@) == secondary
                    &&& material.dealing.contents() == crate::keys::fixed_dealing(
                        derived_keys(signers),
                    )
                },
                Err(error) => {
                    &&& !crate::keys::can_deal(derived_keys(signers))
                    &&& error == dealing_failure(derived_keys(signers))
                },
            }
        }),
{
    let signers = seeded_signers(0, validators);
    let secondary_signers = seeded_signers(SECONDARY_SEED_OFFSET, secondaries);
    let public_keys = public_keys_of(&signers);
    let secondary_public_keys = public_keys_of(&secondary_signers);
    let dealing = deal_fixed(&public_keys);
    build_cluster_material(
        signers,
        public_keys,
        secondary_signers,
        secondary_public_keys,
        dealing,
    )
}

/// An identity, ordered by its public key.
pub struct Identity {
    /// Encoded private key.
    pub signer: Vec<u8>,
    /// Encoded public key.
    pub public_key: Vec<u8>,
}

impl Ranked for Identity {
    open spec fn at_most(&self, other: &Self) -> bool {
        crate::order::bytes_at_most(self.public_key@, other.public_key@)
    }

    proof fn total(left: &Self, right: &Self) {
        crate::order::lex_is_total(
            left.public_key@,
            right.public_key@,
            |byte: u8| byte as int,
        );
    }

    proof fn transitive(a: &Self, b: &Self, c: &Self) {
        crate::order::lex_is_transitive(
            a.public_key@,
            b.public_key@,
            c.public_key@,
            |byte: u8| byte as int,
        );
    }

    fn le(&self, other: &Self) -> (ordered: bool) {
        bytes_le(&self.public_key, &other.public_key)
    }
}

/// Whether an identity's public key belongs to its private key.
pub open spec fn genuine(identity: Identity) -> bool {
    &&& identity.signer@.len() == crate::keys::PRIVATE_KEY_BYTES
    &&& identity.public_key@.len() == crate::keys::PUBLIC_KEY_BYTES
    &&& identity.public_key@ == crate::keys::derived_public_key(identity.signer@)
    &&& crate::keys::encodes_public_key(identity.public_key@)
}

/// Whether byte strings stand in ascending order.
pub open spec fn keys_ascend(keys: Seq<Vec<u8>>) -> bool {
    forall|i: int, j: int|
        0 <= i < j < keys.len() ==> crate::order::bytes_at_most(
            (#[trigger] keys[i])@,
            (#[trigger] keys[j])@,
        )
}

/// Splits identities into their private and public keys, in ascending order of the public keys.
pub fn order_identities(identities: Vec<Identity>) -> (split: (Vec<Vec<u8>>, Vec<Vec<u8>>))
    requires
        forall|i: int| 0 <= i < identities@.len() ==> genuine(#[trigger] identities@[i]),
    ensures
        pairs(split.0@, split.1@),
        keys_ascend(split.1@),
        identities_of(split.0@, split.1@).to_multiset() == identities@.to_multiset(),
        split.0@.len() == identities@.len(),
{
    let ghost given = identities@;
    let mut sorted = sort(identities);
    let ghost all = sorted@;
    proof {
        broadcast use vstd::seq_lib::group_to_multiset_ensures;
        assert forall|i: int| 0 <= i < all.len() implies genuine(#[trigger] all[i]) by {
            assert(all.contains(all[i]));
            assert(given.to_multiset().count(all[i]) > 0);
            assert(given.contains(all[i]));
        }
    }
    let mut signers: Vec<Vec<u8>> = Vec::new();
    let mut public_keys: Vec<Vec<u8>> = Vec::new();
    while sorted.len() > 0
        invariant
            signers@.len() == public_keys@.len(),
            signers@.len() + sorted@.len() == all.len(),
            sorted@ == all.skip(signers@.len() as int),
            forall|i: int|
                0 <= i < signers@.len() ==> #[trigger] signers@[i] == all[i].signer
                    && public_keys@[i] == all[i].public_key,
        decreases sorted.len(),
    {
        let identity = sorted.remove(0);
        proof {
            assert(identity == all[signers@.len() as int]);
            assert(sorted@ =~= all.skip(signers@.len() as int + 1));
        }
        signers.push(identity.signer);
        public_keys.push(identity.public_key);
    }
    proof {
        assert(identities_of(signers@, public_keys@) =~= all);
        assert forall|i: int, j: int| 0 <= i < j < public_keys@.len() implies crate::order::bytes_at_most(
            (#[trigger] public_keys@[i])@,
            (#[trigger] public_keys@[j])@,
        ) by {
            assert(signers@[i] == all[i].signer);
            assert(signers@[j] == all[j].signer);
            assert(all[i].at_most(&all[j]));
        }
        assert forall|i: int| 0 <= i < signers@.len() implies {
            &&& (#[trigger] signers@[i])@.len() == crate::keys::PRIVATE_KEY_BYTES
            &&& public_keys@[i]@ == crate::keys::derived_public_key(signers@[i]@)
        } by {
            assert(genuine(all[i]));
        }
        assert forall|i: int|
            0 <= i < public_keys@.len() implies crate::keys::encodes_public_key(
            (#[trigger] public_keys@[i])@,
        ) && public_keys@[i]@.len() == crate::keys::PUBLIC_KEY_BYTES by {
            assert(signers@[i] == all[i].signer);
            assert(genuine(all[i]));
        }
    }
    (signers, public_keys)
}

fn random_identities(count: u32) -> (identities: Vec<Identity>)
    ensures
        identities@.len() == count,
        forall|i: int| 0 <= i < identities@.len() ==> genuine(#[trigger] identities@[i]),
{
    let mut identities: Vec<Identity> = Vec::new();
    let mut i: u32 = 0;
    while i < count
        invariant
            i <= count,
            identities@.len() == i,
            forall|j: int| 0 <= j < identities@.len() ==> genuine(#[trigger] identities@[j]),
        decreases count - i,
    {
        let signer = random_private_key();
        let public_key = public_key_of(&signer);
        identities.push(Identity { signer, public_key });
        i += 1;
    }
    identities
}

/// Whether no two identities have the same public key.
pub open spec fn distinct_identities(identities: Seq<Identity>) -> bool {
    forall|i: int, j: int|
        0 <= i < j < identities.len() ==> (#[trigger] identities[i]).public_key@ != (
        #[trigger] identities[j]).public_key@
}

/// The identities of private keys and their public keys.
pub open spec fn identities_of(signers: Seq<Vec<u8>>, public_keys: Seq<Vec<u8>>) -> Seq<Identity> {
    Seq::new(
        signers.len(),
        |i: int| Identity { signer: signers[i], public_key: public_keys[i] },
    )
}

/// Whether the keys of a list differ does not depend on the order of the list.
proof fn reordering_keeps_distinction(left: Seq<Identity>, right: Seq<Identity>)
    requires
        left.to_multiset() == right.to_multiset(),
        distinct_identities(left),
    ensures
        distinct_identities(right),
{
    assert forall|i: int, j: int| 0 <= i < j < right.len() implies (
    #[trigger] right[i]).public_key@ != (#[trigger] right[j]).public_key@ by {
        let (a, b) = crate::order::both_are_placed(right, left, i, j);
        if a < b {
            assert(left[a].public_key@ != left[b].public_key@);
        } else {
            assert(left[b].public_key@ != left[a].public_key@);
        }
    }
}

/// Puts a cluster's material together from the identities of its nodes, dealing shares to the
/// primaries with the system's randomness. This fails exactly without primaries, or where two of them
/// have the same key.
pub fn assemble_cluster_material(primaries: Vec<Identity>, secondaries: Vec<Identity>) -> (material:
    Result<ClusterMaterial, MaterialError>)
    requires
        primaries@.len() <= u32::MAX,
        forall|i: int| 0 <= i < primaries@.len() ==> genuine(#[trigger] primaries@[i]),
        forall|i: int| 0 <= i < secondaries@.len() ==> genuine(#[trigger] secondaries@[i]),
    ensures
        match material {
            Ok(material) => {
                &&& primaries@.len() > 0
                &&& distinct_identities(primaries@)
                &&& material.well_formed()
                &&& keys_ascend(material.public_keys@)
                &&& keys_ascend(material.secondary_public_keys@)
                &&& material.signers@.len() == primaries@.len()
                &&& material.secondary_signers@.len() == secondaries@.len()
                &&& identities_of(material.signers@, material.public_keys@).to_multiset()
                    == primaries@.to_multiset()
                &&& identities_of(
                    material.secondary_signers@,
                    material.secondary_public_keys@,
                ).to_multiset() == secondaries@.to_multiset()
            },
            Err(MaterialError::NoValidators) => primaries@.len() == 0,
            Err(MaterialError::DuplicateKey) => !distinct_identities(primaries@),
        },
{
    let ghost given = primaries@;
    let (signers, public_keys) = order_identities(primaries);
    let (secondary_signers, secondary_public_keys) = order_identities(secondaries);
    proof {
        let ordered = identities_of(signers@, public_keys@);
        let keys = crate::keys::blobs(public_keys@);
        if distinct_identities(given) {
            reordering_keeps_distinction(given, ordered);
            assert forall|i: int, j: int| 0 <= i < j < keys.len() implies #[trigger] keys[i]
                != #[trigger] keys[j] by {
                assert(ordered[i].public_key@ != ordered[j].public_key@);
            }
            assert(keys.no_duplicates());
        }
        if keys.no_duplicates() {
            assert forall|i: int, j: int| 0 <= i < j < ordered.len() implies (
            #[trigger] ordered[i]).public_key@ != (#[trigger] ordered[j]).public_key@ by {
                assert(keys[i] != keys[j]);
            }
            reordering_keeps_distinction(ordered, given);
        }
    }
    let dealing = deal_random(&public_keys);
    build_cluster_material(
        signers,
        public_keys,
        secondary_signers,
        secondary_public_keys,
        dealing,
    )
}

/// Makes the material of a remote cluster from the system's randomness.
///
/// Which keys come is left to chance; they are in ascending order of their public keys. A single
/// validator always gets its material; among several, two may draw the same key.
pub fn generate_remote_cluster_material(validators: u32, secondaries: u32) -> (material: Result<
    ClusterMaterial,
    MaterialError,
>)
    ensures
        match material {
            Ok(material) => {
                &&& validators > 0
                &&& material.well_formed()
                &&& material.signers@.len() == validators
                &&& material.secondary_signers@.len() == secondaries
                &&& keys_ascend(material.public_keys@)
                &&& keys_ascend(material.secondary_public_keys@)
            },
            Err(MaterialError::NoValidators) => validators == 0,
            Err(MaterialError::DuplicateKey) => validators >= 2,
        },
        validators == 1 ==> material is Ok,
{
    assemble_cluster_material(random_identities(validators), random_identities(secondaries))
}

/// Why a config gives no verification material.
#[derive(Debug, Clone, Copy, PartialEq, Eq, Structural)]
pub enum SimplexMaterialError {
    /// The dealing output is not hexadecimal text.
    BadHex,
    /// The config names no validators.
    NoValidators,
    /// The dealing output does not decode.
    BadOutput,
}

/// The verification material that a config's dealing output holds.
pub open spec fn simplex_material_in(dkg_output: Seq<char>, num_validators: u32) -> Result<
    Seq<char>,
    SimplexMaterialError,
> {
    match crate::formatting::hex_bytes(dkg_output) {
        None => Err(SimplexMaterialError::BadHex),
        Some(bytes) => if num_validators == 0 {
            Err(SimplexMaterialError::NoValidators)
        } else {
            match crate::keys::dealing_output_in(bytes, num_validators) {
                None => Err(SimplexMaterialError::BadOutput),
                Some((_, group_key)) => Ok(crate::formatting::hex_text(group_key)),
            }
        },
    }
}

/// Reads the verification material out of a config's dealing output.
pub fn simplex_verification_material_from_config(dkg_output: &str, num_validators: u32) -> (text:
    Result<String, SimplexMaterialError>)
    ensures
        match text {
            Ok(text) => simplex_material_in(dkg_output@, num_validators) == Ok::<
                Seq<char>,
                SimplexMaterialError,
            >(text@),
            Err(error) => simplex_material_in(dkg_output@, num_validators) == Err::<
                Seq<char>,
                SimplexMaterialError,
            >(error),
        },
{
    let bytes = match from_hex(dkg_output) {
        Some(bytes) => bytes,
        None => return Err(SimplexMaterialError::BadHex),
    };
    if num_validators == 0 {
        return Err(SimplexMaterialError::NoValidators);
    }
    match read_dealing_output(&bytes, num_validators) {
        Some((_, group_key)) => Ok(hex(group_key.as_slice())),
        None => Err(SimplexMaterialError::BadOutput),
    }
}

/// The verification material read out of a written dealing output is the material of the cluster.
pub proof fn written_output_gives_material(material: ClusterMaterial)
    requires
        material.well_formed(),
    ensures
        simplex_material_in(
            crate::formatting::hex_text(material.dealing.output@),
            material.public_keys@.len() as u32,
        ) == Ok::<Seq<char>, SimplexMaterialError>(
            crate::formatting::hex_text(material.dealing.group_key@),
        ),
{
    crate::formatting::hex_round_trip(material.dealing.output@);
}

/// Whether an entry names the key at `index`, by its hex rendering.
pub open spec fn names_key(entry: NamedBootstrapperEntry, key: Seq<u8>) -> bool {
    &&& entry.public_key@ == crate::formatting::hex_text(key)
    &&& entry.name@ == crate::formatting::hex_text(key)
}

/// Whether `entries` are the first few of `public_keys`.
pub open spec fn bootstraps(entries: Seq<NamedBootstrapperEntry>, public_keys: Seq<Vec<u8>>) -> bool {
    &&& entries.len() == if public_keys.len() < DEFAULT_BOOTSTRAPPERS {
        public_keys.len()
    } else {
        DEFAULT_BOOTSTRAPPERS as nat
    }
    &&& forall|i: int|
        0 <= i < entries.len() ==> names_key(#[trigger] entries[i], public_keys[i]@)
}

/// Returns the bootstrappers of a cluster: its first few primaries.
pub fn default_bootstrappers(public_keys: &Vec<Vec<u8>>) -> (entries: Vec<NamedBootstrapperEntry>)
    ensures
        bootstraps(entries@, public_keys@),
{
    let mut entries: Vec<NamedBootstrapperEntry> = Vec::new();
    let mut i: usize = 0;
    while i < public_keys.len() && i < DEFAULT_BOOTSTRAPPERS
        invariant
            i <= public_keys.len(),
            i <= DEFAULT_BOOTSTRAPPERS,
            entries@.len() == i,
            forall|j: int| 0 <= j < i ==> names_key(#[trigger] entries@[j], public_keys@[j]@),
        decreases public_keys.len() - i,
    {
        let name = hex(public_keys[i].as_slice());
        entries.push(NamedBootstrapperEntry { public_key: name.clone(), name });
        i += 1;
    }
    entries
}

/// What [`generate_local_cluster_material`] makes is reproducible: the private key of the primary at
/// an index is that of the seed with the same number, whatever the size of the cluster, and those of
/// the secondaries count up from one million. The first primary leads genesis.
pub proof fn local_keys_come_from_seeds(
    validators: u32,
    secondaries: u32,
    material: ClusterMaterial,
    index: int,
)
    requires
        call_ensures(
            generate_local_cluster_material,
            (validators, secondaries),
            Ok::<ClusterMaterial, MaterialError>(material),
        ),
    ensures
        material.signers@.len() == validators,
        material.public_keys@.len() == validators,
        material.secondary_signers@.len() == secondaries,
        material.secondary_public_keys@.len() == secondaries,
        0 <= index < validators ==> {
            let signer = crate::keys::seeded_private_key(index as u64);
            &&& material.signers@[index]@ == signer
            &&& material.public_keys@[index]@ == crate::keys::derived_public_key(signer)
        },
        0 <= index < secondaries ==> {
            let signer = crate::keys::seeded_private_key((1_000_000 + index) as u64);
            &&& material.secondary_signers@[index]@ == signer
            &&& material.secondary_public_keys@[index]@ == crate::keys::derived_public_key(signer)
        },
        material.genesis_leader@ == crate::formatting::hex_text(
            crate::keys::derived_public_key(crate::keys::seeded_private_key(0)),
        ),
{
    let primaries = crate::keys::blobs(material.signers@);
    let others = crate::keys::blobs(material.secondary_signers@);
    assert(primaries.len() == material.signers@.len());
    assert(others.len() == material.secondary_signers@.len());
    assert(primaries[0] == material.signers@[0]@);
    assert(material.public_keys@[0]@ == crate::keys::derived_public_key(material.signers@[0]@));
    if 0 <= index < validators {
        assert(primaries[index] == material.signers@[index]@);
    }
    if 0 <= index < secondaries {
        assert(others[index] == material.secondary_signers@[index]@);
    }
}

/// A cluster bootstraps from its first three primaries, or from all of them where there are fewer,
/// each under the hex rendering of its key.
pub proof fn first_primaries_bootstrap(
    public_keys: Vec<Vec<u8>>,
    entries: Vec<NamedBootstrapperEntry>,
    index: int,
)
    requires
        call_ensures(default_bootstrappers, (&public_keys,), entries),
    ensures
        entries@.len() <= 3,
        public_keys@.len() >= 3 ==> entries@.len() == 3,
        public_keys@.len() < 3 ==> entries@.len() == public_keys@.len(),
        0 <= index < entries@.len() ==> {
            &&& crate::formatting::hex_bytes(entries@[index].public_key@) == Some(
                public_keys@[index]@,
            )
            &&& entries@[index].name@ == entries@[index].public_key@
        },
{
    if 0 <= index < entries@.len() {
        assert(names_key(entries@[index], public_keys@[index]@));
        crate::formatting::hex_round_trip(public_keys@[index]@);
    }
}

/// Material that is assembled keeps every identity, orders them by their public keys, pairs every
/// private key with its own public key, and lets the lowest key lead genesis. It is assembled exactly
/// if there is a primary and no two of them have the same key.
pub proof fn assembled_material_is_in_order(
    primaries: Vec<Identity>,
    secondaries: Vec<Identity>,
    outcome: Result<ClusterMaterial, MaterialError>,
    index: int,
)
    requires
        call_ensures(assemble_cluster_material, (primaries, secondaries), outcome),
    ensures
        outcome is Ok <==> primaries@.len() > 0 && distinct_identities(primaries@),
        outcome matches Ok(material) ==> {
            &&& material.public_keys@.len() == primaries@.len()
            &&& material.secondary_public_keys@.len() == secondaries@.len()
            &&& 0 <= index < primaries@.len() ==> {
                &&& crate::order::bytes_at_most(
                    material.public_keys@[0]@,
                    material.public_keys@[index]@,
                )
                &&& material.public_keys@[index]@ == crate::keys::derived_public_key(
                    material.signers@[index]@,
                )
                &&& exists|i: int|
                    0 <= i < primaries@.len() && (#[trigger] primaries@[i]).signer
                        == material.signers@[index] && primaries@[i].public_key
                        == material.public_keys@[index]
            }
            &&& crate::formatting::hex_bytes(material.genesis_leader@) == Some(
                material.public_keys@[0]@,
            )
        },
{
    if let Ok(material) = outcome {
        crate::formatting::hex_round_trip(material.public_keys@[0]@);
        if 0 <= index < primaries@.len() {
            broadcast use vstd::seq_lib::group_to_multiset_ensures;

            let all = identities_of(material.signers@, material.public_keys@);
            assert(all.contains(all[index]));
            assert(primaries@.to_multiset().count(all[index]) > 0);
            let i = choose|i: int| 0 <= i < primaries@.len() && primaries@[i] == all[index];
            assert(primaries@[i].signer == material.signers@[index]);
            crate::order::lex_is_total(
                material.public_keys@[0]@,
                material.public_keys@[0]@,
                |byte: u8| byte as int,
            );
        }
    }
}

} // verus!
