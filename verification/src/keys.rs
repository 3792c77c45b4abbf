//! Ed25519 identities, threshold dealings, and digests, held as their encodings.

use commonware_codec::{Encode, Read as CodecRead, ReadExt};
use commonware_cryptography::{
    bls12381::{
        dkg::feldman_desmedt as dkg,
        primitives::{group::Share, sharing::ModeVersion, variant::MinSig},
    },
    ed25519, sha256, Hasher, Signer,
};
use commonware_math::algebra::Random;
use commonware_utils::{N3f1, TryCollect};
use rand::{rand_core::UnwrapErr, rngs::SysRng};
use std::num::NonZeroU32;
use vstd::prelude::*;

verus! {

/// Bytes of an encoded ed25519 private key.
pub const PRIVATE_KEY_BYTES: usize = 32;

/// Bytes of an encoded ed25519 public key.
pub const PUBLIC_KEY_BYTES: usize = 32;

/// The byte strings held by a list.
pub open spec fn blobs(items: Seq<Vec<u8>>) -> Seq<Seq<u8>> {
    Seq::new(items.len(), |i: int| items[i]@)
}

/// The private key that a seed stands for.
pub uninterp spec fn seeded_private_key(seed: u64) -> Seq<u8>;

/// The public key of a private key.
pub uninterp spec fn derived_public_key(private_key: Seq<u8>) -> Seq<u8>;

/// Whether bytes begin with the encoding of a public key.
pub uninterp spec fn encodes_public_key(bytes: Seq<u8>) -> bool;

/// The dealing to `public_keys` that the fixed generator makes: the output, the group public key,
/// and one share per key in ascending key order.
pub uninterp spec fn fixed_dealing(public_keys: Seq<Seq<u8>>) -> (Seq<u8>, Seq<u8>, Seq<(Seq<u8>, Seq<u8>)>);

/// The dealing output among at most `participants` that bytes begin with, and its group public key.
pub uninterp spec fn dealing_output_in(bytes: Seq<u8>, participants: u32) -> Option<(Seq<u8>, Seq<u8>)>;

/// The threshold share that bytes begin with.
pub uninterp spec fn share_in(bytes: Seq<u8>) -> Option<Seq<u8>>;

/// The SHA-256 digest of a message.
pub uninterp spec fn sha256_digest(message: Seq<u8>) -> Seq<u8>;

/// Makes the private key of a seed.
///
/// Calls `ed25519::PrivateKey::from_seed` and encodes the key, which takes 32 bytes.
#[verifier::external_body]
pub(crate) fn private_key_from_seed(seed: u64) -> (key: Vec<u8>)
    ensures
        key@ == seeded_private_key(seed),
        key@.len() == PRIVATE_KEY_BYTES,
{
    ed25519::PrivateKey::from_seed(seed).encode().to_vec()
}

/// Makes a private key from the system's randomness.
///
/// Calls `ed25519::PrivateKey::random` and encodes the key, which takes 32 bytes. Which key comes
/// is left to chance.
#[verifier::external_body]
pub(crate) fn random_private_key() -> (key: Vec<u8>)
    ensures
        key@.len() == PRIVATE_KEY_BYTES,
{
    ed25519::PrivateKey::random(UnwrapErr(SysRng)).encode().to_vec()
}

/// Computes the public key of an encoded private key.
///
/// Calls `ed25519::PrivateKey::read`, which accepts any 32 bytes, and `public_key`. The encoding
/// of a public key takes 32 bytes and reads back.
#[verifier::external_body]
pub(crate) fn public_key_of(private_key: &Vec<u8>) -> (key: Vec<u8>)
    requires
        private_key@.len() == PRIVATE_KEY_BYTES,
    ensures
        key@ == derived_public_key(private_key@),
        key@.len() == PUBLIC_KEY_BYTES,
        encodes_public_key(key@),
{
    let key = ed25519::PrivateKey::read(&mut private_key.as_slice()).expect("32 bytes are a key");
    key.public_key().encode().to_vec()
}

/// Reads a public key from the front of `bytes` and returns its encoding.
///
/// Calls `ed25519::PublicKey::read`, which takes the first 32 bytes and rejects those that are no
/// curve point. Equality of keys is equality of these bytes.
#[verifier::external_body]
pub(crate) fn read_public_key(bytes: &Vec<u8>) -> (key: Option<Vec<u8>>)
    ensures
        match key {
            Some(key) => {
                &&& encodes_public_key(bytes@)
                &&& bytes@.len() >= PUBLIC_KEY_BYTES
                &&& key@ == bytes@.take(PUBLIC_KEY_BYTES as int)
            },
            None => !encodes_public_key(bytes@),
        },
{
    let key = ed25519::PublicKey::read(&mut bytes.as_slice()).ok()?;
    Some(key.encode().to_vec())
}

/// A threshold dealing: the public output, the group public key, and the shares by public key.
pub struct Dealing {
    /// Encoded output of the dealing.
    pub output: Vec<u8>,
    /// Encoded group public key.
    pub group_key: Vec<u8>,
    /// Encoded shares, each beside the public key that it belongs to.
    pub shares: Vec<(Vec<u8>, Vec<u8>)>,
}

impl Dealing {
    /// The encodings that the dealing is made of.
    pub open spec fn contents(self) -> (Seq<u8>, Seq<u8>, Seq<(Seq<u8>, Seq<u8>)>) {
        (
            self.output@,
            self.group_key@,
            Seq::new(self.shares@.len(), |i: int| (self.shares@[i].0@, self.shares@[i].1@)),
        )
    }

    /// Whether the output reads back among at most `participants`, with the same group public key.
    pub open spec fn output_reads_back(self, participants: u32) -> bool {
        dealing_output_in(self.output@, participants) == Some((self.output@, self.group_key@))
    }

    /// Whether every one of `public_keys` has a share.
    pub open spec fn covers(self, public_keys: Seq<Seq<u8>>) -> bool {
        &&& self.shares@.len() == public_keys.len()
        &&& forall|i: int|
            0 <= i < public_keys.len() ==> exists|j: int|
                0 <= j < self.shares@.len() && (#[trigger] self.shares@[j]).0@
                    == #[trigger] public_keys[i]
    }
}

/// Whether a dealing can be made to these keys.
pub open spec fn can_deal(public_keys: Seq<Seq<u8>>) -> bool {
    &&& public_keys.len() > 0
    &&& public_keys.no_duplicates()
}

/// Deals threshold shares to `public_keys` with the fixed generator.
///
/// Calls `dkg::deal` with `commonware_utils::test_rng`, so that the same keys always get the same
/// dealing. The keys are first collected into a set, which fails where two are equal; the deal
/// itself fails only for an empty set. Every key gets one share. The output is in the mode that
/// version 0 reads, lists as many participants as there are keys, and commits to non-zero
/// coefficients, so it reads back. A share that happens to be zero would not, so nothing is said of
/// reading shares.
#[verifier::external_body]
pub(crate) fn deal_fixed(public_keys: &Vec<Vec<u8>>) -> (dealing: Option<Dealing>)
    requires
        public_keys@.len() <= u32::MAX,
        forall|i: int|
            0 <= i < public_keys@.len() ==> encodes_public_key(#[trigger] public_keys@[i]@)
                && public_keys@[i]@.len() == PUBLIC_KEY_BYTES,
    ensures
        match dealing {
            Some(dealing) => {
                &&& can_deal(blobs(public_keys@))
                &&& dealing.contents() == fixed_dealing(blobs(public_keys@))
                &&& dealing.covers(blobs(public_keys@))
                &&& dealing.output_reads_back(public_keys@.len() as u32)
            },
            None => !can_deal(blobs(public_keys@)),
        },
{
    let keys = public_keys.iter().map(|key| ed25519::PublicKey::read(&mut key.as_slice()).expect("key"));
    let players = keys.try_collect().ok()?;
    let rng = &mut commonware_utils::test_rng();
    let (output, shares) = dkg::deal::<MinSig, _, N3f1>(rng, Default::default(), players).ok()?;
    Some(Dealing {
        output: output.encode().to_vec(),
        group_key: output.public().public().encode().to_vec(),
        shares: shares.into_iter().map(|(k, s)| (k.encode().to_vec(), s.encode().to_vec())).collect(),
    })
}

/// Deals threshold shares to `public_keys` with the system's randomness.
///
/// Calls `dkg::deal`, which fails only for an empty set of keys; collecting the keys into a set
/// fails where two are equal. Every key gets one share, and the output reads back as it does for the
/// fixed generator. What the shares hold is left to chance.
#[verifier::external_body]
pub(crate) fn deal_random(public_keys: &Vec<Vec<u8>>) -> (dealing: Option<Dealing>)
    requires
        public_keys@.len() <= u32::MAX,
        forall|i: int|
            0 <= i < public_keys@.len() ==> encodes_public_key(#[trigger] public_keys@[i]@)
                && public_keys@[i]@.len() == PUBLIC_KEY_BYTES,
    ensures
        match dealing {
            Some(dealing) => {
                &&& can_deal(blobs(public_keys@))
                &&& dealing.covers(blobs(public_keys@))
                &&& dealing.output_reads_back(public_keys@.len() as u32)
            },
            None => !can_deal(blobs(public_keys@)),
        },
{
    let keys = public_keys.iter().map(|key| ed25519::PublicKey::read(&mut key.as_slice()).expect("key"));
    let players = keys.try_collect().ok()?;
    let rng = &mut UnwrapErr(SysRng);
    let (output, shares) = dkg::deal::<MinSig, _, N3f1>(rng, Default::default(), players).ok()?;
    Some(Dealing {
        output: output.encode().to_vec(),
        group_key: output.public().public().encode().to_vec(),
        shares: shares.into_iter().map(|(k, s)| (k.encode().to_vec(), s.encode().to_vec())).collect(),
    })
}

/// Reads a dealing output from the front of `bytes`, and returns its encoding and its group public
/// key.
///
/// Calls `dkg::Output::read_cfg` with mode version 0, encodes what it read, and takes its
/// `public().public()`. It gives nothing where the bytes do not begin with an output among at most
/// `participants`.
#[verifier::external_body]
pub(crate) fn read_dealing_output(bytes: &Vec<u8>, participants: u32) -> (output: Option<
    (Vec<u8>, Vec<u8>),
>)
    requires
        participants > 0,
    ensures
        match output {
            Some((output, group_key)) => dealing_output_in(bytes@, participants) == Some(
                (output@, group_key@),
            ),
            None => dealing_output_in(bytes@, participants) is None,
        },
{
    let cfg = (NonZeroU32::new(participants)?, ModeVersion::v0());
    let output = dkg::Output::<MinSig, ed25519::PublicKey>::read_cfg(&mut bytes.as_slice(), &cfg).ok()?;
    Some((output.encode().to_vec(), output.public().public().encode().to_vec()))
}

/// Reads a threshold share from the front of `bytes` and returns its encoding.
///
/// Calls `Share::read`, which gives nothing where the bytes do not begin with a participant index
/// and a scalar.
#[verifier::external_body]
pub(crate) fn read_share(bytes: &Vec<u8>) -> (share: Option<Vec<u8>>)
    ensures
        match share {
            Some(share) => share_in(bytes@) == Some(share@),
            None => share_in(bytes@) is None,
        },
{
    let share = Share::read(&mut bytes.as_slice()).ok()?;
    Some(share.encode().to_vec())
}

/// Hashes a message.
///
/// Calls `sha256::Sha256::hash`; the digest takes 32 bytes.
#[verifier::external_body]
pub(crate) fn sha256(message: &[u8]) -> (digest: Vec<u8>)
    ensures
        digest@ == sha256_digest(message@),
        digest@.len() == 32,
{
    sha256::Sha256::hash(message).encode().to_vec()
}

} // verus!
