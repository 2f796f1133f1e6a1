//! The commitment scheme: a player binds itself to a weapon by publishing a
//! digest of a salt and the weapon, and opens it later with the same pair.
//!
//! The digests come from `sp-io` and `sp-runtime`, the encodings from
//! `parity-scale-codec`. Their results are taken on trust, as the contracts
//! below state them.

use vstd::prelude::*;
use vstd::bytes::spec_u64_to_le_bytes;
use crate::error::Error;
use crate::weapon::WeaponType;

verus! {

/// A 256-bit digest: a game identifier or a commitment.
pub type H256 = [u8; 32];

/// How many bytes a salt and a digest hold.
pub const HASH_LEN: usize = 32;

/// The digest of all zeroes, which stands where no digest is stored.
pub open spec fn zero_hash() -> H256 {
    vstd::array::spec_array_fill_for_copy_type::<u8, 32>(0u8)
}

/// The 256-bit Blake2b digest of `data`, as `sp_io::hashing::blake2_256`
/// computes it.
pub uninterp spec fn blake2_256_digest(data: Seq<u8>) -> H256;

/// Calls `sp_io::hashing::blake2_256`. Trusted: the result is the digest
/// named `blake2_256_digest`, a function of the input bytes alone.
#[verifier::external_body]
pub(crate) fn blake2_256(data: &[u8]) -> (digest: H256)
    ensures
        digest == blake2_256_digest(data@),
{
    sp_io::hashing::blake2_256(data)
}

/// Calls `<BlakeTwo256 as sp_runtime::traits::Hash>::hash` and takes the
/// bytes out of the `H256` it returns. Trusted: the runtime's hasher is
/// `sp_io::hashing::blake2_256` with its result turned into an `H256`, so
/// the bytes are the digest named `blake2_256_digest`.
#[verifier::external_body]
pub(crate) fn runtime_hash(data: &[u8]) -> (digest: H256)
    ensures
        digest == blake2_256_digest(data@),
{
    <sp_runtime::traits::BlakeTwo256 as sp_runtime::traits::Hash>::hash(data).0
}

/// Calls `parity_scale_codec::Encode::encode` on a `u64`. Trusted: SCALE
/// writes a fixed-width integer as its bytes, least significant first.
#[verifier::external_body]
pub(crate) fn scale_encode_u64(value: u64) -> (bytes: Vec<u8>)
    ensures
        bytes@ == spec_u64_to_le_bytes(value),
{
    parity_scale_codec::Encode::encode(&value)
}

/// The first `HASH_LEN` bytes of `material`, with zeroes after its end.
pub open spec fn zero_padded(material: Seq<u8>) -> Seq<u8> {
    Seq::new(
        HASH_LEN as nat,
        |i: int|
            if i < material.len() {
                material[i]
            } else {
                0u8
            },
    )
}

/// Decodes a `[u8; 32]` with `parity_scale_codec::Decode::decode` from a
/// `sp_runtime::traits::TrailingZeroInput` over `material`. Trusted: that
/// input never runs dry, so decoding cannot fail, and the array holds the
/// leading bytes of `material` followed by zeroes.
#[verifier::external_body]
pub(crate) fn decode_seed(material: &[u8]) -> (seed: H256)
    ensures
        seed@ == zero_padded(material@),
{
    let mut input = sp_runtime::traits::TrailingZeroInput::new(material);
    <H256 as parity_scale_codec::Decode>::decode(&mut input)
        .expect("input is padded with zeroes; qed")
}

/// The SCALE encoding of the triple `(seed, sender, nonce)`: the seed's
/// bytes, the sender least significant byte first, the length of `nonce` in
/// compact form and the bytes of `nonce`.
pub open spec fn encoded_seed_material(seed: Seq<u8>, sender: u64, nonce: Seq<u8>) -> Seq<u8> {
    seed + spec_u64_to_le_bytes(sender) + seq![(4 * nonce.len()) as u8] + nonce
}

/// Calls `parity_scale_codec::Encode::encode` on the triple
/// `(seed, &sender, nonce)`. Trusted: a tuple is encoded as its fields in
/// order; a byte array as its bytes; a `u64` least significant byte first; a
/// byte vector of fewer than 64 bytes as one byte holding four times its
/// length, then its bytes.
#[verifier::external_body]
pub(crate) fn scale_encode_seed_material(seed: &H256, sender: u64, nonce: &Vec<u8>) -> (bytes:
    Vec<u8>)
    requires
        nonce@.len() < 64,
    ensures
        bytes@ == encoded_seed_material(seed@, sender, nonce@),
{
    parity_scale_codec::Encode::encode(&(seed, &sender, nonce))
}

/// The identifier that randomness, a requesting account and a nonce give.
pub open spec fn game_id(material: Seq<u8>, sender: u64, nonce: u64) -> H256 {
    blake2_256_digest(
        encoded_seed_material(zero_padded(material), sender, spec_u64_to_le_bytes(nonce)),
    )
}

/// The commitment to a weapon code under a salt: the salt's last byte gives
/// way to the code, and the buffer is digested twice.
pub open spec fn commitment(salt: H256, choice: u8) -> H256 {
    blake2_256_digest(blake2_256_digest(salt@.update(HASH_LEN - 1, choice))@)
}

/// Computes the commitment to the weapon code `choice` under `salt`.
pub fn hash_choice(salt: H256, choice: u8) -> (hashed: H256)
    ensures
        hashed == commitment(salt, choice),
{
    let mut choice_value = salt;
    choice_value[HASH_LEN - 1] = choice;
    let choice_hashed = blake2_256(&choice_value);
    // A byte array is its own encoding, so the digest goes to the runtime's
    // hasher as it is.
    runtime_hash(&choice_hashed)
}

/// What a player has on record in a game: nothing, a commitment, or the
/// weapon that opened it.
#[derive(Clone, Copy, Debug, PartialEq, Eq)]
pub enum Choice {
    Unset,
    Choose(H256),
    Reveal(WeaponType),
}

impl Default for Choice {
    fn default() -> (choice: Self)
        ensures
            choice == Choice::Unset,
    {
        Choice::Unset
    }
}

/// The record that follows when `weapon` is revealed against `stored` and
/// the salt and weapon offered hash to `recomputed`: the weapon, if `stored`
/// is the commitment `recomputed`.
pub open spec fn opened(stored: Choice, recomputed: H256, weapon: WeaponType) -> Result<
    Choice,
    Error,
> {
    match stored {
        Choice::Choose(hashed) => if hashed == recomputed {
            Ok(Choice::Reveal(weapon))
        } else {
            Err(Error::BadBehaviour)
        },
        _ => Err(Error::BadBehaviour),
    }
}

/// Whether `stored` is a commitment other than `recomputed`: one that the
/// salt and weapon offered do not open.
pub open spec fn mismatched(stored: Choice, recomputed: H256) -> bool {
    stored matches Choice::Choose(hashed) && hashed != recomputed
}

/// Whether two digests are the same.
pub fn same_hash(a: &H256, b: &H256) -> (same: bool)
    ensures
        same == (*a == *b),
{
    let mut i: usize = 0;
    while i < HASH_LEN
        invariant
            i <= HASH_LEN,
            forall|j: int| 0 <= j < i ==> a[j] == b[j],
        decreases HASH_LEN - i,
    {
        if a[i] != b[i] {
            return false;
        }
        i += 1;
    }
    assert(*a =~= *b);
    true
}

/// Opens the record `stored` with `weapon`, given the digest `recomputed` of
/// the salt and weapon that the player offers.
pub fn open_commitment(stored: &Choice, recomputed: &H256, weapon: WeaponType) -> (record: Result<
    Choice,
    Error,
>)
    ensures
        record == opened(*stored, *recomputed, weapon),
{
    match stored {
        Choice::Choose(hashed) => {
            if same_hash(hashed, recomputed) {
                Ok(Choice::Reveal(weapon))
            } else {
                Err(Error::BadBehaviour)
            }
        },
        _ => Err(Error::BadBehaviour),
    }
}

/// Checks the salt and weapon that a player offers against the record
/// `stored`, and gives the record that reveals the weapon if they open it.
pub fn verify_and_reveal(stored: &Choice, salt: H256, weapon: WeaponType) -> (record: Result<
    Choice,
    Error,
>)
    ensures
        record == opened(*stored, commitment(salt, weapon.spec_code()), weapon),
{
    let recomputed = hash_choice(salt, weapon.code());
    open_commitment(stored, &recomputed, weapon)
}

/// A commitment is opened by the salt and weapon that made it, and the
/// record then shows that weapon.
pub proof fn lemma_commitment_opens(salt: H256, weapon: WeaponType)
    ensures
        opened(
            Choice::Choose(commitment(salt, weapon.spec_code())),
            commitment(salt, weapon.spec_code()),
            weapon,
        ) == Ok::<Choice, Error>(Choice::Reveal(weapon)),
{
}

/// A salt and weapon whose commitment differs from the stored one do not
/// open it.
pub proof fn lemma_other_commitment_fails(
    salt: H256,
    weapon: WeaponType,
    other_salt: H256,
    other_weapon: WeaponType,
)
    requires
        commitment(other_salt, other_weapon.spec_code()) != commitment(salt, weapon.spec_code()),
    ensures
        opened(
            Choice::Choose(commitment(salt, weapon.spec_code())),
            commitment(other_salt, other_weapon.spec_code()),
            other_weapon,
        ) == Err::<Choice, Error>(Error::BadBehaviour),
{
}

/// The last byte of a salt plays no part in the commitment: two salts that
/// agree before it commit to the same digest for the same weapon.
pub proof fn lemma_last_salt_byte_is_ignored(salt: H256, other_salt: H256, choice: u8)
    requires
        forall|i: int| 0 <= i < HASH_LEN - 1 ==> salt[i] == other_salt[i],
    ensures
        commitment(salt, choice) == commitment(other_salt, choice),
{
    assert(salt@.update(HASH_LEN - 1, choice) =~= other_salt@.update(HASH_LEN - 1, choice));
}

} // verus!
