//! The cryptographic primitives, as the `aes`, `aes-kw`, `pbkdf2`, `sha2` and
//! `xts-mode` crates provide them.
//!
//! Nothing in this file is proved: each function hands its arguments to one of
//! those crates and states what that crate gives back. A cipher, a key wrap, a
//! key derivation or a digest takes pages to define, so its result is given a
//! name here and the contracts of the crate speak of that name.

use aes::Aes128;
use aes_kw::{KeyInit, KwAes128, KwAes256};
use cipher::Array;
use pbkdf2::pbkdf2_hmac;
use sha2::{Digest, Sha256};
use vstd::prelude::*;
use xts_mode::{get_tweak_default, Xts128};

verus! {

/// The error of the `aes-kw` crate.
#[verifier::external_type_specification]
#[verifier::external_body]
pub struct ExKeyWrapError(aes_kw::Error);

/// The plaintext of one AES-XTS-128 sector: what `Xts128::decrypt_sector`
/// leaves of `ciphertext` with AES-128 under `data_key` for the data,
/// AES-128 under `tweak_key` for the tweak, and the little-endian
/// `sector_index` as the tweak.
pub uninterp spec fn xts_sector_plaintext(
    data_key: Seq<u8>,
    tweak_key: Seq<u8>,
    sector_index: int,
    ciphertext: Seq<u8>,
) -> Seq<u8>;

/// The key that `KwAes128::unwrap_key` takes out of `wrapped` under `kek`, or
/// nothing when the integrity check fails.
pub uninterp spec fn kw_aes128_key(kek: Seq<u8>, wrapped: Seq<u8>) -> Option<Seq<u8>>;

/// The key that `KwAes256::unwrap_key` takes out of `wrapped` under `kek`, or
/// nothing when the integrity check fails.
pub uninterp spec fn kw_aes256_key(kek: Seq<u8>, wrapped: Seq<u8>) -> Option<Seq<u8>>;

/// The thirty-two bytes that `pbkdf2_hmac::<Sha256>` derives.
pub uninterp spec fn pbkdf2_sha256_key(password: Seq<u8>, salt: Seq<u8>, rounds: u32) -> Seq<u8>;

/// The SHA-256 digest of `data`.
pub uninterp spec fn sha256_digest(data: Seq<u8>) -> Seq<u8>;

/// The sector number `index` of `data`, for sectors of `size` bytes.
pub open spec fn sector_of(data: Seq<u8>, size: int, index: int) -> Seq<u8> {
    data.subrange(index * size, (index + 1) * size)
}

/// Decrypts whole sectors in place with `Xts128::<Aes128>::decrypt_area` and
/// `get_tweak_default`.
///
/// The crate splits the area into chunks of `sector_size` bytes and decrypts
/// each on its own, with the number of the first sector plus the number of
/// chunks before it as the tweak. It panics on a sector shorter than one
/// cipher block, so such sectors are left out. A last, shorter sector is left
/// out too: no caller has one.
#[verifier::external_body]
pub(crate) fn xts_decrypt_area(
    data_key: &[u8; 16],
    tweak_key: &[u8; 16],
    sector_size: usize,
    first_sector: u64,
    data: &mut [u8],
)
    requires
        sector_size >= 16,
        old(data)@.len() % (sector_size as nat) == 0,
    ensures
        final(data)@.len() == old(data)@.len(),
        forall|s: int|
            0 <= s < old(data)@.len() / (sector_size as nat) ==> #[trigger] sector_of(
                final(data)@,
                sector_size as int,
                s,
            ) == xts_sector_plaintext(
                data_key@,
                tweak_key@,
                first_sector + s,
                sector_of(old(data)@, sector_size as int, s),
            ),
{
    let cipher_1 = Aes128::new(&Array::from(*data_key));
    let cipher_2 = Aes128::new(&Array::from(*tweak_key));
    let xts = Xts128::new(cipher_1, cipher_2);
    xts.decrypt_area(data, sector_size, u128::from(first_sector), get_tweak_default);
}

/// Unwraps a key with `KwAes128::unwrap_key`.
///
/// The crate refuses a wrapped key that is empty or not a whole number of
/// eight-byte semiblocks, and an output shorter than the wrapped key without
/// its first semiblock. Otherwise the integrity check decides: when it
/// passes, the start of `out` holds the key and the rest of `out` is as it
/// was. What a failed unwrap leaves in `out` is not stated.
#[verifier::external_body]
pub(crate) fn kw_aes128_unwrap_key(kek: &[u8; 16], wrapped: &[u8], out: &mut [u8]) -> (r: Result<
    (),
    aes_kw::Error,
>)
    ensures
        final(out)@.len() == old(out)@.len(),
        r is Ok <==> {
            &&& wrapped@.len() >= 8
            &&& wrapped@.len() % 8 == 0
            &&& old(out)@.len() + 8 >= wrapped@.len()
            &&& kw_aes128_key(kek@, wrapped@) is Some
        },
        r is Ok ==> final(out)@ == kw_aes128_key(kek@, wrapped@)->0 + old(out)@.skip(
            wrapped@.len() - 8,
        ),
        r is Ok ==> kw_aes128_key(kek@, wrapped@)->0.len() == wrapped@.len() - 8,
{
    let unwrapper = KwAes128::new(&Array::from(*kek));
    match unwrapper.unwrap_key(wrapped, out) {
        Ok(_) => Ok(()),
        Err(error) => Err(error),
    }
}

/// Unwraps a key with `KwAes256::unwrap_key`; see [`kw_aes128_unwrap_key`],
/// which differs in the key size alone.
#[verifier::external_body]
pub(crate) fn kw_aes256_unwrap_key(kek: &[u8; 32], wrapped: &[u8], out: &mut [u8]) -> (r: Result<
    (),
    aes_kw::Error,
>)
    ensures
        final(out)@.len() == old(out)@.len(),
        r is Ok <==> {
            &&& wrapped@.len() >= 8
            &&& wrapped@.len() % 8 == 0
            &&& old(out)@.len() + 8 >= wrapped@.len()
            &&& kw_aes256_key(kek@, wrapped@) is Some
        },
        r is Ok ==> final(out)@ == kw_aes256_key(kek@, wrapped@)->0 + old(out)@.skip(
            wrapped@.len() - 8,
        ),
        r is Ok ==> kw_aes256_key(kek@, wrapped@)->0.len() == wrapped@.len() - 8,
{
    let unwrapper = KwAes256::new(&Array::from(*kek));
    match unwrapper.unwrap_key(wrapped, out) {
        Ok(_) => Ok(()),
        Err(error) => Err(error),
    }
}

/// Derives thirty-two bytes with `pbkdf2_hmac::<Sha256>`, which accepts a
/// password and a salt of any length.
#[verifier::external_body]
pub(crate) fn pbkdf2_sha256(password: &[u8], salt: &[u8], rounds: u32) -> (key: [u8; 32])
    ensures
        key@ == pbkdf2_sha256_key(password@, salt@, rounds),
{
    let mut derived = [0_u8; 32];
    pbkdf2_hmac::<Sha256>(password, salt, rounds, &mut derived);
    derived
}

/// Hashes `data` with `Sha256::digest`.
#[verifier::external_body]
pub(crate) fn sha256(data: &[u8]) -> (digest: [u8; 32])
    ensures
        digest@ == sha256_digest(data@),
{
    Sha256::digest(data).into()
}

} // verus!
