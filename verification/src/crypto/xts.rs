//! AES-XTS-128 decryption of keybag, tree and file blocks.

use crate::crypto::primitives::xts_decrypt_area;
use crate::error::ApfsError;
use crate::types::bytes::take;
use vstd::prelude::*;

verus! {

/// Number of bytes in one AES-XTS "sector"; APFS always uses 512-byte
/// sectors for XTS tweaking, regardless of the container's own block size.
pub const XTS_SECTOR_SIZE: usize = 512;

/// A fully unwrapped Volume Encryption Key: 32 bytes, used as an AES-XTS-128
/// key (first 16 bytes: data key, last 16 bytes: tweak key).
pub type VolumeEncryptionKey = [u8; 32];

/// `data` decrypted as consecutive sectors, the first of which has number
/// `first_sector`. Each byte comes out of its own sector.
pub open spec fn xts_plaintext(key: Seq<u8>, first_sector: int, data: Seq<u8>) -> Seq<u8> {
    Seq::new(
        data.len(),
        |i: int|
            crate::crypto::primitives::xts_sector_plaintext(
                key.subrange(0, 16),
                key.subrange(16, 32),
                first_sector + i / 512,
                crate::crypto::primitives::sector_of(data, 512, i / 512),
            )[i % 512],
    )
}

/// What decrypting `data` in place gives: an error and `data` as it was when
/// it is not a whole number of sectors, its plaintext otherwise.
pub open spec fn xts_outcome(
    key: Seq<u8>,
    first_sector: int,
    before: Seq<u8>,
    after: Seq<u8>,
    r: Result<(), ApfsError>,
) -> bool {
    if before.len() % 512 != 0 {
        &&& r == Err::<(), ApfsError>(
            ApfsError::Crypto("data length is not a multiple of the AES-XTS sector size"),
        )
        &&& after == before
    } else {
        &&& r == Ok::<(), ApfsError>(())
        &&& after == xts_plaintext(key, first_sector, before)
    }
}

/// Decrypts `data` in place with AES-XTS-128, treating it as consecutive
/// 512-byte sectors starting at `first_sector`.
///
/// `key` is a 32-byte key as returned by
/// [`unlock_volume_key`](crate::crypto::unlock_volume_key): the first 16
/// bytes are the data-encryption key, the last 16 the tweak key.
///
/// `data.len()` must be a multiple of 512 bytes.
pub fn xts_decrypt(key: &VolumeEncryptionKey, first_sector: u64, data: &mut [u8]) -> (r: Result<
    (),
    ApfsError,
>)
    ensures
        xts_outcome(key@, first_sector as int, old(data)@, final(data)@, r),
{
    if data.len() % XTS_SECTOR_SIZE != 0 {
        return Err(
            ApfsError::Crypto("data length is not a multiple of the AES-XTS sector size"),
        );
    }
    let data_key = take::<16>(key, 0)?;
    let tweak_key = take::<16>(key, 16)?;
    let ghost before = data@;
    xts_decrypt_area(&data_key, &tweak_key, XTS_SECTOR_SIZE, first_sector, data);
    proof {
        let plain = xts_plaintext(key@, first_sector as int, before);
        assert forall|i: int| 0 <= i < before.len() implies data@[i] == plain[i] by {
            let s = i / 512;
            assert(crate::crypto::primitives::sector_of(data@, 512, s)[i % 512] == data@[i]);
        }
        assert(data@ =~= plain);
    }
    Ok(())
}

/// Decrypts a container or volume keybag block in place.
///
/// Keybag blocks are AES-XTS-128 encrypted with the owning object's UUID
/// (the container's for a container keybag, the volume's for a volume
/// keybag) used as *both* halves of the XTS key. `first_block` is the
/// keybag's own first physical block address (used to derive the starting
/// sector tweak); `block_size` is the container's block size.
pub fn decrypt_keybag_block(
    uuid: &[u8; 16],
    first_block: u64,
    block_size: u32,
    data: &mut [u8],
) -> (r: Result<(), ApfsError>)
    requires
        first_block * (block_size / 512) <= u64::MAX,
    ensures
        xts_outcome(
            uuid@ + uuid@,
            first_block * (block_size / 512),
            old(data)@,
            final(data)@,
            r,
        ),
{
    let mut key: [u8; 32] = [0; 32];
    let mut i: usize = 0;
    while i < 16
        invariant
            i <= 16,
            forall|j: int| 0 <= j < i ==> key@[j] == uuid@[j] && key@[j + 16] == uuid@[j],
        decreases 16 - i,
    {
        key[i] = uuid[i];
        key[i + 16] = uuid[i];
        i = i + 1;
    }
    assert(key@ =~= uuid@ + uuid@);
    let sectors_per_block: u64 = block_size as u64 / XTS_SECTOR_SIZE as u64;
    xts_decrypt(&key, first_block * sectors_per_block, data)
}

/// Decrypts one volume-relative physical block (filesystem tree node or file
/// extent data) in place, given the volume's unwrapped [`VolumeEncryptionKey`].
///
/// `tweak_block` is the APFS block address used as the XTS tweak: the
/// object's own physical block address for object-map-resolved blocks
/// (`OMAP_VAL_ENCRYPTED`), or a file extent's `cryptography_id` plus the
/// block's offset within the extent for file data.
pub fn decrypt_volume_block(
    vek: &VolumeEncryptionKey,
    tweak_block: u64,
    block_size: u32,
    data: &mut [u8],
) -> (r: Result<(), ApfsError>)
    requires
        tweak_block * (block_size / 512) <= u64::MAX,
    ensures
        xts_outcome(vek@, tweak_block * (block_size / 512), old(data)@, final(data)@, r),
{
    let sectors_per_block: u64 = block_size as u64 / XTS_SECTOR_SIZE as u64;
    xts_decrypt(vek, tweak_block * sectors_per_block, data)
}

/// Decryption goes sector by sector: the plaintext of two areas read one
/// after the other is the plaintext of each, the second with the sector
/// number that follows the first.
pub proof fn law_areas_decrypt_apart(key: Seq<u8>, first_sector: int, left: Seq<u8>, right: Seq<u8>)
    requires
        left.len() % 512 == 0,
        right.len() % 512 == 0,
    ensures
        xts_plaintext(key, first_sector, left + right) == xts_plaintext(key, first_sector, left)
            + xts_plaintext(key, first_sector + left.len() / 512, right),
{
    let both = left + right;
    let n = left.len() as int;
    let whole = xts_plaintext(key, first_sector, both);
    let first = xts_plaintext(key, first_sector, left);
    let second = xts_plaintext(key, first_sector + n / 512, right);
    assert forall|i: int| 0 <= i < both.len() implies whole[i] == (first + second)[i] by {
        if i < n {
            assert(crate::crypto::primitives::sector_of(both, 512, i / 512)
                =~= crate::crypto::primitives::sector_of(left, 512, i / 512));
        } else {
            let j = i - n;
            assert(i / 512 == n / 512 + j / 512 && i % 512 == j % 512);
            assert(crate::crypto::primitives::sector_of(both, 512, i / 512)
                =~= crate::crypto::primitives::sector_of(right, 512, j / 512));
        }
    }
    assert(whole =~= first + second);
}

/// Volume blocks decrypt apart from each other: a block and what is read after
/// it decrypt to what each decrypts to on its own, the second by the number of
/// the block that follows.
pub proof fn law_consecutive_blocks_decrypt_apart(
    vek: Seq<u8>,
    tweak_block: u64,
    block_size: u32,
    left: Seq<u8>,
    right: Seq<u8>,
)
    requires
        block_size % 512 == 0,
        left.len() == block_size,
        right.len() % 512 == 0,
    ensures
        xts_plaintext(vek, tweak_block * (block_size / 512), left + right) == xts_plaintext(
            vek,
            tweak_block * (block_size / 512),
            left,
        ) + xts_plaintext(vek, (tweak_block + 1) * (block_size / 512), right),
{
    let sectors = (block_size / 512) as int;
    law_areas_decrypt_apart(vek, tweak_block * sectors, left, right);
    assert(tweak_block * sectors + sectors == (tweak_block + 1) * sectors) by (nonlinear_arith);
}

/// A keybag block of a container or volume decrypts as a volume block does
/// whose key is the identifier twice.
pub proof fn law_keybag_key_is_the_identifier_twice(
    uuid: Seq<u8>,
    first_block: u64,
    block_size: u32,
    before: Seq<u8>,
    after: Seq<u8>,
    r: Result<(), ApfsError>,
)
    requires
        uuid.len() == 16,
        before.len() % 512 == 0,
        xts_outcome(uuid + uuid, first_block * (block_size / 512), before, after, r),
    ensures
        forall|i: int|
            0 <= i < before.len() ==> #[trigger] after[i]
                == crate::crypto::primitives::xts_sector_plaintext(
                uuid,
                uuid,
                first_block * (block_size / 512) + i / 512,
                crate::crypto::primitives::sector_of(before, 512, i / 512),
            )[i % 512],
{
    let key = uuid + uuid;
    assert(key.subrange(0, 16) =~= uuid);
    assert(key.subrange(16, 32) =~= uuid);
}

/// What decryption does to an area. One that is not a whole number of 512-byte
/// sectors is refused and left as it was. Otherwise it keeps its length, and
/// each sector is decrypted under the first half of the key for the data and
/// the second half for the tweak, by the number of the first sector plus the
/// number of sectors before it.
pub proof fn law_each_sector_decrypts_by_its_number(
    key: Seq<u8>,
    first_sector: int,
    before: Seq<u8>,
    after: Seq<u8>,
    r: Result<(), ApfsError>,
)
    requires
        xts_outcome(key, first_sector, before, after, r),
    ensures
        before.len() % 512 != 0 ==> after == before && r == Err::<(), ApfsError>(
            ApfsError::Crypto("data length is not a multiple of the AES-XTS sector size"),
        ),
        before.len() % 512 == 0 ==> r is Ok && after.len() == before.len(),
        before.len() % 512 == 0 ==> forall|s: int, k: int|
            #![trigger after[512 * s + k]]
            0 <= s && 512 * s + 512 <= before.len() && 0 <= k < 512 ==> after[512 * s + k]
                == crate::crypto::primitives::xts_sector_plaintext(
                key.subrange(0, 16),
                key.subrange(16, 32),
                first_sector + s,
                before.subrange(512 * s, 512 * s + 512),
            )[k],
{
    if before.len() % 512 == 0 {
        assert forall|s: int, k: int|
            #![trigger after[512 * s + k]]
            0 <= s && 512 * s + 512 <= before.len() && 0 <= k < 512 implies after[512 * s + k]
            == crate::crypto::primitives::xts_sector_plaintext(
            key.subrange(0, 16),
            key.subrange(16, 32),
            first_sector + s,
            before.subrange(512 * s, 512 * s + 512),
        )[k] by {
            let i = 512 * s + k;
            assert(i / 512 == s && i % 512 == k);
            assert(crate::crypto::primitives::sector_of(before, 512, s) == before.subrange(
                512 * s,
                512 * s + 512,
            ));
        }
    }
}

} // verus!
