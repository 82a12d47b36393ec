//! Tests of the key-unwrapping chain and of AES-XTS decryption.

use aes::Aes128;
use aes_kw::KeyInit;
use cipher::Array;
use hadris_apfs::crypto::unlock::{
    converted_vek, kek_candidate, rfc3394_unwrap, unwrap_any_kek, unwrap_candidate, unwrap_vek,
    KekCandidate,
};
use hadris_apfs::crypto::wrapped_key::{der_read_tlv, parse_wrapped_key_blob};
use hadris_apfs::crypto::{
    decrypt_keybag_block, decrypt_volume_block, unlock_volume_key, xts_decrypt,
};
use hadris_apfs::error::ApfsError;
use hadris_apfs::types::keybag::{Keybag, KeybagEntry, KeybagTag};
use xts_mode::{get_tweak_default, Xts128};

/// A wrapped 32-byte KEK for "password", in the native AES-256 variant.
const KEK_256: &str = "3081918001008120484848484848484848484848484848484848484848484848484848484848484882085353535353535353a3608001018110101112131415161718191a1b1c1d1e1f82080000000000000000832881228af4c6752985424787b616bf1f239942780fc3295f87ce3a7f28b991f287584e448455efb24584030003e8851000112233445566778899aabbccddeeff";
/// The volume key wrapped under that KEK.
const VEK_256: &str = "307a8001008120484848484848484848484848484848484848484848484848484848484848484882085353535353535353a3498001018110101112131415161718191a1b1c1d1e1f820800000000000000008328dae69b6f38b9b81892fe29a323dabe48205d1949a0c4a74ef937ef83e96f1b64eb8dda2208fba5a6";
/// A wrapped 16-byte KEK for "password", in the AES-128 variant.
const KEK_128: &str = "3081818001008120484848484848484848484848484848484848484848484848484848484848484882085353535353535353a3508001018110101112131415161718191a1b1c1d1e1f820800000002000000008318e311a4674657e57f1146a84f421ff3b4f67bced22c702e5884030003e8851000112233445566778899aabbccddeeff";
/// The volume key wrapped under that KEK.
const VEK_128: &str = "306a8001008120484848484848484848484848484848484848484848484848484848484848484882085353535353535353a3398001018110101112131415161718191a1b1c1d1e1f82080000000200000000831881f7e2282736b68c2520759bdc981a5a6036b367099e4e52";

const VOLUME: [u8; 16] = [0x77; 16];

fn bytes(hex: &str) -> Vec<u8> {
    (0..hex.len() / 2)
        .map(|i| u8::from_str_radix(&hex[2 * i..2 * i + 2], 16).unwrap())
        .collect()
}

fn counting(from: u8, count: u8) -> Vec<u8> {
    (from..from + count).collect()
}

fn entry(uuid: [u8; 16], tag: KeybagTag, key_data: Vec<u8>) -> KeybagEntry {
    KeybagEntry {
        uuid,
        tag: tag.raw(),
        key_data,
    }
}

fn keybag(entries: Vec<KeybagEntry>) -> Keybag {
    Keybag {
        version: 2,
        entries,
    }
}

#[test]
fn xts_decrypt_rejects_partial_sectors() {
    let key = [0_u8; 32];
    let mut data = [0_u8; 511];
    assert!(xts_decrypt(&key, 0, &mut data).is_err());
}

#[test]
fn xts_round_trips_with_encrypt() {
    let key = [7_u8; 32];
    let mut data = [0x42_u8; 1024];
    let original = data;
    xts_decrypt(&key, 5, &mut data).unwrap();
    assert_ne!(data, original);
    // Decrypting the "encrypted" (garbage) bytes back should not equal
    // the original either, but re-decrypting should be deterministic.
    let mut again = original;
    xts_decrypt(&key, 5, &mut again).unwrap();
    assert_eq!(data, again);
}

#[test]
fn partial_sectors_are_named_and_left_alone() {
    let mut data = [9_u8; 513];
    assert_eq!(
        xts_decrypt(&[1; 32], 0, &mut data),
        Err(ApfsError::Crypto(
            "data length is not a multiple of the AES-XTS sector size"
        ))
    );
    assert_eq!(data, [9_u8; 513]);
}

#[test]
fn nothing_decrypts_to_nothing() {
    let mut data: [u8; 0] = [];
    assert_eq!(xts_decrypt(&[1; 32], 0, &mut data), Ok(()));
}

#[test]
fn xts_known_sector() {
    let mut key = [0_u8; 32];
    key[..16].copy_from_slice(&bytes("27182818284590452353602874713526"));
    key[16..].copy_from_slice(&bytes("31415926535897932384626433832795"));
    let mut data = [0_u8; 512];
    data[..32].copy_from_slice(&bytes(
        "27a7479befa1d476489f308cd4cfa6e2a96e4bbe3208ff25287dd3819616e89c",
    ));
    xts_decrypt(&key, 0, &mut data).unwrap();
    assert_eq!(data[..32].to_vec(), counting(0, 32));
}

#[test]
fn xts_numbers_sectors_from_the_first() {
    let mut key = [0_u8; 32];
    key[..16].copy_from_slice(&bytes("27182818284590452353602874713526"));
    key[16..].copy_from_slice(&bytes("31415926535897932384626433832795"));
    let mut data = [0_u8; 1024];
    data[..16].copy_from_slice(&bytes("9143d34ca9bbaf9fd30d2cafe33a7ed4"));
    data[512..528].copy_from_slice(&bytes("91694354deee8283b9e602aebf5ae91d"));
    xts_decrypt(&key, 7, &mut data).unwrap();
    assert_eq!(data[..16].to_vec(), counting(0, 16));
    assert_eq!(data[512..528].to_vec(), counting(0, 16));
}

#[test]
fn decrypting_undoes_encryption() {
    let mut key = [0_u8; 32];
    key.copy_from_slice(&counting(50, 32));
    let plain: Vec<u8> = (0..1536_u32).map(|i| (i * i) as u8).collect();
    let mut data = plain.clone();
    let data_cipher = Aes128::new(&Array::try_from(&key[..16]).unwrap());
    let tweak_cipher = Aes128::new(&Array::try_from(&key[16..]).unwrap());
    Xts128::new(data_cipher, tweak_cipher).encrypt_area(&mut data, 512, 9, get_tweak_default);
    assert_ne!(data, plain);
    xts_decrypt(&key, 9, &mut data).unwrap();
    assert_eq!(data, plain);
}

#[test]
fn areas_decrypt_apart() {
    let key = [3_u8; 32];
    let mut whole = [0x5A_u8; 1024];
    xts_decrypt(&key, 11, &mut whole).unwrap();
    let mut left = [0x5A_u8; 512];
    let mut right = [0x5A_u8; 512];
    xts_decrypt(&key, 11, &mut left).unwrap();
    xts_decrypt(&key, 12, &mut right).unwrap();
    assert_eq!(whole[..512], left);
    assert_eq!(whole[512..], right);
    assert_ne!(left, right);
}

#[test]
fn consecutive_blocks_decrypt_apart() {
    let vek = [6_u8; 32];
    let mut whole = [0x11_u8; 2048];
    decrypt_volume_block(&vek, 40, 1024, &mut whole).unwrap();
    let mut left = [0x11_u8; 1024];
    let mut right = [0x11_u8; 1024];
    decrypt_volume_block(&vek, 40, 1024, &mut left).unwrap();
    decrypt_volume_block(&vek, 41, 1024, &mut right).unwrap();
    assert_eq!(whole[..1024], left);
    assert_eq!(whole[1024..], right);
}

#[test]
fn volume_blocks_start_at_their_first_sector() {
    let vek = [6_u8; 32];
    let mut block = [0x11_u8; 512];
    decrypt_volume_block(&vek, 5, 4096, &mut block).unwrap();
    let mut sector = [0x11_u8; 512];
    xts_decrypt(&vek, 40, &mut sector).unwrap();
    assert_eq!(block, sector);
}

#[test]
fn keybag_blocks_use_the_identifier_twice() {
    let mut uuid = [0_u8; 16];
    uuid.copy_from_slice(&counting(0x10, 16));
    let mut data = [0_u8; 512];
    data[..16].copy_from_slice(&bytes("d9afcde8d6796a8b3584244198411c31"));
    decrypt_keybag_block(&uuid, 3, 4096, &mut data).unwrap();
    let expected: Vec<u8> = (0..16_u8).map(|i| i * 7).collect();
    assert_eq!(data[..16].to_vec(), expected);
}

#[test]
fn key_unwrap_known_answers() {
    let wrapped = bytes("1fa68b0a8112b447aef34bd8fb5a7b829d3e862371d2cfe5");
    assert_eq!(
        rfc3394_unwrap(&wrapped, &counting(0, 16)).unwrap(),
        bytes("00112233445566778899aabbccddeeff")
    );
    let wrapped = bytes(
        "28c9f404c4b810f4cbccb35cfb87f8263f5786e2d80ed326cbc7f0e71a99f43bfb988b9b7a02dd21",
    );
    assert_eq!(
        rfc3394_unwrap(&wrapped, &counting(0, 32)).unwrap(),
        bytes("00112233445566778899aabbccddeeff000102030405060708090a0b0c0d0e0f")
    );
}

#[test]
fn key_unwrap_refusals() {
    let wrong = Err(ApfsError::Crypto("key unwrap failed (wrong password?)"));
    let wrapped = bytes("1fa68b0a8112b447aef34bd8fb5a7b829d3e862371d2cfe5");
    assert_eq!(rfc3394_unwrap(&wrapped, &counting(1, 16)), wrong);
    assert_eq!(rfc3394_unwrap(&wrapped, &counting(0, 32)), wrong);
    assert_eq!(rfc3394_unwrap(&wrapped[..23], &counting(0, 16)), wrong);
    assert_eq!(rfc3394_unwrap(&[], &counting(0, 16)), wrong);
    assert_eq!(
        rfc3394_unwrap(&wrapped, &counting(0, 24)),
        Err(ApfsError::Crypto("unexpected key-encryption-key length"))
    );
}

#[test]
fn tlv_forms() {
    let mut pos = 0;
    assert_eq!(der_read_tlv(&[4, 2, 8, 9, 1], &mut pos), Ok((4, 2..4)));
    assert_eq!(pos, 4);
    let mut pos = 1;
    assert_eq!(
        der_read_tlv(&[0, 5, 0x82, 0, 1, 7], &mut pos),
        Ok((5, 5..6))
    );
    assert_eq!(pos, 6);
}

#[test]
fn truncated_tlv() {
    let truncated = Err(ApfsError::Crypto("truncated DER key blob"));
    for (data, stop) in [
        (vec![], 0_usize),
        (vec![4], 1),
        (vec![4, 3, 1, 2], 2),
        (vec![4, 0x82, 1], 2),
        (vec![4, 0x81, 2, 1], 3),
    ] {
        let mut pos = 0;
        assert_eq!(der_read_tlv(&data, &mut pos), truncated);
        assert_eq!(pos, stop);
    }
}

#[test]
fn blob_fields() {
    let blob = parse_wrapped_key_blob(&bytes(KEK_256)).unwrap();
    assert_eq!(blob.uuid.to_vec(), counting(0x10, 16));
    assert_eq!(blob.flags, 0);
    assert_eq!(blob.wrapped_key.len(), 40);
    assert_eq!(blob.iterations, Some(1000));
    assert_eq!(blob.salt, bytes("00112233445566778899aabbccddeeff"));
    let blob = parse_wrapped_key_blob(&bytes(VEK_128)).unwrap();
    assert_eq!(blob.flags, 2);
    assert_eq!(blob.iterations, None);
    assert_eq!(blob.salt, Vec::<u8>::new());
}

#[test]
fn blob_defaults_and_short_fields() {
    // An identifier of the wrong length is passed over, and flags may be
    // shorter than four bytes.
    let data = [0x30, 10, 0xA3, 8, 0x81, 2, 1, 1, 0x82, 2, 0, 5];
    let blob = parse_wrapped_key_blob(&data).unwrap();
    assert_eq!(blob.uuid, [0_u8; 16]);
    assert_eq!(blob.flags, 0x0005_0000);
    assert_eq!(blob.wrapped_key, Vec::<u8>::new());
}

#[test]
fn last_field_counts() {
    let data = [0x30, 8, 0xA3, 6, 0x84, 1, 1, 0x84, 1, 9];
    assert_eq!(
        parse_wrapped_key_blob(&data).unwrap().iterations,
        Some(9)
    );
}

#[test]
fn malformed_blobs() {
    assert_eq!(
        parse_wrapped_key_blob(&[0x31, 0]),
        Err(ApfsError::Crypto("wrapped key blob is not a DER SEQUENCE"))
    );
    assert_eq!(
        parse_wrapped_key_blob(&[0x30, 3, 0x80, 1, 0]),
        Err(ApfsError::Crypto(
            "wrapped key blob is missing its constructed [3] element"
        ))
    );
    assert_eq!(
        parse_wrapped_key_blob(&[0x30, 2, 0xA3, 5]),
        Err(ApfsError::Crypto("truncated DER key blob"))
    );
    assert_eq!(
        parse_wrapped_key_blob(&[0x30, 5, 0xA3, 3, 0x84, 9, 1]),
        Err(ApfsError::Crypto("truncated DER key blob"))
    );
    assert_eq!(
        parse_wrapped_key_blob(&[]),
        Err(ApfsError::Crypto("truncated DER key blob"))
    );
}

#[test]
fn candidates() {
    let candidate = kek_candidate(&bytes(KEK_256)).unwrap();
    assert_eq!(candidate.rounds, 1000);
    assert_eq!(candidate.kek_len, 32);
    assert_eq!(candidate.wrapped.len(), 40);
    let candidate = kek_candidate(&bytes(KEK_128)).unwrap();
    assert_eq!(candidate.kek_len, 16);
    assert_eq!(candidate.wrapped.len(), 24);
    // No iteration count, no salt.
    assert!(kek_candidate(&bytes(VEK_256)).is_none());
    assert!(kek_candidate(&[1, 2, 3]).is_none());
    // A wrapped key that is too short.
    let short = [0x30, 11, 0xA3, 9, 0x83, 1, 7, 0x84, 1, 1, 0x85, 1, 1];
    assert!(kek_candidate(&short).is_none());
}

#[test]
fn iteration_counts_are_cut_to_32_bits() {
    let mut inner = vec![0x83, 40];
    inner.extend([0_u8; 40]);
    inner.extend([0x84, 5, 1, 0, 0, 0, 7, 0x85, 1, 1]);
    let mut data = vec![0x30, inner.len() as u8 + 2, 0xA3, inner.len() as u8];
    data.extend(inner);
    assert_eq!(kek_candidate(&data).unwrap().rounds, 7);
}

#[test]
fn derived_bytes_unwrap_a_candidate() {
    let candidate = KekCandidate {
        salt: vec![1],
        rounds: 1,
        wrapped: bytes("1fa68b0a8112b447aef34bd8fb5a7b829d3e862371d2cfe5"),
        kek_len: 16,
    };
    let mut derived = [0_u8; 32];
    derived[..16].copy_from_slice(&counting(0, 16));
    assert_eq!(
        unwrap_candidate(&candidate, &derived).unwrap(),
        bytes("00112233445566778899aabbccddeeff")
    );
    derived[0] = 1;
    assert!(unwrap_candidate(&candidate, &derived).is_err());
}

#[test]
fn converted_keys_join_halves() {
    let mut digest = [0_u8; 32];
    digest.copy_from_slice(&counting(100, 32));
    let vek = converted_vek(&counting(1, 16), &digest);
    assert_eq!(vek[..16].to_vec(), counting(1, 16));
    assert_eq!(vek[16..].to_vec(), counting(100, 16));
}

#[test]
fn unlocks_a_native_volume() {
    let container = keybag(vec![
        entry([1; 16], KeybagTag::VolumeKey, vec![0]),
        entry(VOLUME, KeybagTag::VolumeKey, bytes(VEK_256)),
    ]);
    let volume = keybag(vec![
        entry([2; 16], KeybagTag::VolumePassphraseHint, b"hint".to_vec()),
        entry([3; 16], KeybagTag::VolumeUnlockRecords, vec![1, 2, 3]),
        entry([4; 16], KeybagTag::VolumeUnlockRecords, bytes(KEK_256)),
    ]);
    let vek = unlock_volume_key(&container, &volume, &VOLUME, b"password").unwrap();
    assert_eq!(vek.to_vec(), counting(0x80, 32));
}

#[test]
fn unlocks_a_converted_volume() {
    let container = keybag(vec![entry(VOLUME, KeybagTag::VolumeKey, bytes(VEK_128))]);
    let volume = keybag(vec![entry(
        [4; 16],
        KeybagTag::VolumeUnlockRecords,
        bytes(KEK_128),
    )]);
    let vek = unlock_volume_key(&container, &volume, &VOLUME, b"password").unwrap();
    assert_eq!(
        vek.to_vec(),
        bytes("808182838485868788898a8b8c8d8e8f718e9433d032cd92c3449176313d706d")
    );
}

#[test]
fn wrong_password() {
    let container = keybag(vec![entry(VOLUME, KeybagTag::VolumeKey, bytes(VEK_256))]);
    let volume = keybag(vec![entry(
        [4; 16],
        KeybagTag::VolumeUnlockRecords,
        bytes(KEK_256),
    )]);
    let no_match = Err(ApfsError::Crypto(
        "no enrolled password/recovery key in this volume's keybag matched the supplied password",
    ));
    assert_eq!(
        unlock_volume_key(&container, &volume, &VOLUME, b"Password"),
        no_match
    );
    assert_eq!(
        unlock_volume_key(&container, &keybag(vec![]), &VOLUME, b"password"),
        no_match
    );
}

#[test]
fn any_enrolled_key_unlocks() {
    let records = |data: Vec<Vec<u8>>| {
        keybag(
            data.into_iter()
                .map(|key_data| entry([5; 16], KeybagTag::VolumeUnlockRecords, key_data))
                .collect(),
        )
    };
    let both = records(vec![bytes(KEK_128), bytes(KEK_256)]);
    assert_eq!(
        unwrap_any_kek(&both, b"password").unwrap(),
        counting(0x40, 16)
    );
    let swapped = records(vec![bytes(KEK_256), bytes(KEK_128)]);
    assert_eq!(
        unwrap_any_kek(&swapped, b"password").unwrap(),
        counting(0x40, 32)
    );
}

#[test]
fn user_identifiers_do_not_matter() {
    let filed_under = |uuid| {
        keybag(vec![entry(
            uuid,
            KeybagTag::VolumeUnlockRecords,
            bytes(KEK_256),
        )])
    };
    let kek = unwrap_any_kek(&filed_under([1; 16]), b"password").unwrap();
    assert_eq!(kek, counting(0x40, 32));
    assert_eq!(
        unwrap_any_kek(&filed_under([2; 16]), b"password").unwrap(),
        kek
    );
}

#[test]
fn volume_key_errors() {
    let kek = counting(0x40, 32);
    assert_eq!(
        unwrap_vek(&keybag(vec![]), &VOLUME, &kek),
        Err(ApfsError::Crypto(
            "container keybag has no wrapped Volume Encryption Key for this volume"
        ))
    );
    let short = [0x30, 5, 0xA3, 3, 0x83, 1, 7].to_vec();
    assert_eq!(
        unwrap_vek(
            &keybag(vec![entry(VOLUME, KeybagTag::VolumeKey, short)]),
            &VOLUME,
            &kek
        ),
        Err(ApfsError::Crypto("truncated wrapped VEK"))
    );
    let good = keybag(vec![entry(VOLUME, KeybagTag::VolumeKey, bytes(VEK_256))]);
    assert_eq!(
        unwrap_vek(&good, &VOLUME, &counting(0x41, 32)),
        Err(ApfsError::Crypto("key unwrap failed (wrong password?)"))
    );
    assert_eq!(
        unwrap_vek(&good, &VOLUME, &kek[..7]),
        Err(ApfsError::Crypto("unexpected key-encryption-key length"))
    );
}
