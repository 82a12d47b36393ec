//! The key-unwrapping chain from a password to a Volume Encryption Key.

use crate::crypto::primitives::{
    kw_aes128_unwrap_key, kw_aes256_unwrap_key, pbkdf2_sha256, sha256,
};
use crate::crypto::wrapped_key::parse_wrapped_key_blob;
use crate::crypto::xts::VolumeEncryptionKey;
use crate::error::ApfsError;
use crate::types::bytes::take;
use crate::types::keybag::{Keybag, KeybagEntry, KeybagTag};
use vstd::prelude::*;
use vstd::slice::{slice_subrange, slice_to_vec};

verus! {

/// What unwrapping `wrapped` under `kek` gives. The length of `kek` selects
/// AES-128 or AES-256.
pub open spec fn unwrap_outcome(wrapped: Seq<u8>, kek: Seq<u8>) -> Result<Seq<u8>, ApfsError> {
    if kek.len() != 16 && kek.len() != 32 {
        Err(ApfsError::Crypto("unexpected key-encryption-key length"))
    } else {
        let key = if wrapped.len() < 8 || wrapped.len() % 8 != 0 {
            None
        } else if kek.len() == 16 {
            crate::crypto::primitives::kw_aes128_key(kek, wrapped)
        } else {
            crate::crypto::primitives::kw_aes256_key(kek, wrapped)
        };
        match key {
            Some(key) => Ok(key),
            None => Err(ApfsError::Crypto("key unwrap failed (wrong password?)")),
        }
    }
}

/// RFC 3394 AES key-unwrap, selecting AES-128 or AES-256 by `kek.len()`.
///
/// `wrapped` must be `key_len + 8` bytes (the wrapped key plus the 8-byte
/// integrity check value). Returns `key_len` bytes on success; a wrong key
/// (or corrupt data) is detected by the check value and reported as an
/// error, exactly like a wrong password.
pub fn rfc3394_unwrap(wrapped: &[u8], kek: &[u8]) -> (r: Result<Vec<u8>, ApfsError>)
    ensures
        match r {
            Ok(key) => {
                &&& unwrap_outcome(wrapped@, kek@) == Ok::<Seq<u8>, ApfsError>(key@)
                &&& key@.len() + 8 == wrapped@.len()
            },
            Err(error) => unwrap_outcome(wrapped@, kek@) == Err::<Seq<u8>, ApfsError>(error),
        },
{
    let out_len: usize = wrapped.len().saturating_sub(8);
    let mut out: Vec<u8> = vec![0; out_len];
    if kek.len() == 16 {
        let kek_bytes = take::<16>(kek, 0)?;
        assert(kek_bytes@ =~= kek@);
        match kw_aes128_unwrap_key(&kek_bytes, wrapped, out.as_mut_slice()) {
            Ok(_) => {
                assert(out@ =~= crate::crypto::primitives::kw_aes128_key(kek@, wrapped@)->0);
                Ok(out)
            },
            Err(_) => Err(ApfsError::Crypto("key unwrap failed (wrong password?)")),
        }
    } else if kek.len() == 32 {
        let kek_bytes = take::<32>(kek, 0)?;
        assert(kek_bytes@ =~= kek@);
        match kw_aes256_unwrap_key(&kek_bytes, wrapped, out.as_mut_slice()) {
            Ok(_) => {
                assert(out@ =~= crate::crypto::primitives::kw_aes256_key(kek@, wrapped@)->0);
                Ok(out)
            },
            Err(_) => Err(ApfsError::Crypto("key unwrap failed (wrong password?)")),
        }
    } else {
        Err(ApfsError::Crypto("unexpected key-encryption-key length"))
    }
}

/// The length of the key that a blob with these flags is wrapped under.
pub open spec fn kek_length(flags: u32) -> int {
    if flags & 2 != 0 {
        16
    } else {
        32
    }
}

/// A wrapped Key Encryption Key and what derives the key that unwraps it.
pub struct KekCandidate {
    /// PBKDF2 salt.
    pub salt: Vec<u8>,
    /// PBKDF2 iteration count.
    pub rounds: u32,
    /// The wrapped key with its integrity check value.
    pub wrapped: Vec<u8>,
    /// How many derived bytes unwrap it.
    pub kek_len: usize,
}

/// What a [`KekCandidate`] holds.
#[verifier::ext_equal]
pub struct KekCandidateView {
    /// PBKDF2 salt.
    pub salt: Seq<u8>,
    /// PBKDF2 iteration count.
    pub rounds: u32,
    /// The wrapped key with its integrity check value.
    pub wrapped: Seq<u8>,
    /// How many derived bytes unwrap it.
    pub kek_len: int,
}

impl View for KekCandidate {
    type V = KekCandidateView;

    open spec fn view(&self) -> KekCandidateView {
        KekCandidateView {
            salt: self.salt@,
            rounds: self.rounds,
            wrapped: self.wrapped@,
            kek_len: self.kek_len as int,
        }
    }
}

/// The wrapped Key Encryption Key in an entry's key data. An entry that does
/// not decode, that has no iteration count or no salt, or whose wrapped key is
/// too short holds none.
pub open spec fn kek_candidate_in(key_data: Seq<u8>) -> Option<KekCandidateView> {
    match crate::crypto::wrapped_key::blob_in(key_data) {
        Err(_) => None,
        Ok(blob) => match blob.iterations {
            None => None,
            Some(iterations) => {
                let kek_len = kek_length(blob.flags);
                if blob.salt.len() == 0 || blob.wrapped_key.len() < kek_len + 8 {
                    None
                } else {
                    Some(
                        KekCandidateView {
                            salt: blob.salt,
                            rounds: (iterations % 0x1_0000_0000) as u32,
                            wrapped: blob.wrapped_key.subrange(0, kek_len + 8),
                            kek_len,
                        },
                    )
                }
            },
        },
    }
}

/// Decodes the wrapped Key Encryption Key in an entry's key data.
pub fn kek_candidate(key_data: &[u8]) -> (candidate: Option<KekCandidate>)
    ensures
        match candidate {
            Some(candidate) => kek_candidate_in(key_data@) == Some(candidate@),
            None => kek_candidate_in(key_data@) is None,
        },
{
    let blob = match parse_wrapped_key_blob(key_data) {
        Ok(blob) => blob,
        Err(_) => return None,
    };
    let iterations: u64 = match blob.iterations {
        Some(iterations) => iterations,
        None => return None,
    };
    let kek_len: usize = if blob.flags & 2 != 0 {
        16
    } else {
        32
    };
    if blob.salt.len() == 0 || blob.wrapped_key.len() < kek_len + 8 {
        return None;
    }
    let wrapped = slice_to_vec(slice_subrange(blob.wrapped_key.as_slice(), 0, kek_len + 8));
    Some(
        KekCandidate {
            salt: blob.salt,
            rounds: (iterations % 0x1_0000_0000) as u32,
            wrapped,
            kek_len,
        },
    )
}

/// Unwraps a candidate with the bytes derived from a password.
pub fn unwrap_candidate(candidate: &KekCandidate, derived: &[u8; 32]) -> (r: Result<
    Vec<u8>,
    ApfsError,
>)
    requires
        candidate.kek_len <= 32,
    ensures
        match r {
            Ok(kek) => {
                &&& unwrap_outcome(
                    candidate.wrapped@,
                    derived@.subrange(0, candidate.kek_len as int),
                ) == Ok::<Seq<u8>, ApfsError>(kek@)
                &&& kek@.len() + 8 == candidate.wrapped@.len()
            },
            Err(error) => unwrap_outcome(
                candidate.wrapped@,
                derived@.subrange(0, candidate.kek_len as int),
            ) == Err::<Seq<u8>, ApfsError>(error),
        },
{
    rfc3394_unwrap(candidate.wrapped.as_slice(), slice_subrange(derived, 0, candidate.kek_len))
}

/// The Key Encryption Key that `password` takes out of an entry's key data.
pub open spec fn kek_from(key_data: Seq<u8>, password: Seq<u8>) -> Option<Seq<u8>> {
    match kek_candidate_in(key_data) {
        None => None,
        Some(candidate) => match unwrap_outcome(
            candidate.wrapped,
            crate::crypto::primitives::pbkdf2_sha256_key(
                password,
                candidate.salt,
                candidate.rounds,
            ).subrange(0, candidate.kek_len),
        ) {
            Ok(kek) => Some(kek),
            Err(_) => None,
        },
    }
}

/// The first Key Encryption Key that `password` takes out of `records`.
pub open spec fn first_kek(records: Seq<KeybagEntry>, password: Seq<u8>) -> Option<Seq<u8>>
    decreases records.len(),
{
    if records.len() == 0 {
        None
    } else {
        match kek_from(records[0].key_data@, password) {
            Some(kek) => Some(kek),
            None => first_kek(records.drop_first(), password),
        }
    }
}

/// The entries of a keybag that may hold a wrapped Key Encryption Key.
pub open spec fn unlock_records(keybag: Keybag) -> Seq<KeybagEntry> {
    keybag.entries@.filter(
        |entry: KeybagEntry| entry.tag == KeybagTag::VolumeUnlockRecords.spec_raw(),
    )
}

/// Derives the Key Encryption Key candidates in a volume keybag that unwrap
/// with `password`, returning the first one that succeeds.
///
/// A volume keybag can hold one wrapped KEK per enrolled password/recovery
/// key; every `VolumeUnlockRecords` entry is tried in turn, without assuming
/// a specific user UUID.
pub fn unwrap_any_kek(volume_keybag: &Keybag, password: &[u8]) -> (r: Result<Vec<u8>, ApfsError>)
    ensures
        match r {
            Ok(kek) => {
                &&& first_kek(unlock_records(*volume_keybag), password@) == Some(kek@)
                &&& kek@.len() == 16 || kek@.len() == 32
                &&& exists|i: int|
                    {
                        &&& 0 <= i < volume_keybag.entries@.len()
                        &&& (#[trigger] volume_keybag.entries@[i]).tag == 3
                        &&& kek_from(volume_keybag.entries@[i].key_data@, password@) == Some(kek@)
                        &&& forall|j: int|
                            0 <= j < i && (#[trigger] volume_keybag.entries@[j]).tag == 3
                                ==> kek_from(
                                volume_keybag.entries@[j].key_data@,
                                password@,
                            ) is None
                    }
            },
            Err(error) => {
                &&& first_kek(unlock_records(*volume_keybag), password@) is None
                &&& forall|j: int|
                    0 <= j < volume_keybag.entries@.len() && (
                    #[trigger] volume_keybag.entries@[j]).tag == 3 ==> kek_from(
                        volume_keybag.entries@[j].key_data@,
                        password@,
                    ) is None
                &&& error == ApfsError::Crypto(
                    "no enrolled password/recovery key in this volume's keybag matched the supplied password",
                )
            },
        },
{
    let records = volume_keybag.find_all(KeybagTag::VolumeUnlockRecords);
    let ghost all = unlock_records(*volume_keybag);
    let mut i: usize = 0;
    assert(records@.map_values(|entry: &KeybagEntry| *entry) =~= all);
    assert(all.skip(0) =~= all);
    while i < records.len()
        invariant
            i <= records@.len(),
            records@.len() == all.len(),
            all == unlock_records(*volume_keybag),
            forall|j: int| 0 <= j < all.len() ==> *(#[trigger] records@[j]) == all[j],
            first_kek(all, password@) == first_kek(all.skip(i as int), password@),
        decreases records@.len() - i,
    {
        proof {
            assert(all.skip(i as int)[0] == all[i as int]);
            assert(all.skip(i as int).drop_first() =~= all.skip(i + 1));
        }
        if let Some(candidate) = kek_candidate(records[i].key_data.as_slice()) {
            let derived = pbkdf2_sha256(password, candidate.salt.as_slice(), candidate.rounds);
            if let Ok(kek) = unwrap_candidate(&candidate, &derived) {
                proof {
                    law_any_entry_that_opens_unlocks(*volume_keybag, password@);
                }
                return Ok(kek);
            }
        }
        i = i + 1;
    }
    proof {
        law_any_entry_that_opens_unlocks(*volume_keybag, password@);
    }
    Err(
        ApfsError::Crypto(
            "no enrolled password/recovery key in this volume's keybag matched the supplied password",
        ),
    )
}

/// Joins an unwrapped AES-128 key with the tweak key derived for it.
pub fn converted_vek(unwrapped: &[u8], digest: &[u8; 32]) -> (vek: VolumeEncryptionKey)
    requires
        unwrapped@.len() == 16,
    ensures
        vek@ == unwrapped@ + digest@.subrange(0, 16),
{
    let mut vek: [u8; 32] = [0; 32];
    let mut i: usize = 0;
    while i < 16
        invariant
            i <= 16,
            unwrapped@.len() == 16,
            forall|j: int| 0 <= j < i ==> vek@[j] == unwrapped@[j] && vek@[j + 16] == digest@[j],
        decreases 16 - i,
    {
        vek[i] = unwrapped[i];
        vek[i + 16] = digest[i];
        i = i + 1;
    }
    assert(vek@ =~= unwrapped@ + digest@.subrange(0, 16));
    vek
}

/// The Volume Encryption Key that `kek` takes out of an entry's key data.
pub open spec fn vek_in(key_data: Seq<u8>, kek: Seq<u8>) -> Result<Seq<u8>, ApfsError> {
    match crate::crypto::wrapped_key::blob_in(key_data) {
        Err(error) => Err(error),
        Ok(blob) => if blob.wrapped_key.len() < kek_length(blob.flags) + 8 {
            Err(ApfsError::Crypto("truncated wrapped VEK"))
        } else {
            match unwrap_outcome(
                blob.wrapped_key.subrange(0, kek_length(blob.flags) + 8),
                kek,
            ) {
                Err(error) => Err(error),
                Ok(unwrapped) => if blob.flags & 2 != 0 {
                    Ok(
                        unwrapped + crate::crypto::primitives::sha256_digest(
                            unwrapped + blob.uuid,
                        ).subrange(0, 16),
                    )
                } else {
                    Ok(unwrapped)
                },
            }
        },
    }
}

/// What unwrapping the key of the volume `volume_uuid` with `kek` gives.
pub open spec fn vek_outcome(
    container_entries: Seq<KeybagEntry>,
    volume_uuid: Seq<u8>,
    kek: Seq<u8>,
) -> Result<Seq<u8>, ApfsError> {
    match crate::search::first_where(
        container_entries,
        |entry: KeybagEntry|
            crate::types::keybag::entry_matches(entry, volume_uuid, KeybagTag::VolumeKey),
    ) {
        None => Err(
            ApfsError::Crypto(
                "container keybag has no wrapped Volume Encryption Key for this volume",
            ),
        ),
        Some(entry) => vek_in(entry.key_data@, kek),
    }
}

/// Unwraps a volume's Volume Encryption Key using its container keybag entry
/// and an already-unwrapped Key Encryption Key.
pub fn unwrap_vek(container_keybag: &Keybag, volume_uuid: &[u8; 16], kek: &[u8]) -> (r: Result<
    VolumeEncryptionKey,
    ApfsError,
>)
    ensures
        match r {
            Ok(vek) => vek_outcome(container_keybag.entries@, volume_uuid@, kek@) == Ok::<
                Seq<u8>,
                ApfsError,
            >(vek@),
            Err(error) => vek_outcome(container_keybag.entries@, volume_uuid@, kek@) == Err::<
                Seq<u8>,
                ApfsError,
            >(error),
        },
{
    let entry = match container_keybag.find(volume_uuid, KeybagTag::VolumeKey) {
        Some(entry) => entry,
        None => return Err(
            ApfsError::Crypto(
                "container keybag has no wrapped Volume Encryption Key for this volume",
            ),
        ),
    };
    let blob = parse_wrapped_key_blob(entry.key_data.as_slice())?;
    if blob.flags & 2 != 0 {
        // AES-128 variant, used by FileVault/CoreStorage-converted volumes:
        // only the first 16 bytes are wrapped, and the XTS tweak key half is
        // derived by hashing rather than being independently wrapped.
        if blob.wrapped_key.len() < 24 {
            return Err(ApfsError::Crypto("truncated wrapped VEK"));
        }
        let wrapped = slice_subrange(blob.wrapped_key.as_slice(), 0, 24);
        let unwrapped = rfc3394_unwrap(wrapped, kek)?;
        let mut hashed: Vec<u8> = slice_to_vec(unwrapped.as_slice());
        let mut uuid: Vec<u8> = slice_to_vec(blob.uuid.as_slice());
        hashed.append(&mut uuid);
        let digest = sha256(hashed.as_slice());
        Ok(converted_vek(unwrapped.as_slice(), &digest))
    } else {
        if blob.wrapped_key.len() < 40 {
            return Err(ApfsError::Crypto("truncated wrapped VEK"));
        }
        let wrapped = slice_subrange(blob.wrapped_key.as_slice(), 0, 40);
        let unwrapped = rfc3394_unwrap(wrapped, kek)?;
        let vek = take::<32>(unwrapped.as_slice(), 0)?;
        assert(vek@ =~= unwrapped@);
        Ok(vek)
    }
}

/// What unlocking a volume with a password gives.
pub open spec fn unlock_outcome(
    container_keybag: Keybag,
    volume_keybag: Keybag,
    volume_uuid: Seq<u8>,
    password: Seq<u8>,
) -> Result<Seq<u8>, ApfsError> {
    match first_kek(unlock_records(volume_keybag), password) {
        None => Err(
            ApfsError::Crypto(
                "no enrolled password/recovery key in this volume's keybag matched the supplied password",
            ),
        ),
        Some(kek) => vek_outcome(container_keybag.entries@, volume_uuid, kek),
    }
}

/// Unlocks a volume's Volume Encryption Key from its container keybag and
/// volume keybag, given a password (or recovery key, which is used the same
/// way as a password here).
///
/// `container_keybag` and `volume_keybag` are the already-decrypted keybags
/// (see [`decrypt_keybag_block`](crate::crypto::decrypt_keybag_block));
/// `volume_uuid` identifies the volume in both. Returns
/// [`ApfsError::Crypto`] if the password doesn't match any enrolled key.
pub fn unlock_volume_key(
    container_keybag: &Keybag,
    volume_keybag: &Keybag,
    volume_uuid: &[u8; 16],
    password: &[u8],
) -> (r: Result<VolumeEncryptionKey, ApfsError>)
    ensures
        match r {
            Ok(vek) => unlock_outcome(
                *container_keybag,
                *volume_keybag,
                volume_uuid@,
                password@,
            ) == Ok::<Seq<u8>, ApfsError>(vek@),
            Err(error) => unlock_outcome(
                *container_keybag,
                *volume_keybag,
                volume_uuid@,
                password@,
            ) == Err::<Seq<u8>, ApfsError>(error),
        },
{
    let kek = unwrap_any_kek(volume_keybag, password)?;
    unwrap_vek(container_keybag, volume_uuid, kek.as_slice())
}

/// A password unlocks a volume keybag if and only if it unlocks one of its
/// records, whichever that is.
pub proof fn law_any_enrolled_key_unlocks(records: Seq<KeybagEntry>, password: Seq<u8>)
    ensures
        first_kek(records, password) is Some <==> exists|i: int|
            0 <= i < records.len() && kek_from(
                (#[trigger] records[i]).key_data@,
                password,
            ) is Some,
    decreases records.len(),
{
    if records.len() > 0 {
        let rest = records.drop_first();
        law_any_enrolled_key_unlocks(rest, password);
        if first_kek(rest, password) is Some {
            let i = choose|i: int|
                0 <= i < rest.len() && kek_from((#[trigger] rest[i]).key_data@, password) is Some;
            assert(rest[i] == records[i + 1]);
        }
        if exists|i: int|
            0 <= i < records.len() && kek_from(
                (#[trigger] records[i]).key_data@,
                password,
            ) is Some {
            let i = choose|i: int|
                0 <= i < records.len() && kek_from(
                    (#[trigger] records[i]).key_data@,
                    password,
                ) is Some;
            if i > 0 {
                assert(rest[i - 1] == records[i]);
            }
        }
    }
}

/// No user identifier is assumed: records with the same key data unlock alike,
/// whomever they are filed under.
pub proof fn law_user_identifiers_do_not_matter(
    records: Seq<KeybagEntry>,
    others: Seq<KeybagEntry>,
    password: Seq<u8>,
)
    requires
        records.len() == others.len(),
        forall|i: int|
            0 <= i < records.len() ==> (#[trigger] records[i]).key_data@ == others[i].key_data@,
    ensures
        first_kek(records, password) == first_kek(others, password),
    decreases records.len(),
{
    if records.len() > 0 {
        assert(records[0].key_data@ == others[0].key_data@);
        assert forall|i: int| 0 <= i < records.len() - 1 implies (
        #[trigger] records.drop_first()[i]).key_data@ == others.drop_first()[i].key_data@ by {
            assert(records.drop_first()[i] == records[i + 1]);
        }
        law_user_identifiers_do_not_matter(records.drop_first(), others.drop_first(), password);
    }
}

/// Whatever keeps a volume locked is reported as a decryption error.
pub proof fn law_locked_volumes_report_crypto_errors(
    container_keybag: Keybag,
    volume_keybag: Keybag,
    volume_uuid: Seq<u8>,
    password: Seq<u8>,
)
    ensures
        unlock_outcome(container_keybag, volume_keybag, volume_uuid, password) matches Err(error)
            ==> error is Crypto,
{
    if let Some(kek) = first_kek(unlock_records(volume_keybag), password) {
        if let Some(entry) = crate::search::first_where(
            container_keybag.entries@,
            |entry: KeybagEntry|
                crate::types::keybag::entry_matches(entry, volume_uuid, KeybagTag::VolumeKey),
        ) {
            crate::crypto::wrapped_key::law_malformed_blobs_report_crypto_errors(
                entry.key_data@,
            );
        }
    }
}

/// A record at the end counts only when none before it opens.
proof fn lemma_first_kek_push(records: Seq<KeybagEntry>, record: KeybagEntry, password: Seq<u8>)
    ensures
        first_kek(records.push(record), password) == (match first_kek(records, password) {
            Some(kek) => Some(kek),
            None => kek_from(record.key_data@, password),
        }),
    decreases records.len(),
{
    reveal_with_fuel(first_kek, 2);
    if records.len() > 0 {
        lemma_first_kek_push(records.drop_first(), record, password);
        assert(records.push(record).drop_first() =~= records.drop_first().push(record));
        assert(records.push(record)[0] == records[0]);
    } else {
        assert(records.push(record).drop_first() =~= Seq::<KeybagEntry>::empty());
    }
}

/// The first key among the records of `entries`, by the index of its entry.
proof fn lemma_first_kek_of_entries(entries: Seq<KeybagEntry>, password: Seq<u8>)
    ensures
        match first_kek(
            entries.filter(
                |entry: KeybagEntry| entry.tag == KeybagTag::VolumeUnlockRecords.spec_raw(),
            ),
            password,
        ) {
            Some(kek) => exists|i: int|
                {
                    &&& 0 <= i < entries.len()
                    &&& (#[trigger] entries[i]).tag == 3
                    &&& kek_from(entries[i].key_data@, password) == Some(kek)
                    &&& forall|j: int|
                        0 <= j < i && (#[trigger] entries[j]).tag == 3 ==> kek_from(
                            entries[j].key_data@,
                            password,
                        ) is None
                },
            None => forall|j: int|
                0 <= j < entries.len() && (#[trigger] entries[j]).tag == 3 ==> kek_from(
                    entries[j].key_data@,
                    password,
                ) is None,
        },
    decreases entries.len(),
{
    reveal(Seq::filter);
    if entries.len() > 0 {
        let keep = |entry: KeybagEntry| entry.tag == KeybagTag::VolumeUnlockRecords.spec_raw();
        let before = entries.drop_last();
        let last = entries.last();
        lemma_first_kek_of_entries(before, password);
        lemma_first_kek_push(before.filter(keep), last, password);
        assert(forall|j: int| 0 <= j < before.len() ==> entries[j] == #[trigger] before[j]);
        match first_kek(before.filter(keep), password) {
            Some(kek) => {
                let i = choose|i: int|
                    {
                        &&& 0 <= i < before.len()
                        &&& (#[trigger] before[i]).tag == 3
                        &&& kek_from(before[i].key_data@, password) == Some(kek)
                        &&& forall|j: int|
                            0 <= j < i && (#[trigger] before[j]).tag == 3 ==> kek_from(
                                before[j].key_data@,
                                password,
                            ) is None
                    };
                assert(entries[i] == before[i]);
                assert forall|j: int| 0 <= j < i && (#[trigger] entries[j]).tag
                    == 3 implies kek_from(entries[j].key_data@, password) is None by {
                    assert(before[j] == entries[j]);
                }
            },
            None => {
                let i = entries.len() - 1;
                assert forall|j: int| 0 <= j < i && (#[trigger] entries[j]).tag
                    == 3 implies kek_from(entries[j].key_data@, password) is None by {
                    assert(before[j] == entries[j]);
                }
                assert(entries[i] == last);
            },
        }
    } else {
        assert(entries.filter(
            |entry: KeybagEntry| entry.tag == KeybagTag::VolumeUnlockRecords.spec_raw(),
        ) =~= Seq::empty());
    }
}

/// A password opens a volume keybag if and only if it opens one of the entries
/// with tag 3, wherever in the keybag that entry stands. The key comes out of
/// the first such entry that it opens.
pub proof fn law_any_entry_that_opens_unlocks(keybag: Keybag, password: Seq<u8>)
    ensures
        first_kek(unlock_records(keybag), password) is Some <==> exists|i: int|
            {
                &&& 0 <= i < keybag.entries@.len()
                &&& (#[trigger] keybag.entries@[i]).tag == 3
                &&& kek_from(keybag.entries@[i].key_data@, password) is Some
            },
        first_kek(unlock_records(keybag), password) matches Some(kek) ==> exists|i: int|
            {
                &&& 0 <= i < keybag.entries@.len()
                &&& (#[trigger] keybag.entries@[i]).tag == 3
                &&& kek_from(keybag.entries@[i].key_data@, password) == Some(kek)
                &&& forall|j: int|
                    0 <= j < i && (#[trigger] keybag.entries@[j]).tag == 3 ==> kek_from(
                        keybag.entries@[j].key_data@,
                        password,
                    ) is None
            },
{
    lemma_first_kek_of_entries(keybag.entries@, password);
}

/// What unwrapping a key gives: sixteen bytes unwrap with AES-128, thirty-two
/// with AES-256, and no other length does. What is not a whole number of
/// eight-byte groups, or fails its integrity check, is refused.
pub proof fn law_unwrapping_goes_by_key_length(wrapped: Seq<u8>, kek: Seq<u8>)
    ensures
        kek.len() != 16 && kek.len() != 32 ==> unwrap_outcome(wrapped, kek) == Err::<
            Seq<u8>,
            ApfsError,
        >(ApfsError::Crypto("unexpected key-encryption-key length")),
        kek.len() == 16 || kek.len() == 32 ==> (wrapped.len() < 8 || wrapped.len() % 8 != 0
            ==> unwrap_outcome(wrapped, kek) == Err::<Seq<u8>, ApfsError>(
            ApfsError::Crypto("key unwrap failed (wrong password?)"),
        )),
        kek.len() == 16 && wrapped.len() >= 8 && wrapped.len() % 8 == 0 ==> unwrap_outcome(
            wrapped,
            kek,
        ) == (match crate::crypto::primitives::kw_aes128_key(kek, wrapped) {
            Some(key) => Ok::<Seq<u8>, ApfsError>(key),
            None => Err::<Seq<u8>, ApfsError>(
                ApfsError::Crypto("key unwrap failed (wrong password?)"),
            ),
        }),
        kek.len() == 32 && wrapped.len() >= 8 && wrapped.len() % 8 == 0 ==> unwrap_outcome(
            wrapped,
            kek,
        ) == (match crate::crypto::primitives::kw_aes256_key(kek, wrapped) {
            Some(key) => Ok::<Seq<u8>, ApfsError>(key),
            None => Err::<Seq<u8>, ApfsError>(
                ApfsError::Crypto("key unwrap failed (wrong password?)"),
            ),
        }),
{
}

/// What key a password takes out of an entry. The entry has to decode, and to
/// name an iteration count and a salt. The second bit of its flags tells the
/// length: with it, sixteen derived bytes unwrap twenty-four; without it,
/// thirty-two unwrap forty. Fewer wrapped bytes hold no key.
pub proof fn law_password_derives_the_unwrapping_key(key_data: Seq<u8>, password: Seq<u8>)
    ensures
        match crate::crypto::wrapped_key::blob_in(key_data) {
            Err(_) => kek_from(key_data, password) is None,
            Ok(blob) => {
                let derived = crate::crypto::primitives::pbkdf2_sha256_key(
                    password,
                    blob.salt,
                    (blob.iterations->0 % 0x1_0000_0000) as u32,
                );
                &&& blob.iterations is None || blob.salt.len() == 0 ==> kek_from(
                    key_data,
                    password,
                ) is None
                &&& (blob.flags / 2) % 2 == 1 && blob.wrapped_key.len() < 24 ==> kek_from(
                    key_data,
                    password,
                ) is None
                &&& (blob.flags / 2) % 2 == 0 && blob.wrapped_key.len() < 40 ==> kek_from(
                    key_data,
                    password,
                ) is None
                &&& blob.iterations is Some && blob.salt.len() > 0 && (blob.flags / 2) % 2 == 1
                    && blob.wrapped_key.len() >= 24 && derived.len() == 32 ==> kek_from(
                    key_data,
                    password,
                ) == crate::crypto::primitives::kw_aes128_key(
                    derived.subrange(0, 16),
                    blob.wrapped_key.subrange(0, 24),
                )
                &&& blob.iterations is Some && blob.salt.len() > 0 && (blob.flags / 2) % 2 == 0
                    && blob.wrapped_key.len() >= 40 && derived.len() == 32 ==> kek_from(
                    key_data,
                    password,
                ) == crate::crypto::primitives::kw_aes256_key(
                    derived,
                    blob.wrapped_key.subrange(0, 40),
                )
            },
        },
{
    if let Ok(blob) = crate::crypto::wrapped_key::blob_in(key_data) {
        let flags = blob.flags;
        let derived = crate::crypto::primitives::pbkdf2_sha256_key(
            password,
            blob.salt,
            (blob.iterations->0 % 0x1_0000_0000) as u32,
        );
        assert((flags & 2 != 0) <==> ((flags / 2) % 2 == 1)) by (bit_vector);
        if derived.len() == 32 {
            assert(derived.subrange(0, 32) =~= derived);
        }
    }
}

/// What key a Key Encryption Key takes out of an entry. With the second bit of
/// the flags the first twenty-four bytes unwrap, and the other half of the key
/// is the start of the digest of what came out and the blob's identifier;
/// without it the first forty bytes unwrap, to the whole key.
pub proof fn law_volume_key_of_an_entry(key_data: Seq<u8>, kek: Seq<u8>)
    ensures
        match crate::crypto::wrapped_key::blob_in(key_data) {
            Err(error) => vek_in(key_data, kek) == Err::<Seq<u8>, ApfsError>(error),
            Ok(blob) => if (blob.flags / 2) % 2 == 1 {
                if blob.wrapped_key.len() < 24 {
                    vek_in(key_data, kek) == Err::<Seq<u8>, ApfsError>(
                        ApfsError::Crypto("truncated wrapped VEK"),
                    )
                } else {
                    match unwrap_outcome(blob.wrapped_key.subrange(0, 24), kek) {
                        Err(error) => vek_in(key_data, kek) == Err::<Seq<u8>, ApfsError>(error),
                        Ok(key) => vek_in(key_data, kek) == Ok::<Seq<u8>, ApfsError>(
                            key + crate::crypto::primitives::sha256_digest(
                                key + blob.uuid,
                            ).subrange(0, 16),
                        ),
                    }
                }
            } else {
                if blob.wrapped_key.len() < 40 {
                    vek_in(key_data, kek) == Err::<Seq<u8>, ApfsError>(
                        ApfsError::Crypto("truncated wrapped VEK"),
                    )
                } else {
                    vek_in(key_data, kek) == unwrap_outcome(
                        blob.wrapped_key.subrange(0, 40),
                        kek,
                    )
                }
            },
        },
{
    if let Ok(blob) = crate::crypto::wrapped_key::blob_in(key_data) {
        let flags = blob.flags;
        assert((flags & 2 != 0) <==> ((flags / 2) % 2 == 1)) by (bit_vector);
    }
}

/// Which entry a volume's key comes out of: the first in the container keybag
/// with the volume's identifier and tag 2. Without one there is no key.
pub proof fn law_volume_key_entry(entries: Seq<KeybagEntry>, volume_uuid: Seq<u8>, kek: Seq<u8>)
    ensures
        forall|i: int|
            0 <= i < entries.len() && (#[trigger] entries[i]).uuid@ == volume_uuid
                && entries[i].tag == 2 && (forall|j: int|
                0 <= j < i ==> !((#[trigger] entries[j]).uuid@ == volume_uuid && entries[j].tag
                    == 2)) ==> vek_outcome(entries, volume_uuid, kek) == vek_in(
                entries[i].key_data@,
                kek,
            ),
        (forall|j: int|
            0 <= j < entries.len() ==> !((#[trigger] entries[j]).uuid@ == volume_uuid
                && entries[j].tag == 2)) ==> vek_outcome(entries, volume_uuid, kek) == Err::<
            Seq<u8>,
            ApfsError,
        >(
            ApfsError::Crypto(
                "container keybag has no wrapped Volume Encryption Key for this volume",
            ),
        ),
{
    let wanted = |entry: KeybagEntry|
        crate::types::keybag::entry_matches(entry, volume_uuid, KeybagTag::VolumeKey);
    assert forall|i: int|
        0 <= i < entries.len() && (#[trigger] entries[i]).uuid@ == volume_uuid && entries[i].tag
            == 2 && (forall|j: int|
            0 <= j < i ==> !((#[trigger] entries[j]).uuid@ == volume_uuid && entries[j].tag
                == 2)) implies vek_outcome(entries, volume_uuid, kek) == vek_in(
        entries[i].key_data@,
        kek,
    ) by {
        crate::search::lemma_first_where(entries, wanted, i);
    }
    if forall|j: int|
        0 <= j < entries.len() ==> !((#[trigger] entries[j]).uuid@ == volume_uuid
            && entries[j].tag == 2) {
        crate::search::lemma_first_where(entries, wanted, entries.len() as int);
    }
}

/// What unlocks a volume: the first entry of the volume keybag with tag 3 that
/// the password opens gives the key that opens the first entry of the container
/// keybag with the volume's identifier and tag 2. A password that opens no
/// entry unlocks nothing.
pub proof fn law_unlocking_goes_through_both_keybags(
    container_keybag: Keybag,
    volume_keybag: Keybag,
    volume_uuid: Seq<u8>,
    password: Seq<u8>,
    i: int,
    k: int,
)
    requires
        0 <= i < volume_keybag.entries@.len(),
        volume_keybag.entries@[i].tag == 3,
        forall|j: int|
            0 <= j < i && (#[trigger] volume_keybag.entries@[j]).tag == 3 ==> kek_from(
                volume_keybag.entries@[j].key_data@,
                password,
            ) is None,
        0 <= k < container_keybag.entries@.len(),
        container_keybag.entries@[k].uuid@ == volume_uuid,
        container_keybag.entries@[k].tag == 2,
        forall|j: int|
            0 <= j < k ==> !((#[trigger] container_keybag.entries@[j]).uuid@ == volume_uuid
                && container_keybag.entries@[j].tag == 2),
    ensures
        kek_from(volume_keybag.entries@[i].key_data@, password) matches Some(kek)
            ==> unlock_outcome(container_keybag, volume_keybag, volume_uuid, password) == vek_in(
            container_keybag.entries@[k].key_data@,
            kek,
        ),
        (forall|j: int|
            i <= j < volume_keybag.entries@.len() && (
            #[trigger] volume_keybag.entries@[j]).tag == 3 ==> kek_from(
                volume_keybag.entries@[j].key_data@,
                password,
            ) is None) ==> unlock_outcome(
            container_keybag,
            volume_keybag,
            volume_uuid,
            password,
        ) == Err::<Seq<u8>, ApfsError>(
            ApfsError::Crypto(
                "no enrolled password/recovery key in this volume's keybag matched the supplied password",
            ),
        ),
{
    let entries = volume_keybag.entries@;
    law_any_entry_that_opens_unlocks(volume_keybag, password);
    if let Some(kek) = kek_from(entries[i].key_data@, password) {
        assert(entries[i].tag == 3);
        assert(first_kek(unlock_records(volume_keybag), password) is Some);
        let found = first_kek(unlock_records(volume_keybag), password)->0;
        let n = choose|n: int|
            {
                &&& 0 <= n < entries.len()
                &&& (#[trigger] entries[n]).tag == 3
                &&& kek_from(entries[n].key_data@, password) == Some(found)
                &&& forall|j: int|
                    0 <= j < n && (#[trigger] entries[j]).tag == 3 ==> kek_from(
                        entries[j].key_data@,
                        password,
                    ) is None
            };
        assert(n == i);
        assert(found == kek);
        assert(vek_outcome(container_keybag.entries@, volume_uuid, kek) == vek_in(
            container_keybag.entries@[k].key_data@,
            kek,
        )) by {
            law_volume_key_entry(container_keybag.entries@, volume_uuid, kek);
            assert(container_keybag.entries@[k].tag == 2);
        }
    }
}

/// A candidate is shown as it is: field by field.
pub proof fn law_candidates_are_shown_whole(candidate: KekCandidate)
    ensures
        candidate@.salt == candidate.salt@,
        candidate@.rounds == candidate.rounds,
        candidate@.wrapped == candidate.wrapped@,
        candidate@.kek_len == candidate.kek_len,
{
}

} // verus!
