//! APFS keybag (`kb_locker_t`/`media_keybag_t`) parsing.
//!
//! Every APFS container has a keybag at the block range recorded by the
//! container superblock's `nx_keylocker`, holding wrapped Volume Encryption
//! Keys (VEKs) and pointers to each volume's own keybag (which in turn holds
//! wrapped Key Encryption Keys, one per enrolled user/password/recovery key).
//! See [`crate::crypto`] for unwrapping these into usable AES-XTS keys.

use crate::error::ApfsError;
use crate::types::bytes::{le_u16, le_u32, le_u64, same_uuid, take};
use crate::types::object::{ObjectHeader, OBJECT_HEADER_SIZE};
use vstd::prelude::*;
use vstd::slice::{slice_subrange, slice_to_vec};

verus! {

/// Raw APFS object type of a container keybag (`APFS_KEYBAG_OBJ`, `'keys'`).
///
/// Unlike the small sequential values in
/// [`ObjectType`](crate::types::object::ObjectType), keybag object types
/// are ASCII four-character codes and are compared against the *entire*
/// 32-bit `o_type` field, not just [`ObjectHeader::kind`]'s low 16 bits.
pub const CONTAINER_KEYBAG_OBJECT_TYPE: u32 = 0x6B65_7973;

/// Raw APFS object type of a volume keybag (`APFS_VOL_KEYBAG_OBJ`, `'recs'`).
pub const VOLUME_KEYBAG_OBJECT_TYPE: u32 = 0x7265_6373;

/// Current keybag format version (`KEYBAG_VERSION`).
pub const KEYBAG_VERSION: u16 = 2;

/// Fixed-size header preceding an entry's variable-length key data.
pub const KEYBAG_ENTRY_HEADER_SIZE: usize = 24;

/// Fixed-size header preceding a keybag's entries.
pub const KEYBAG_HEADER_SIZE: usize = 16;

/// A keybag entry's tag, describing what kind of key material it holds
/// (`keybag_tag_t`). The variants are declared in the order of their on-disk
/// values, starting at zero.
#[derive(Debug, Clone, Copy, PartialEq, Eq, Structural)]
pub enum KeybagTag {
    /// Reserved; never expected on disk.
    Unknown,
    /// Reserved (`KB_TAG_WRAPPING_KEY`).
    WrappingKey,
    /// Wrapped Volume Encryption Key (container keybag only).
    VolumeKey,
    /// In a container keybag: location of a volume's own keybag. In a
    /// volume keybag: a wrapped Key Encryption Key.
    VolumeUnlockRecords,
    /// User-supplied password hint, stored as plain text (volume keybag only).
    VolumePassphraseHint,
    /// Reserved (`KB_TAG_USER_PAYLOAD`).
    UserPayload,
}

impl KeybagTag {
    /// The on-disk value of this tag.
    pub open spec fn spec_raw(self) -> u16 {
        match self {
            KeybagTag::Unknown => 0,
            KeybagTag::WrappingKey => 1,
            KeybagTag::VolumeKey => 2,
            KeybagTag::VolumeUnlockRecords => 3,
            KeybagTag::VolumePassphraseHint => 4,
            KeybagTag::UserPayload => 5,
        }
    }

    /// Returns the on-disk value of this tag.
    pub fn raw(self) -> (value: u16)
        ensures
            value == self.spec_raw(),
    {
        match self {
            KeybagTag::Unknown => 0,
            KeybagTag::WrappingKey => 1,
            KeybagTag::VolumeKey => 2,
            KeybagTag::VolumeUnlockRecords => 3,
            KeybagTag::VolumePassphraseHint => 4,
            KeybagTag::UserPayload => 5,
        }
    }

    /// Converts a raw on-disk tag value to a known variant, if recognized.
    pub fn from_raw(value: u16) -> (tag: Option<Self>)
        ensures
            match tag {
                Some(tag) => tag.spec_raw() == value,
                None => value > 5,
            },
    {
        match value {
            0 => Some(KeybagTag::Unknown),
            1 => Some(KeybagTag::WrappingKey),
            2 => Some(KeybagTag::VolumeKey),
            3 => Some(KeybagTag::VolumeUnlockRecords),
            4 => Some(KeybagTag::VolumePassphraseHint),
            5 => Some(KeybagTag::UserPayload),
            _ => None,
        }
    }
}

/// A physical block range (`prange_t`): used by keybag entries that point at
/// another keybag's location on disk.
#[derive(Debug, Clone, Copy, PartialEq, Eq)]
pub struct PhysicalRange {
    /// First physical APFS block address in the range.
    pub start_block: u64,
    /// Number of blocks in the range.
    pub block_count: u64,
}

impl PhysicalRange {
    /// Parses a physical range from its 16-byte on-disk representation.
    pub fn parse(data: &[u8]) -> (r: Result<Self, ApfsError>)
        ensures
            data@.len() >= 16 ==> r == Ok::<Self, ApfsError>(
                PhysicalRange {
                    start_block: crate::types::bytes::u64_at(data@, 0),
                    block_count: crate::types::bytes::u64_at(data@, 8),
                },
            ),
            data@.len() < 16 ==> r == Err::<Self, ApfsError>(ApfsError::InputTooSmall),
    {
        Ok(PhysicalRange { start_block: le_u64(data, 0)?, block_count: le_u64(data, 8)? })
    }
}

/// One entry in a keybag (`keybag_entry_t`).
#[derive(Debug, Clone, PartialEq, Eq)]
pub struct KeybagEntry {
    /// In a container keybag: a volume's UUID. In a volume keybag: a user's UUID.
    pub uuid: [u8; 16],
    /// Raw on-disk tag value; see [`KeybagTag`] for known values.
    pub tag: u16,
    /// This entry's key data.
    pub key_data: Vec<u8>,
}

/// What a keybag entry holds.
#[verifier::ext_equal]
pub struct KeybagEntryView {
    /// Sixteen identifier bytes.
    pub uuid: Seq<u8>,
    /// Raw tag value.
    pub tag: u16,
    /// Key data bytes.
    pub key_data: Seq<u8>,
}

impl View for KeybagEntry {
    type V = KeybagEntryView;

    open spec fn view(&self) -> KeybagEntryView {
        KeybagEntryView { uuid: self.uuid@, tag: self.tag, key_data: self.key_data@ }
    }
}

/// The key length recorded by the entry at `offset`.
pub open spec fn entry_key_length(data: Seq<u8>, offset: int) -> int {
    crate::types::bytes::u16_at(data, offset + 18) as int
}

/// Whether `data` holds the whole entry that starts at `offset`.
pub open spec fn entry_fits(data: Seq<u8>, offset: int) -> bool {
    &&& offset + KEYBAG_ENTRY_HEADER_SIZE <= data.len()
    &&& offset + KEYBAG_ENTRY_HEADER_SIZE + entry_key_length(data, offset) <= data.len()
}

/// The entry that starts at `offset`.
pub open spec fn entry_at(data: Seq<u8>, offset: int) -> KeybagEntryView {
    KeybagEntryView {
        uuid: data.subrange(offset, offset + 16),
        tag: crate::types::bytes::u16_at(data, offset + 16),
        key_data: data.subrange(
            offset + KEYBAG_ENTRY_HEADER_SIZE,
            offset + KEYBAG_ENTRY_HEADER_SIZE + entry_key_length(data, offset),
        ),
    }
}

/// `size` rounded up to a multiple of sixteen.
pub open spec fn round_up_16(size: int) -> int {
    (size + 15) / 16 * 16
}

/// The distance from the entry at `offset` to the one after it.
pub open spec fn entry_stride(data: Seq<u8>, offset: int) -> int {
    round_up_16(KEYBAG_ENTRY_HEADER_SIZE + entry_key_length(data, offset))
}

/// The `count` consecutive entries that start at `offset`, or nothing when
/// one of them does not fit.
pub open spec fn entries_from(data: Seq<u8>, offset: int, count: nat) -> Option<
    Seq<KeybagEntryView>,
>
    decreases count,
{
    if count == 0 {
        Some(Seq::empty())
    } else if !entry_fits(data, offset) {
        None
    } else {
        match entries_from(data, offset + entry_stride(data, offset), (count - 1) as nat) {
            Some(rest) => Some(seq![entry_at(data, offset)] + rest),
            None => None,
        }
    }
}

/// Moves every offset of an entry list into a part of the buffer.
proof fn lemma_entry_in_part(data: Seq<u8>, offset: int)
    requires
        0 <= offset <= data.len(),
    ensures
        ({
            let rest = data.subrange(offset, data.len() as int);
            &&& data.len() - offset >= 20 ==> entry_key_length(rest, 0) == entry_key_length(
                data,
                offset,
            )
            &&& entry_fits(rest, 0) == entry_fits(data, offset)
            &&& entry_fits(data, offset) ==> entry_at(rest, 0) == entry_at(data, offset)
        }),
{
    let rest = data.subrange(offset, data.len() as int);
    if data.len() - offset >= 20 {
        assert(rest.subrange(18, 20) =~= data.subrange(offset + 18, offset + 20));
        assert(rest.subrange(16, 18) =~= data.subrange(offset + 16, offset + 18));
        if entry_fits(data, offset) {
            let end = KEYBAG_ENTRY_HEADER_SIZE + entry_key_length(data, offset);
            assert(rest.subrange(0, 16) =~= data.subrange(offset, offset + 16));
            assert(rest.subrange(KEYBAG_ENTRY_HEADER_SIZE as int, end) =~= data.subrange(
                offset + KEYBAG_ENTRY_HEADER_SIZE,
                offset + end,
            ));
        }
    }
}

impl KeybagEntry {
    /// Parses one keybag entry starting at `data`'s beginning, returning the
    /// parsed entry and the total size (header + key data, rounded up to a
    /// 16-byte boundary) it occupies.
    pub fn parse_one(data: &[u8]) -> (r: Result<(Self, usize), ApfsError>)
        ensures
            match r {
                Ok((entry, occupied)) => {
                    &&& entry_fits(data@, 0)
                    &&& entry@ == entry_at(data@, 0)
                    &&& occupied == entry_stride(data@, 0)
                },
                Err(error) => !entry_fits(data@, 0) && error == ApfsError::InputTooSmall,
            },
    {
        let uuid = take::<16>(data, 0)?;
        let tag: u16 = le_u16(data, 16)?;
        let key_length: usize = le_u16(data, 18)? as usize;
        let len: usize = data.len();
        if len < KEYBAG_ENTRY_HEADER_SIZE || len - KEYBAG_ENTRY_HEADER_SIZE < key_length {
            return Err(ApfsError::InputTooSmall);
        }
        let key_data = slice_to_vec(
            slice_subrange(data, KEYBAG_ENTRY_HEADER_SIZE, KEYBAG_ENTRY_HEADER_SIZE + key_length),
        );
        let occupied: usize = (key_length + KEYBAG_ENTRY_HEADER_SIZE + 15) / 16 * 16;
        Ok((KeybagEntry { uuid, tag, key_data }, occupied))
    }
}

/// A parsed keybag (`kb_locker_t`), either a container's or a volume's.
#[derive(Debug, Clone, PartialEq, Eq)]
pub struct Keybag {
    /// On-disk format version; should be [`KEYBAG_VERSION`].
    pub version: u16,
    /// This keybag's entries.
    pub entries: Vec<KeybagEntry>,
}

/// What a keybag holds.
#[verifier::ext_equal]
pub struct KeybagView {
    /// Format version.
    pub version: u16,
    /// Entries in on-disk order.
    pub entries: Seq<KeybagEntryView>,
}

impl View for Keybag {
    type V = KeybagView;

    open spec fn view(&self) -> KeybagView {
        KeybagView {
            version: self.version,
            entries: self.entries@.map_values(|entry: KeybagEntry| entry@),
        }
    }
}

/// The keybag whose body is `data`, or nothing when `data` ends too early.
pub open spec fn keybag_in(data: Seq<u8>) -> Option<KeybagView> {
    if data.len() < KEYBAG_HEADER_SIZE {
        None
    } else {
        let version = crate::types::bytes::u16_at(data, 0);
        let count = crate::types::bytes::u16_at(data, 2) as nat;
        let entries_bytes = crate::types::bytes::u32_at(data, 4) as int;
        if KEYBAG_HEADER_SIZE + entries_bytes > data.len() {
            None
        } else {
            match entries_from(
                data.subrange(KEYBAG_HEADER_SIZE as int, KEYBAG_HEADER_SIZE + entries_bytes),
                0,
                count,
            ) {
                Some(entries) => Some(KeybagView { version, entries }),
                None => None,
            }
        }
    }
}

/// Whether `entry` is the one that `uuid` and `tag` ask for.
pub open spec fn entry_matches(entry: KeybagEntry, uuid: Seq<u8>, tag: KeybagTag) -> bool {
    entry.uuid@ == uuid && entry.tag == tag.spec_raw()
}

impl Keybag {
    /// Parses a keybag body (`kb_locker_t`), i.e. the bytes starting right
    /// after a [`MediaKeybag`]'s object header.
    pub fn parse(data: &[u8]) -> (r: Result<Self, ApfsError>)
        ensures
            match r {
                Ok(keybag) => keybag_in(data@) == Some(keybag@),
                Err(error) => keybag_in(data@) is None && error == ApfsError::InputTooSmall,
            },
    {
        let version: u16 = le_u16(data, 0)?;
        let number_entries: usize = le_u16(data, 2)? as usize;
        let entries_bytes: u32 = le_u32(data, 4)?;
        let len: usize = data.len();
        if len < KEYBAG_HEADER_SIZE || ((len - KEYBAG_HEADER_SIZE) as u64) < entries_bytes as u64 {
            return Err(ApfsError::InputTooSmall);
        }
        let entries_end: usize = KEYBAG_HEADER_SIZE + entries_bytes as usize;
        let entries_data = slice_subrange(data, KEYBAG_HEADER_SIZE, entries_end);
        let entries_len: usize = entries_data.len();
        let mut entries: Vec<KeybagEntry> = Vec::with_capacity(number_entries);
        let mut offset: usize = 0;
        let mut parsed: usize = 0;
        let ghost all = entries_from(entries_data@, 0, number_entries as nat);
        assert(entries@.map_values(|entry: KeybagEntry| entry@) =~= Seq::empty());
        proof {
            if let Some(rest) = all {
                assert(Seq::<KeybagEntryView>::empty() + rest =~= rest);
            }
        }
        while parsed < number_entries
            invariant
                parsed <= number_entries,
                entries_len == entries_data@.len(),
                entries_len <= usize::MAX - 16,
                offset <= usize::MAX,
                all == match entries_from(
                    entries_data@,
                    offset as int,
                    (number_entries - parsed) as nat,
                ) {
                    Some(rest) => Some(entries@.map_values(|entry: KeybagEntry| entry@) + rest),
                    None => None::<Seq<KeybagEntryView>>,
                },
                all == entries_from(entries_data@, 0, number_entries as nat),
                data@.len() == len,
                KEYBAG_HEADER_SIZE <= len,
                version == crate::types::bytes::u16_at(data@, 0),
                number_entries == crate::types::bytes::u16_at(data@, 2),
                entries_bytes == crate::types::bytes::u32_at(data@, 4),
                KEYBAG_HEADER_SIZE + entries_bytes <= len,
                entries_data@ == data@.subrange(
                    KEYBAG_HEADER_SIZE as int,
                    KEYBAG_HEADER_SIZE + entries_bytes,
                ),
            decreases number_entries - parsed,
        {
            if offset > entries_len {
                return Err(ApfsError::InputTooSmall);
            }
            let remaining = slice_subrange(entries_data, offset, entries_len);
            proof {
                lemma_entry_in_part(entries_data@, offset as int);
            }
            let (entry, occupied) = KeybagEntry::parse_one(remaining)?;
            let ghost before = entries@.map_values(|entry: KeybagEntry| entry@);
            entries.push(entry);
            proof {
                let after = entries@.map_values(|entry: KeybagEntry| entry@);
                assert(after =~= before.push(entry@));
                if let Some(rest) = entries_from(
                    entries_data@,
                    offset + occupied,
                    (number_entries - parsed - 1) as nat,
                ) {
                    assert(before + (seq![entry@] + rest) =~= after + rest);
                }
            }
            offset = offset + occupied;
            parsed = parsed + 1;
        }
        proof {
            let found = entries@.map_values(|entry: KeybagEntry| entry@);
            assert(found + Seq::<KeybagEntryView>::empty() =~= found);
        }
        Ok(Keybag { version, entries })
    }

    /// Finds an entry by UUID and tag.
    pub fn find(&self, uuid: &[u8; 16], tag: KeybagTag) -> (found: Option<&KeybagEntry>)
        ensures
            (match found {
                Some(entry) => Some(*entry),
                None => None,
            }) == crate::search::first_where(
                self.entries@,
                |entry: KeybagEntry| entry_matches(entry, uuid@, tag),
            ),
            match found {
                Some(entry) => exists|i: int|
                    {
                        &&& 0 <= i < self.entries@.len()
                        &&& #[trigger] self.entries@[i] == *entry
                        &&& entry.uuid@ == uuid@
                        &&& entry.tag == tag.spec_raw()
                        &&& forall|j: int|
                            0 <= j < i ==> (#[trigger] self.entries@[j]).uuid@ != uuid@
                                || self.entries@[j].tag != tag.spec_raw()
                    },
                None => forall|i: int|
                    0 <= i < self.entries@.len() ==> (#[trigger] self.entries@[i]).uuid@ != uuid@
                        || self.entries@[i].tag != tag.spec_raw(),
            },
    {
        let wanted: u16 = tag.raw();
        let ghost matching = |entry: KeybagEntry| entry_matches(entry, uuid@, tag);
        let mut i: usize = 0;
        while i < self.entries.len()
            invariant
                i <= self.entries@.len(),
                wanted == tag.spec_raw(),
                matching == (|entry: KeybagEntry| entry_matches(entry, uuid@, tag)),
                forall|j: int| 0 <= j < i ==> !matching(#[trigger] self.entries@[j]),
            decreases self.entries@.len() - i,
        {
            if same_uuid(&self.entries[i].uuid, uuid) && self.entries[i].tag == wanted {
                proof {
                    crate::search::lemma_first_where(self.entries@, matching, i as int);
                }
                return Some(&self.entries[i]);
            }
            i = i + 1;
        }
        proof {
            crate::search::lemma_first_where(self.entries@, matching, i as int);
        }
        None
    }

    /// Returns every entry matching a tag, regardless of UUID, in keybag order.
    ///
    /// A volume keybag may hold one Key Encryption Key per enrolled user (or
    /// recovery key); when unlocking with a password, any of them may match,
    /// so callers typically need to try all of them rather than just the one
    /// keyed by a specific user UUID.
    pub fn find_all(&self, tag: KeybagTag) -> (found: Vec<&KeybagEntry>)
        ensures
            found@.map_values(|entry: &KeybagEntry| *entry) == self.entries@.filter(
                |entry: KeybagEntry| entry.tag == tag.spec_raw(),
            ),
    {
        let wanted: u16 = tag.raw();
        let mut found: Vec<&KeybagEntry> = Vec::new();
        let mut i: usize = 0;
        let ghost keep = |entry: KeybagEntry| entry.tag == tag.spec_raw();
        let ghost deref = |entry: &KeybagEntry| *entry;
        proof {
            reveal(Seq::filter);
            assert(found@.map_values(deref) =~= self.entries@.take(0).filter(keep));
        }
        while i < self.entries.len()
            invariant
                i <= self.entries@.len(),
                wanted == tag.spec_raw(),
                keep == (|entry: KeybagEntry| entry.tag == tag.spec_raw()),
                deref == (|entry: &KeybagEntry| *entry),
                found@.map_values(deref) == self.entries@.take(i as int).filter(keep),
            decreases self.entries@.len() - i,
        {
            let ghost before = found@;
            proof {
                reveal(Seq::filter);
                assert(self.entries@.take(i + 1).drop_last() =~= self.entries@.take(i as int));
            }
            if self.entries[i].tag == wanted {
                found.push(&self.entries[i]);
                assert(found@.map_values(deref) =~= before.map_values(deref).push(
                    self.entries@[i as int],
                ));
            }
            i = i + 1;
        }
        assert(self.entries@.take(i as int) =~= self.entries@);
        found
    }
}

/// A keybag stored as a container-layer object (`media_keybag_t`): an object
/// header followed by a [`Keybag`].
#[derive(Debug, Clone, PartialEq, Eq)]
pub struct MediaKeybag {
    /// Common object header. Its raw `object_type` (not just
    /// [`ObjectHeader::kind`]) must be compared against
    /// [`CONTAINER_KEYBAG_OBJECT_TYPE`] or [`VOLUME_KEYBAG_OBJECT_TYPE`] to
    /// tell whether this block was read successfully decrypted: an
    /// undecrypted (or wrongly decrypted) keybag block's checksum still
    /// might not verify, but a type mismatch is the most direct signal.
    pub object: ObjectHeader,
    /// The keybag itself.
    pub keybag: Keybag,
}

/// The keybag that follows the object header in `data`.
pub open spec fn media_keybag_in(data: Seq<u8>) -> Option<KeybagView> {
    if data.len() < OBJECT_HEADER_SIZE {
        None
    } else {
        keybag_in(data.subrange(OBJECT_HEADER_SIZE as int, data.len() as int))
    }
}

impl MediaKeybag {
    /// Parses a media keybag from a full, decrypted (if applicable) APFS block.
    pub fn parse(data: &[u8]) -> (r: Result<Self, ApfsError>)
        ensures
            match r {
                Ok(media) => {
                    &&& media_keybag_in(data@) == Some(media.keybag@)
                    &&& media.object == crate::types::object::object_header(data@)
                },
                Err(error) => media_keybag_in(data@) is None && error == ApfsError::InputTooSmall,
            },
    {
        let object = ObjectHeader::parse(data)?;
        let keybag = Keybag::parse(slice_subrange(data, OBJECT_HEADER_SIZE, data.len()))?;
        Ok(MediaKeybag { object, keybag })
    }
}

/// Different tags have different values on disk.
pub proof fn law_tags_are_distinct(left: KeybagTag, right: KeybagTag)
    requires
        left.spec_raw() == right.spec_raw(),
    ensures
        left == right,
{
}

/// Every entry takes up whole units of sixteen bytes, at least its own size
/// and less than one unit more.
pub proof fn law_entries_are_aligned(data: Seq<u8>, offset: int)
    ensures
        entry_stride(data, offset) % 16 == 0,
        0 <= entry_stride(data, offset) - (KEYBAG_ENTRY_HEADER_SIZE + entry_key_length(
            data,
            offset,
        )) < 16,
{
}

/// What is found by identifier and tag is among what is found by tag alone.
pub proof fn law_found_entry_is_among_all(entries: Seq<KeybagEntry>, uuid: Seq<u8>, tag: KeybagTag)
    ensures
        crate::search::first_where(
            entries,
            |entry: KeybagEntry| entry_matches(entry, uuid, tag),
        ) matches Some(entry) ==> entries.filter(
            |entry: KeybagEntry| entry.tag == tag.spec_raw(),
        ).contains(entry),
    decreases entries.len(),
{
    let wanted = |entry: KeybagEntry| entry_matches(entry, uuid, tag);
    let keep = |entry: KeybagEntry| entry.tag == tag.spec_raw();
    if let Some(entry) = crate::search::first_where(entries, wanted) {
        crate::search::lemma_found_is_wanted(entries, wanted);
        let i = entries.index_of(entry);
        entries.lemma_filter_contains(keep, i);
    }
}

/// A list of entries has as many entries as were asked for.
proof fn lemma_entry_count(data: Seq<u8>, offset: int, count: nat)
    ensures
        entries_from(data, offset, count) matches Some(entries) ==> entries.len() == count,
    decreases count,
{
    if count > 0 {
        lemma_entry_count(data, offset + entry_stride(data, offset), (count - 1) as nat);
    }
}

/// A keybag has as many entries as its header says.
pub proof fn law_keybag_has_all_its_entries(data: Seq<u8>)
    ensures
        keybag_in(data) matches Some(keybag) ==> keybag.entries.len()
            == crate::types::bytes::u16_at(data, 2),
{
    if keybag_in(data) is Some {
        let entries_bytes = crate::types::bytes::u32_at(data, 4) as int;
        lemma_entry_count(
            data.subrange(KEYBAG_HEADER_SIZE as int, KEYBAG_HEADER_SIZE + entries_bytes),
            0,
            crate::types::bytes::u16_at(data, 2) as nat,
        );
    }
}

/// What follows a keybag in its block makes no difference to it.
pub proof fn law_bytes_after_a_keybag_do_not_matter(data: Seq<u8>, after: Seq<u8>)
    requires
        keybag_in(data) is Some,
    ensures
        keybag_in(data + after) == keybag_in(data),
{
    let all = data + after;
    let end = KEYBAG_HEADER_SIZE + crate::types::bytes::u32_at(data, 4);
    assert(all.subrange(0, 2) =~= data.subrange(0, 2));
    assert(all.subrange(2, 4) =~= data.subrange(2, 4));
    assert(all.subrange(4, 8) =~= data.subrange(4, 8));
    assert(all.subrange(KEYBAG_HEADER_SIZE as int, end) =~= data.subrange(
        KEYBAG_HEADER_SIZE as int,
        end,
    ));
}

/// Tags have these values on disk, and keybag objects are marked `keys` and
/// `recs`.
pub proof fn law_keybag_values()
    ensures
        KeybagTag::Unknown.spec_raw() == 0,
        KeybagTag::WrappingKey.spec_raw() == 1,
        KeybagTag::VolumeKey.spec_raw() == 2,
        KeybagTag::VolumeUnlockRecords.spec_raw() == 3,
        KeybagTag::VolumePassphraseHint.spec_raw() == 4,
        KeybagTag::UserPayload.spec_raw() == 5,
        CONTAINER_KEYBAG_OBJECT_TYPE == 0x6B65_7973,
        VOLUME_KEYBAG_OBJECT_TYPE == 0x7265_6373,
        KEYBAG_VERSION == 2,
{
}

/// Two bytes, the lower one first.
pub open spec fn two_bytes(value: int) -> Seq<u8> {
    seq![(value % 256) as u8, (value / 256 % 256) as u8]
}

/// Four bytes, the lowest one first.
pub open spec fn four_bytes(value: int) -> Seq<u8> {
    seq![
        (value % 256) as u8,
        (value / 256 % 256) as u8,
        (value / 65536 % 256) as u8,
        (value / 16777216 % 256) as u8,
    ]
}

/// An entry as it is written: sixteen identifier bytes, the tag, the length of
/// the key data, four bytes that are not used, the key data, and zeros up to a
/// multiple of sixteen bytes.
pub open spec fn written_entry(entry: KeybagEntryView) -> Seq<u8> {
    entry.uuid + two_bytes(entry.tag as int) + two_bytes(entry.key_data.len() as int) + seq![
        0u8,
        0u8,
        0u8,
        0u8,
    ] + entry.key_data + Seq::new(
        ((16 - (24 + entry.key_data.len()) % 16) % 16) as nat,
        |i: int| 0u8,
    )
}

/// Entries as they are written, one after the other.
pub open spec fn written_entries(entries: Seq<KeybagEntryView>) -> Seq<u8>
    decreases entries.len(),
{
    if entries.len() == 0 {
        Seq::empty()
    } else {
        written_entry(entries[0]) + written_entries(entries.drop_first())
    }
}

/// Two and four bytes hold the number that they were made of.
proof fn lemma_written_numbers(value: int)
    ensures
        0 <= value < 0x1_0000 ==> (value % 256) + 256 * (value / 256 % 256) == value,
        0 <= value < 0x1_0000_0000 ==> (value % 256) + 256 * (value / 256 % 256) + 65536 * (value
            / 65536 % 256) + 16777216 * (value / 16777216 % 256) == value,
{
}

/// An entry that is written at `offset` is the entry there.
proof fn lemma_written_entry(data: Seq<u8>, offset: int, entry: KeybagEntryView)
    requires
        0 <= offset,
        offset + written_entry(entry).len() <= data.len(),
        data.subrange(offset, offset + written_entry(entry).len()) == written_entry(entry),
        entry.uuid.len() == 16,
        entry.key_data.len() < 0x1_0000,
    ensures
        entry_fits(data, offset),
        entry_at(data, offset) == entry,
        entry_stride(data, offset) == written_entry(entry).len(),
{
    let written = written_entry(entry);
    let length = entry.key_data.len() as int;
    assert forall|i: int| 0 <= i < written.len() implies #[trigger] data[offset + i]
        == written[i] by {
        assert(data.subrange(offset, offset + written.len())[i] == data[offset + i]);
    }
    assert(data[offset + 16] == written[16] && data[offset + 17] == written[17]);
    assert(data[offset + 18] == written[18] && data[offset + 19] == written[19]);
    crate::types::bytes::law_fields_are_little_endian(data, offset + 16);
    crate::types::bytes::law_fields_are_little_endian(data, offset + 18);
    lemma_written_numbers(entry.tag as int);
    lemma_written_numbers(length);
    assert(entry_key_length(data, offset) == length);
    assert(data.subrange(offset, offset + 16) =~= entry.uuid) by {
        assert forall|i: int| 0 <= i < 16 implies data[offset + i] == entry.uuid[i] by {
            assert(written[i] == entry.uuid[i]);
        }
    }
    assert(data.subrange(offset + 24, offset + 24 + length) =~= entry.key_data) by {
        assert forall|i: int| 0 <= i < length implies data[offset + 24 + i]
            == entry.key_data[i] by {
            assert(data[offset + (24 + i)] == written[24 + i]);
        }
    }
}

/// Entries that are written at `offset` are the entries there.
proof fn lemma_written_entries(data: Seq<u8>, offset: int, entries: Seq<KeybagEntryView>)
    requires
        0 <= offset,
        offset + written_entries(entries).len() <= data.len(),
        data.subrange(offset, offset + written_entries(entries).len()) == written_entries(entries),
        forall|i: int|
            0 <= i < entries.len() ==> (#[trigger] entries[i]).uuid.len() == 16
                && entries[i].key_data.len() < 0x1_0000,
    ensures
        entries_from(data, offset, entries.len()) == Some(entries),
    decreases entries.len(),
{
    if entries.len() > 0 {
        let first = written_entry(entries[0]);
        let rest = entries.drop_first();
        let after = offset + first.len();
        assert(data.subrange(offset, after) =~= first) by {
            let all = data.subrange(offset, offset + written_entries(entries).len());
            assert(all.subrange(0, first.len() as int) =~= first);
            assert(all.subrange(0, first.len() as int) =~= data.subrange(offset, after));
        }
        assert(data.subrange(after, after + written_entries(rest).len()) =~= written_entries(
            rest,
        )) by {
            let all = data.subrange(offset, offset + written_entries(entries).len());
            assert(all.subrange(first.len() as int, all.len() as int) =~= written_entries(rest));
            assert(all.subrange(first.len() as int, all.len() as int) =~= data.subrange(
                after,
                after + written_entries(rest).len(),
            ));
        }
        lemma_written_entry(data, offset, entries[0]);
        assert forall|i: int| 0 <= i < rest.len() implies (#[trigger] rest[i]).uuid.len() == 16
            && rest[i].key_data.len() < 0x1_0000 by {
            assert(rest[i] == entries[i + 1]);
        }
        lemma_written_entries(data, after, rest);
        assert(seq![entries[0]] + rest =~= entries);
    } else {
        assert(entries =~= Seq::empty());
    }
}

/// A keybag is read back as it was written: its version, and all its entries
/// in order, each with its identifier, its tag and its key data. What is
/// written after it makes no difference.
pub proof fn law_written_keybags_read_back(
    version: u16,
    entries: Seq<KeybagEntryView>,
    unused: Seq<u8>,
    after: Seq<u8>,
)
    requires
        forall|i: int|
            0 <= i < entries.len() ==> (#[trigger] entries[i]).uuid.len() == 16
                && entries[i].key_data.len() < 0x1_0000,
        entries.len() < 0x1_0000,
        written_entries(entries).len() < 0x1_0000_0000,
        unused.len() == 8,
    ensures
        keybag_in(
            two_bytes(version as int) + two_bytes(entries.len() as int) + four_bytes(
                written_entries(entries).len() as int,
            ) + unused + written_entries(entries) + after,
        ) == Some(KeybagView { version, entries }),
{
    let written = written_entries(entries);
    let length = written.len() as int;
    let data = two_bytes(version as int) + two_bytes(entries.len() as int) + four_bytes(length)
        + unused + written + after;
    crate::types::bytes::law_fields_are_little_endian(data, 0);
    crate::types::bytes::law_fields_are_little_endian(data, 2);
    crate::types::bytes::law_fields_are_little_endian(data, 4);
    lemma_written_numbers(version as int);
    lemma_written_numbers(entries.len() as int);
    lemma_written_numbers(length);
    assert(data[0] == two_bytes(version as int)[0] && data[1] == two_bytes(version as int)[1]);
    assert(data[2] == two_bytes(entries.len() as int)[0] && data[3] == two_bytes(
        entries.len() as int,
    )[1]);
    assert(data[4] == four_bytes(length)[0] && data[5] == four_bytes(length)[1] && data[6]
        == four_bytes(length)[2] && data[7] == four_bytes(length)[3]);
    let body = data.subrange(16, 16 + length);
    assert(body =~= written);
    assert(body.subrange(0, length) =~= written);
    lemma_written_entries(body, 0, entries);
}

/// A keybag of which any byte is missing is not read.
pub proof fn law_cut_keybags_are_refused(data: Seq<u8>, kept: int)
    requires
        keybag_in(data) is Some,
        0 <= kept < 16 + crate::types::bytes::u32_at(data, 4),
        kept <= data.len(),
    ensures
        data.len() >= 16 + crate::types::bytes::u32_at(data, 4),
        keybag_in(data.take(kept)) is None,
{
    if kept >= 16 {
        assert(data.take(kept).subrange(4, 8) =~= data.subrange(4, 8));
    }
}

/// A media keybag is the keybag after the thirty-two bytes of its header.
pub proof fn law_media_keybag_follows_its_header(header: Seq<u8>, body: Seq<u8>)
    requires
        header.len() == 32,
    ensures
        media_keybag_in(header + body) == keybag_in(body),
        forall|n: int| 0 <= n < 32 ==> media_keybag_in(#[trigger] header.take(n)) is None,
{
    assert((header + body).subrange(32, (header + body).len() as int) =~= body);
}

/// A keybag is shown as it is: its version, and every entry in order, field by
/// field.
pub proof fn law_keybags_are_shown_whole(keybag: Keybag)
    ensures
        keybag@.version == keybag.version,
        keybag@.entries.len() == keybag.entries@.len(),
        forall|i: int|
            0 <= i < keybag.entries@.len() ==> {
                &&& (#[trigger] keybag@.entries[i]).uuid == keybag.entries@[i].uuid@
                &&& keybag@.entries[i].tag == keybag.entries@[i].tag
                &&& keybag@.entries[i].key_data == keybag.entries@[i].key_data@
            },
{
}

} // verus!
