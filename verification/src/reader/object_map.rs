//! Object maps: from object identifiers to blocks.

use crate::error::ApfsError;
use crate::reader::container::Container;
use crate::types::btree::OwnedEntry;
use crate::types::bytes::le_u64;
use crate::types::container::ContainerSuperblock;
use crate::types::object_map::{ObjectMapKey, ObjectMapValue};
use crate::types::volume::VolumeSuperblock;
use vstd::prelude::*;

verus! {

/// The key in the bytes of an object-map entry.
pub open spec fn object_map_key_in(key: Seq<u8>) -> Result<ObjectMapKey, ApfsError> {
    if key.len() < 16 {
        Err(ApfsError::InputTooSmall)
    } else {
        Ok(
            ObjectMapKey {
                oid: crate::types::bytes::u64_at(key, 0),
                xid: crate::types::bytes::u64_at(key, 8),
            },
        )
    }
}

impl ObjectMapKey {
    /// Parses the key of an object-map entry.
    pub fn parse(key: &[u8]) -> (r: Result<Self, ApfsError>)
        ensures
            r == object_map_key_in(key@),
    {
        Ok(ObjectMapKey { oid: le_u64(key, 0)?, xid: le_u64(key, 8)? })
    }
}

/// A leaf entry of an object map, and what its value bytes decode to.
pub type ObjectMapEntry = (OwnedEntry, Result<ObjectMapValue, ApfsError>);

/// The keys and values of an object map's leaf entries, or the error of the
/// first entry that has one. An entry's key is looked at before its value.
pub open spec fn object_map_values_in(entries: Seq<ObjectMapEntry>) -> Result<
    Seq<(ObjectMapKey, ObjectMapValue)>,
    ApfsError,
>
    decreases entries.len(),
{
    if entries.len() == 0 {
        Ok(Seq::empty())
    } else {
        match object_map_values_in(entries.drop_last()) {
            Err(error) => Err(error),
            Ok(values) => match (object_map_key_in(entries.last().0.key@), entries.last().1) {
                (Err(error), _) => Err(error),
                (Ok(_), Err(error)) => Err(error),
                (Ok(key), Ok(value)) => Ok(values.push((key, value))),
            },
        }
    }
}

/// An error in the first entries is the error of all of them.
proof fn lemma_values_error(entries: Seq<ObjectMapEntry>, n: int)
    requires
        0 <= n <= entries.len(),
        object_map_values_in(entries.take(n)) is Err,
    ensures
        object_map_values_in(entries) == object_map_values_in(entries.take(n)),
    decreases entries.len(),
{
    if n < entries.len() {
        assert(entries.drop_last().take(n) =~= entries.take(n));
        lemma_values_error(entries.drop_last(), n);
    } else {
        assert(entries.take(n) =~= entries);
    }
}

impl<D> Container<D> {
    /// Parses the leaf entries of an object-map B-tree.
    pub fn object_map_values(&self, entries: &Vec<ObjectMapEntry>) -> (r: Result<
        Vec<(ObjectMapKey, ObjectMapValue)>,
        ApfsError,
    >)
        ensures
            match r {
                Ok(values) => object_map_values_in(entries@) == Ok::<
                    Seq<(ObjectMapKey, ObjectMapValue)>,
                    ApfsError,
                >(values@),
                Err(error) => object_map_values_in(entries@) == Err::<
                    Seq<(ObjectMapKey, ObjectMapValue)>,
                    ApfsError,
                >(error),
            },
    {
        let mut values: Vec<(ObjectMapKey, ObjectMapValue)> = Vec::new();
        let mut i: usize = 0;
        while i < entries.len()
            invariant
                i <= entries@.len(),
                object_map_values_in(entries@.take(i as int)) == Ok::<
                    Seq<(ObjectMapKey, ObjectMapValue)>,
                    ApfsError,
                >(values@),
            decreases entries@.len() - i,
        {
            proof {
                assert(entries@.take(i + 1).drop_last() =~= entries@.take(i as int));
                if object_map_values_in(entries@.take(i + 1)) is Err {
                    lemma_values_error(entries@, i + 1);
                }
            }
            let key = ObjectMapKey::parse(entries[i].0.key.as_slice())?;
            match entries[i].1 {
                Err(error) => return Err(error),
                Ok(value) => values.push((key, value)),
            }
            i = i + 1;
        }
        assert(entries@.take(i as int) =~= entries@);
        Ok(values)
    }
}

/// Whether a mapping is one of the object `oid` that is not newer than
/// `max_transaction_id`. The top four bits of a key's identifier may hold
/// flags.
pub open spec fn is_candidate(
    entry: (ObjectMapKey, ObjectMapValue),
    oid: u64,
    max_transaction_id: u64,
) -> bool {
    &&& entry.0.oid == oid || entry.0.oid % 0x1000_0000_0000_0000 == oid
    &&& entry.0.xid <= max_transaction_id
}

/// Decides [`is_candidate`].
fn candidate(entry: &(ObjectMapKey, ObjectMapValue), oid: u64, max_transaction_id: u64) -> (b: bool)
    ensures
        b == is_candidate(*entry, oid, max_transaction_id),
{
    (entry.0.oid == oid || entry.0.oid % 0x1000_0000_0000_0000 == oid) && entry.0.xid
        <= max_transaction_id
}

/// The newest mapping of the object `oid` that is not newer than
/// `max_transaction_id`. The last of several with one transaction identifier
/// counts.
pub open spec fn resolved(
    values: Seq<(ObjectMapKey, ObjectMapValue)>,
    oid: u64,
    max_transaction_id: u64,
) -> Option<(ObjectMapKey, ObjectMapValue)>
    decreases values.len(),
{
    if values.len() == 0 {
        None
    } else {
        let before = resolved(values.drop_last(), oid, max_transaction_id);
        let last = values.last();
        if !is_candidate(last, oid, max_transaction_id) {
            before
        } else {
            match before {
                Some(best) => if best.0.xid <= last.0.xid {
                    Some(last)
                } else {
                    before
                },
                None => Some(last),
            }
        }
    }
}

/// Finds the newest mapping of an object that is not newer than
/// `max_transaction_id`.
pub fn resolve(
    values: &Vec<(ObjectMapKey, ObjectMapValue)>,
    oid: u64,
    max_transaction_id: u64,
) -> (found: Option<(ObjectMapKey, ObjectMapValue)>)
    ensures
        found == resolved(values@, oid, max_transaction_id),
{
    let mut best: Option<(ObjectMapKey, ObjectMapValue)> = None;
    let mut i: usize = 0;
    while i < values.len()
        invariant
            i <= values@.len(),
            best == resolved(values@.take(i as int), oid, max_transaction_id),
        decreases values@.len() - i,
    {
        assert(values@.take(i + 1).drop_last() =~= values@.take(i as int));
        if candidate(&values[i], oid, max_transaction_id) {
            let newer = match best {
                Some(best) => best.0.xid <= values[i].0.xid,
                None => true,
            };
            if newer {
                best = Some(values[i]);
            }
        }
        i = i + 1;
    }
    assert(values@.take(i as int) =~= values@);
    best
}

/// The mapping that each volume resolves to, for those volumes that have one.
pub open spec fn volume_mapping(
    values: Seq<(ObjectMapKey, ObjectMapValue)>,
    max_transaction_id: u64,
) -> spec_fn(u64) -> Option<(ObjectMapKey, ObjectMapValue)> {
    |oid: u64| resolved(values, oid, max_transaction_id)
}

impl<D> Container<D> {
    /// Finds the mapping for an object identifier in an object map with the
    /// largest transaction identifier that does not exceed `max_transaction_id`.
    ///
    /// Passing a transaction identifier bound (rather than always taking the
    /// globally newest mapping) is required for correctness: an object map can
    /// contain multiple versions of the same virtual OID (e.g. across
    /// snapshots), and resolving unconditionally to the newest one can return
    /// an object from a later filesystem state than the one being read.
    pub fn object_map_lookup(
        &self,
        values: &Vec<(ObjectMapKey, ObjectMapValue)>,
        oid: u64,
        max_transaction_id: u64,
    ) -> (found: Option<ObjectMapValue>)
        ensures
            found == match resolved(values@, oid, max_transaction_id) {
                Some(entry) => Some(entry.1),
                None => None,
            },
    {
        match resolve(values, oid, max_transaction_id) {
            Some(entry) => Some(entry.1),
            None => None,
        }
    }

    /// Resolves a virtual object identifier through a volume object map,
    /// bounded to the transaction that reads of the volume go by (see
    /// [`VolumeSuperblock::default_read_transaction_id`]).
    pub fn resolve_volume_object(
        &self,
        volume: &VolumeSuperblock,
        values: &Vec<(ObjectMapKey, ObjectMapValue)>,
        oid: u64,
    ) -> (found: Option<ObjectMapValue>)
        ensures
            found == match resolved(values@, oid, volume.spec_default_read_transaction_id()) {
                Some(entry) => Some(entry.1),
                None => None,
            },
    {
        self.object_map_lookup(values, oid, volume.default_read_transaction_id())
    }

    /// Resolves volume OIDs in an object map.
    ///
    /// An object map can contain multiple recorded versions of the same
    /// volume OID (e.g. across snapshots or prior transactions). For each
    /// volume OID this returns only the mapping with the highest transaction
    /// identifier not exceeding the container superblock's own transaction
    /// identifier, matching the resolution rule used by
    /// [`Self::object_map_lookup`]. Returning every matching version instead would
    /// make callers read duplicate/stale copies of the same volume.
    pub fn volume_object_map_values(
        &self,
        superblock: &ContainerSuperblock,
        values: &Vec<(ObjectMapKey, ObjectMapValue)>,
    ) -> (resolved_volumes: Vec<(ObjectMapKey, ObjectMapValue)>)
        ensures
            resolved_volumes@ == superblock.volumes@.filter_map(
                volume_mapping(values@, superblock.object.transaction_identifier),
            ),
    {
        let volumes = &superblock.volumes;
        let max_transaction_id: u64 = superblock.object.transaction_identifier;
        let ghost mapping = volume_mapping(values@, max_transaction_id);
        let mut found: Vec<(ObjectMapKey, ObjectMapValue)> = Vec::new();
        let mut i: usize = 0;
        assert(volumes@.take(0).filter_map(mapping) =~= Seq::empty());
        while i < volumes.len()
            invariant
                i <= volumes@.len(),
                mapping == volume_mapping(values@, max_transaction_id),
                found@ == volumes@.take(i as int).filter_map(mapping),
            decreases volumes@.len() - i,
        {
            proof {
                volumes@.lemma_filter_map_take_succ(mapping, i as int);
            }
            let ghost before = found@;
            if let Some(entry) = resolve(values, volumes[i], max_transaction_id) {
                found.push(entry);
                assert(found@ =~= before + seq![entry]);
            }
            i = i + 1;
        }
        assert(volumes@.take(i as int) =~= volumes@);
        found
    }
}

/// Returns the blocks of resolved objects.
pub(crate) fn addresses(values: &Vec<(ObjectMapKey, ObjectMapValue)>) -> (blocks: Vec<u64>)
    ensures
        blocks@ == values@.map_values(|entry: (ObjectMapKey, ObjectMapValue)| entry.1.address),
{
    let mut blocks: Vec<u64> = Vec::new();
    let mut i: usize = 0;
    while i < values.len()
        invariant
            i <= values@.len(),
            blocks@.len() == i,
            forall|j: int| 0 <= j < i ==> blocks@[j] == (#[trigger] values@[j]).1.address,
        decreases values@.len() - i,
    {
        blocks.push(values[i].1.address);
        i = i + 1;
    }
    assert(blocks@ =~= values@.map_values(
        |entry: (ObjectMapKey, ObjectMapValue)| entry.1.address,
    ));
    blocks
}

/// What an object resolves to is one of its mappings, is not newer than the
/// bound, and no other such mapping is newer. An object that resolves to
/// nothing has no such mapping.
pub proof fn law_resolution_is_newest_within_bound(
    values: Seq<(ObjectMapKey, ObjectMapValue)>,
    oid: u64,
    max_transaction_id: u64,
)
    ensures
        match resolved(values, oid, max_transaction_id) {
            Some(entry) => {
                &&& values.contains(entry)
                &&& is_candidate(entry, oid, max_transaction_id)
                &&& forall|i: int|
                    0 <= i < values.len() && is_candidate(
                        #[trigger] values[i],
                        oid,
                        max_transaction_id,
                    ) ==> values[i].0.xid <= entry.0.xid
            },
            None => forall|i: int|
                0 <= i < values.len() ==> !is_candidate(
                    #[trigger] values[i],
                    oid,
                    max_transaction_id,
                ),
        },
    decreases values.len(),
{
    if values.len() > 0 {
        let rest = values.drop_last();
        let last = values.last();
        law_resolution_is_newest_within_bound(rest, oid, max_transaction_id);
        assert(values[values.len() - 1] == last);
        assert forall|i: int| 0 <= i < values.len() - 1 implies #[trigger] values[i] == rest[i] by {
        }
        if let Some(entry) = resolved(rest, oid, max_transaction_id) {
            let i = choose|i: int| 0 <= i < rest.len() && rest[i] == entry;
            assert(values[i] == entry);
        }
    }
}

/// Mappings that are newer than the bound make no difference to what an
/// object resolves to: a reader bounded to a snapshot sees the object map as
/// it was.
pub proof fn law_later_mappings_do_not_matter(
    values: Seq<(ObjectMapKey, ObjectMapValue)>,
    oid: u64,
    max_transaction_id: u64,
)
    ensures
        resolved(values, oid, max_transaction_id) == resolved(
            values.filter(
                |entry: (ObjectMapKey, ObjectMapValue)| entry.0.xid <= max_transaction_id,
            ),
            oid,
            max_transaction_id,
        ),
    decreases values.len(),
{
    reveal(Seq::filter);
    let old_enough = |entry: (ObjectMapKey, ObjectMapValue)| entry.0.xid <= max_transaction_id;
    if values.len() > 0 {
        law_later_mappings_do_not_matter(values.drop_last(), oid, max_transaction_id);
        let before = values.drop_last().filter(old_enough);
        if old_enough(values.last()) {
            assert(before.push(values.last()).drop_last() =~= before);
        }
    }
}

/// Every volume that is listed is listed with the mapping that a lookup of its
/// identifier within the superblock's transaction finds, and at most once for
/// each time that the superblock names it.
pub proof fn law_volumes_resolve_as_lookups_do(
    values: Seq<(ObjectMapKey, ObjectMapValue)>,
    volumes: Seq<u64>,
    max_transaction_id: u64,
)
    ensures
        volumes.filter_map(volume_mapping(values, max_transaction_id)).len() <= volumes.len(),
        forall|entry: (ObjectMapKey, ObjectMapValue)|
            #![trigger volumes.filter_map(volume_mapping(values, max_transaction_id)).contains(
                entry,
            )]
            volumes.filter_map(volume_mapping(values, max_transaction_id)).contains(entry)
                ==> exists|oid: u64|
                volumes.contains(oid) && #[trigger] resolved(values, oid, max_transaction_id)
                    == Some(entry),
    decreases volumes.len(),
{
    let mapping = volume_mapping(values, max_transaction_id);
    if volumes.len() > 0 {
        law_volumes_resolve_as_lookups_do(values, volumes.drop_last(), max_transaction_id);
    }
    assert forall|entry: (ObjectMapKey, ObjectMapValue)|
        volumes.filter_map(mapping).contains(entry) implies exists|oid: u64|
        volumes.contains(oid) && #[trigger] resolved(values, oid, max_transaction_id) == Some(
            entry,
        ) by {
        volumes.lemma_filter_map_contains(mapping, entry);
        let oid = choose|oid: u64| #[trigger] volumes.contains(oid) && mapping(oid) == Some(entry);
        assert(resolved(values, oid, max_transaction_id) == Some(entry));
    }
}

/// What a lookup finds is a mapping of the object that was asked for: its key
/// is the identifier itself, or has it as its low sixty bits, and its
/// transaction is not past the bound. Nothing is found only when there is no
/// such mapping at all. Of several, none is newer than the one that is found,
/// and none of the same transaction comes after it.
pub proof fn law_lookup_finds_the_newest_mapping_of_the_object(
    values: Seq<(ObjectMapKey, ObjectMapValue)>,
    oid: u64,
    max_transaction_id: u64,
)
    ensures
        match resolved(values, oid, max_transaction_id) {
            Some(entry) => {
                &&& entry.0.oid == oid || entry.0.oid & 0x0fff_ffff_ffff_ffff == oid
                &&& entry.0.xid <= max_transaction_id
                &&& exists|i: int|
                    {
                        &&& 0 <= i < values.len()
                        &&& #[trigger] values[i] == entry
                        &&& forall|j: int|
                            #![trigger values[j]]
                            0 <= j < values.len() && (values[j].0.oid == oid || values[j].0.oid
                                & 0x0fff_ffff_ffff_ffff == oid) && values[j].0.xid
                                <= max_transaction_id ==> values[j].0.xid < entry.0.xid || (
                            values[j].0.xid == entry.0.xid && j <= i)
                    }
            },
            None => forall|j: int|
                #![trigger values[j]]
                0 <= j < values.len() && (values[j].0.oid == oid || values[j].0.oid
                    & 0x0fff_ffff_ffff_ffff == oid) ==> values[j].0.xid > max_transaction_id,
        },
    decreases values.len(),
{
    if values.len() > 0 {
        let rest = values.drop_last();
        let last = values.last();
        let at = values.len() - 1;
        law_lookup_finds_the_newest_mapping_of_the_object(rest, oid, max_transaction_id);
        assert forall|j: int| 0 <= j < rest.len() implies #[trigger] values[j] == rest[j] by {
        }
        assert(values[at] == last);
        let key = last.0.oid;
        assert(key % 0x1000_0000_0000_0000 == key & 0x0fff_ffff_ffff_ffff) by (bit_vector);
        let found = resolved(values, oid, max_transaction_id);
        if found != resolved(rest, oid, max_transaction_id) {
            assert(found == Some(last));
            assert(values[at] == last);
        } else if let Some(entry) = found {
            let i = choose|i: int|
                {
                    &&& 0 <= i < rest.len()
                    &&& #[trigger] rest[i] == entry
                    &&& forall|j: int|
                        #![trigger rest[j]]
                        0 <= j < rest.len() && (rest[j].0.oid == oid || rest[j].0.oid
                            & 0x0fff_ffff_ffff_ffff == oid) && rest[j].0.xid
                            <= max_transaction_id ==> rest[j].0.xid < entry.0.xid || (
                        rest[j].0.xid == entry.0.xid && j <= i)
                };
            if is_candidate(last, oid, max_transaction_id) && entry.0.xid <= last.0.xid {
                assert(values[at] == entry);
            } else {
                assert(values[i] == entry);
                assert forall|j: int|
                    #![trigger values[j]]
                    0 <= j < values.len() && (values[j].0.oid == oid || values[j].0.oid
                        & 0x0fff_ffff_ffff_ffff == oid) && values[j].0.xid
                        <= max_transaction_id implies values[j].0.xid < entry.0.xid || (
                values[j].0.xid == entry.0.xid && j <= i) by {
                    if j < at {
                        assert(values[j] == rest[j]);
                    }
                }
            }
        }
    }
}

/// No volume is lost and none is made up: the volumes that are listed are, in
/// the order of the superblock, what each identifier resolves to within the
/// bound. One more identifier adds what it resolves to at the end, and nothing
/// when it resolves to nothing.
pub proof fn law_no_volume_is_lost(
    values: Seq<(ObjectMapKey, ObjectMapValue)>,
    volumes: Seq<u64>,
    max_transaction_id: u64,
)
    ensures
        forall|i: int|
            #![trigger volumes[i]]
            0 <= i < volumes.len() ==> (resolved(
                values,
                volumes[i],
                max_transaction_id,
            ) matches Some(entry) ==> volumes.filter_map(
                volume_mapping(values, max_transaction_id),
            ).contains(entry)),
        forall|oid: u64|
            #![trigger volumes.push(oid)]
            volumes.push(oid).filter_map(volume_mapping(values, max_transaction_id))
                == volumes.filter_map(volume_mapping(values, max_transaction_id)) + (
            match resolved(values, oid, max_transaction_id) {
                Some(entry) => seq![entry],
                None => Seq::empty(),
            }),
        volumes.len() == 0 ==> volumes.filter_map(volume_mapping(values, max_transaction_id))
            == Seq::<(ObjectMapKey, ObjectMapValue)>::empty(),
    decreases volumes.len(),
{
    let mapping = volume_mapping(values, max_transaction_id);
    assert forall|oid: u64|
        #![trigger volumes.push(oid)]
        volumes.push(oid).filter_map(mapping) == volumes.filter_map(mapping) + (match resolved(
            values,
            oid,
            max_transaction_id,
        ) {
            Some(entry) => seq![entry],
            None => Seq::empty(),
        }) by {
        assert(volumes.push(oid).drop_last() =~= volumes);
        assert(volumes.filter_map(mapping) + Seq::empty() =~= volumes.filter_map(mapping));
    }
    if volumes.len() > 0 {
        let rest = volumes.drop_last();
        law_no_volume_is_lost(values, rest, max_transaction_id);
        let found = volumes.filter_map(mapping);
        let before = rest.filter_map(mapping);
        assert forall|i: int|
            #![trigger volumes[i]]
            0 <= i < volumes.len() implies (resolved(
            values,
            volumes[i],
            max_transaction_id,
        ) matches Some(entry) ==> found.contains(entry)) by {
            if let Some(entry) = resolved(values, volumes[i], max_transaction_id) {
                if i < rest.len() {
                    assert(rest[i] == volumes[i]);
                    let k = choose|k: int| 0 <= k < before.len() && before[k] == entry;
                    assert(found[k] == entry);
                } else {
                    assert(found[found.len() - 1] == entry);
                }
            }
        }
    }
}

/// The key of an object-map entry is its first two numbers, the identifier
/// and then the transaction; a shorter key is refused.
pub proof fn law_object_map_keys(key: Seq<u8>)
    ensures
        key.len() < 16 ==> object_map_key_in(key) == Err::<ObjectMapKey, ApfsError>(
            ApfsError::InputTooSmall,
        ),
        key.len() >= 16 ==> object_map_key_in(key) == Ok::<ObjectMapKey, ApfsError>(
            ObjectMapKey {
                oid: crate::types::bytes::u64_at(key, 0),
                xid: crate::types::bytes::u64_at(key, 8),
            },
        ),
{
}

/// The leaf entries of an object map give one key and value each, in their
/// order, if every key has sixteen bytes and every value is sound; otherwise
/// they give the error of the first entry that has one, its key first.
pub proof fn law_object_map_values_match_their_entries(entries: Seq<ObjectMapEntry>)
    ensures
        match object_map_values_in(entries) {
            Ok(values) => {
                &&& values.len() == entries.len()
                &&& forall|i: int|
                    #![trigger entries[i]]
                    0 <= i < entries.len() ==> {
                        &&& entries[i].0.key@.len() >= 16
                        &&& entries[i].1 == Ok::<ObjectMapValue, ApfsError>(values[i].1)
                        &&& values[i].0.oid == crate::types::bytes::u64_at(entries[i].0.key@, 0)
                        &&& values[i].0.xid == crate::types::bytes::u64_at(entries[i].0.key@, 8)
                    }
            },
            Err(error) => exists|i: int|
                {
                    &&& 0 <= i < entries.len()
                    &&& (#[trigger] entries[i]).0.key@.len() < 16 ==> error
                        == ApfsError::InputTooSmall
                    &&& entries[i].0.key@.len() >= 16 ==> entries[i].1 == Err::<
                        ObjectMapValue,
                        ApfsError,
                    >(error)
                    &&& forall|j: int|
                        0 <= j < i ==> (#[trigger] entries[j]).0.key@.len() >= 16
                            && entries[j].1 is Ok
                },
        },
    decreases entries.len(),
{
    if entries.len() > 0 {
        let rest = entries.drop_last();
        let at = entries.len() - 1;
        law_object_map_values_match_their_entries(rest);
        law_object_map_keys(entries.last().0.key@);
        assert(entries[at] == entries.last());
        assert forall|j: int| 0 <= j < at implies #[trigger] entries[j] == rest[j] by {
        }
        match (object_map_values_in(rest), object_map_values_in(entries)) {
            (Err(error), _) => {
                let i = choose|i: int|
                    {
                        &&& 0 <= i < rest.len()
                        &&& (#[trigger] rest[i]).0.key@.len() < 16 ==> error
                            == ApfsError::InputTooSmall
                        &&& rest[i].0.key@.len() >= 16 ==> rest[i].1 == Err::<
                            ObjectMapValue,
                            ApfsError,
                        >(error)
                        &&& forall|j: int|
                            0 <= j < i ==> (#[trigger] rest[j]).0.key@.len() >= 16
                                && rest[j].1 is Ok
                    };
                assert(entries[i] == rest[i]);
            },
            (Ok(before), Ok(values)) => {
                assert forall|i: int|
                    #![trigger entries[i]]
                    0 <= i < entries.len() implies {
                    &&& entries[i].0.key@.len() >= 16
                    &&& entries[i].1 == Ok::<ObjectMapValue, ApfsError>(values[i].1)
                    &&& values[i].0.oid == crate::types::bytes::u64_at(entries[i].0.key@, 0)
                    &&& values[i].0.xid == crate::types::bytes::u64_at(entries[i].0.key@, 8)
                } by {
                    if i < at {
                        assert(rest[i] == entries[i]);
                        assert(values[i] == before[i]);
                    }
                }
            },
            (Ok(_), Err(_)) => {
                assert forall|j: int| 0 <= j < at implies (#[trigger] entries[j]).0.key@.len()
                    >= 16 && entries[j].1 is Ok by {
                    assert(rest[j] == entries[j]);
                }
            },
        }
    }
}

} // verus!
