//! Opening a container and addressing its blocks.

use crate::error::{map_read_error, ApfsError, ReadError};
use crate::reader::block::Decoded;
use crate::types::object_map::{ObjectMapKey, ObjectMapValue};
use crate::types::container::ContainerSuperblock;
use vstd::prelude::*;

verus! {

/// Number of bytes that are read to learn the container's block size.
pub const PROBE_LENGTH: usize = 4096;

/// Largest block size a container can have.
pub const CONTAINER_MAXIMUM_BLOCK_SIZE_BYTES: u32 = 65536;

/// Container metadata parsed during open.
#[derive(Debug)]
pub struct ContainerInfo {
    /// The block-zero superblock.
    pub superblock: ContainerSuperblock,
}

/// The values of an object map, under the identifier of the tree that holds
/// them.
pub type ObjectMapCache = Option<(u64, Vec<(ObjectMapKey, ObjectMapValue)>)>;

/// APFS container reader over a block device.
#[derive(Debug)]
pub struct Container<D> {
    device: D,
    info: ContainerInfo,
    device_block_size: u32,
    /// Full leaf-entry walk of the most recently used object map, keyed by
    /// its tree OID. Many virtual OIDs are resolved against the same object
    /// map in a row (e.g. once per non-leaf node while walking a large
    /// filesystem tree); without this cache each resolution re-walks the
    /// entire object-map B-tree from disk, which for a busy,
    /// multi-million-file volume is slow enough that a live,
    /// concurrently-written container can rotate checkpoints and reclaim
    /// blocks mid-walk, turning a performance bug into a correctness one.
    object_map_cache: ObjectMapCache,
}

/// Whether a device with this block size can hold a container.
pub open spec fn device_block_size_fits(device_block_size: u32) -> bool {
    0 < device_block_size <= 4096 && 4096u32 % device_block_size == 0
}

impl<D> Container<D> {
    /// The device.
    pub closed spec fn spec_device(&self) -> D {
        self.device
    }

    /// The metadata.
    pub closed spec fn spec_info(&self) -> ContainerInfo {
        self.info
    }

    /// The device's block size.
    pub closed spec fn spec_device_block_size(&self) -> u32 {
        self.device_block_size
    }

    /// The cached object-map walk.
    pub closed spec fn spec_cache(&self) -> Option<(u64, Seq<(ObjectMapKey, ObjectMapValue)>)> {
        match self.object_map_cache {
            None => None,
            Some((tree_oid, values)) => Some((tree_oid, values@)),
        }
    }

    /// What holds of every container: its blocks are whole device blocks.
    pub open spec fn wf(&self) -> bool {
        &&& device_block_size_fits(self.spec_device_block_size())
        &&& self.spec_info().superblock.block_size % self.spec_device_block_size() == 0
    }

    /// Starts to open an APFS container whose block 0 is at device block 0.
    pub fn open(device: D, device_block_size: u32) -> (step: OpenStep<D>)
        ensures
            if device_block_size_fits(device_block_size) {
                &&& step matches OpenStep::Read { length, opening }
                &&& length == PROBE_LENGTH
                &&& opening.spec_device() == device
                &&& opening.spec_device_block_size() == device_block_size
                &&& !opening.spec_probed()
                &&& opening.wf()
            } else {
                step == OpenStep::<D>::Done(Err(ApfsError::InvalidValue("device block size")))
            },
    {
        if device_block_size == 0 || device_block_size > 4096 || 4096 % device_block_size != 0 {
            return OpenStep::Done(Err(ApfsError::InvalidValue("device block size")));
        }
        OpenStep::Read {
            length: PROBE_LENGTH,
            opening: Opening { device, device_block_size, probed: false },
        }
    }

    /// Returns container metadata parsed during open.
    pub fn info(&self) -> (info: &ContainerInfo)
        ensures
            *info == self.spec_info(),
    {
        &self.info
    }

    /// Returns the block-zero superblock.
    pub fn superblock(&self) -> (superblock: &ContainerSuperblock)
        ensures
            *superblock == self.spec_info().superblock,
    {
        &self.info.superblock
    }

    /// Returns the device, to read from it.
    pub fn device_mut(&mut self) -> (device: &mut D)
        ensures
            *device == old(self).spec_device(),
            final(self).spec_device() == *final(device),
            final(self).spec_info() == old(self).spec_info(),
            final(self).spec_device_block_size() == old(self).spec_device_block_size(),
            final(self).spec_cache() == old(self).spec_cache(),
    {
        &mut self.device
    }

    /// Returns the device block to read one APFS container block from, by APFS
    /// physical block number, into a buffer of this length.
    pub fn read_apfs_block(&self, block: u64, buffer_length: usize) -> (r: Result<u64, ApfsError>)
        requires
            self.wf(),
        ensures
            r == device_block_outcome(
                self.spec_info().superblock.block_size,
                self.spec_device_block_size(),
                block,
                buffer_length as int,
            ),
    {
        let block_size: u32 = self.info.superblock.block_size;
        if buffer_length as u64 != block_size as u64 {
            return Err(ApfsError::InvalidValue("APFS block buffer length"));
        }
        match block.checked_mul((block_size / self.device_block_size) as u64) {
            Some(device_block) => Ok(device_block),
            None => Err(ApfsError::AddressOverflow),
        }
    }

    /// Drops the cached object-map walk so the next lookup re-reads it from
    /// disk.
    ///
    /// On a live, actively-mounted container every walk this reader performs
    /// (checkpoint -> object map -> B-tree nodes) races the filesystem's own
    /// copy-on-write churn: a concurrent transaction can free and reallocate
    /// any block between when its address was learned and when it is read,
    /// which surfaces as a checksum mismatch or a wrong-object-type error
    /// partway through the walk. Those failures are not corruption: the
    /// consistent recovery is to invalidate this cache, re-read the newest
    /// checkpoint superblock, and restart the whole operation from that fresh
    /// root.
    pub fn invalidate_object_map_cache(&mut self)
        ensures
            final(self).spec_cache() is None,
            final(self).spec_device() == old(self).spec_device(),
            final(self).spec_info() == old(self).spec_info(),
            final(self).spec_device_block_size() == old(self).spec_device_block_size(),
    {
        self.object_map_cache = None;
    }

    /// Returns the values of the object map whose tree is `tree_oid`, when
    /// they are the cached ones.
    pub fn cached_object_map_values(&self, tree_oid: u64) -> (values: Option<
        Vec<(ObjectMapKey, ObjectMapValue)>,
    >)
        ensures
            match (values, self.spec_cache()) {
                (Some(values), Some((cached_oid, cached))) => cached_oid == tree_oid && values@
                    == cached,
                (Some(_), None) => false,
                (None, Some((cached_oid, _))) => cached_oid != tree_oid,
                (None, None) => true,
            },
    {
        match &self.object_map_cache {
            Some((cached_oid, cached)) => if *cached_oid == tree_oid {
                Some(copy_values(cached))
            } else {
                None
            },
            None => None,
        }
    }

    /// Makes `values` the cached walk of the object map whose tree is
    /// `tree_oid`.
    pub fn cache_object_map_values(
        &mut self,
        tree_oid: u64,
        values: &Vec<(ObjectMapKey, ObjectMapValue)>,
    )
        ensures
            final(self).spec_cache() == Some((tree_oid, values@)),
            final(self).spec_device() == old(self).spec_device(),
            final(self).spec_info() == old(self).spec_info(),
            final(self).spec_device_block_size() == old(self).spec_device_block_size(),
    {
        self.object_map_cache = Some((tree_oid, copy_values(values)));
    }

    /// Consumes the reader and returns the wrapped device.
    pub fn into_inner(self) -> (device: D)
        ensures
            device == self.spec_device(),
    {
        self.device
    }
}

/// Copies object-map values.
fn copy_values(values: &Vec<(ObjectMapKey, ObjectMapValue)>) -> (copy: Vec<
    (ObjectMapKey, ObjectMapValue),
>)
    ensures
        copy@ == values@,
{
    let mut copy: Vec<(ObjectMapKey, ObjectMapValue)> = Vec::new();
    let mut i: usize = 0;
    while i < values.len()
        invariant
            i <= values@.len(),
            copy@ == values@.take(i as int),
        decreases values@.len() - i,
    {
        copy.push(values[i]);
        i = i + 1;
        assert(values@.take(i as int) =~= values@.take(i - 1).push(values@[i - 1]));
    }
    assert(values@.take(i as int) =~= values@);
    copy
}

/// Where an APFS block starts on the device.
pub open spec fn device_block_outcome(
    block_size: u32,
    device_block_size: u32,
    block: u64,
    buffer_length: int,
) -> Result<u64, ApfsError> {
    if buffer_length != block_size {
        Err(ApfsError::InvalidValue("APFS block buffer length"))
    } else if block * (block_size / device_block_size) > u64::MAX {
        Err(ApfsError::AddressOverflow)
    } else {
        Ok((block * (block_size / device_block_size)) as u64)
    }
}

/// A container that is being opened.
#[derive(Debug)]
pub struct Opening<D> {
    device: D,
    device_block_size: u32,
    probed: bool,
}

/// Where opening a container stands.
pub enum OpenStep<D> {
    /// The first `length` bytes of the device are wanted.
    Read {
        /// How many bytes to read, from the start of the device.
        length: usize,
        /// What goes on when it is handed what was read.
        opening: Opening<D>,
    },
    /// The container is open, or cannot be opened.
    Done(Result<Container<D>, ApfsError>),
}

/// What is left to do once the bytes that were wanted have been decoded.
pub enum OpenDecision {
    /// The container cannot be opened.
    Fail(ApfsError),
    /// The first so many bytes have to be read.
    ReadFull(u32),
    /// The container is open, with this superblock.
    Accept(ContainerSuperblock),
}

/// Decides on the superblock of an opened container.
pub open spec fn accept_decision(
    device_block_size: u32,
    superblock: ContainerSuperblock,
) -> OpenDecision {
    if superblock.block_size % device_block_size != 0 {
        OpenDecision::Fail(ApfsError::InvalidValue("APFS block size is not device-block aligned"))
    } else {
        OpenDecision::Accept(superblock)
    }
}

/// Decides what to make of the bytes that were read. The checksum covers the
/// whole block, so a block of another size than the probe is read again in
/// full before it is believed.
pub open spec fn open_decision(
    device_block_size: u32,
    probed: bool,
    reply: Result<Decoded<ContainerSuperblock>, ReadError>,
) -> OpenDecision {
    match reply {
        Err(error) => OpenDecision::Fail(crate::error::read_error_as_apfs(error)),
        Ok(block) => if probed {
            match (block.checksum, block.parsed) {
                (Err(error), _) => OpenDecision::Fail(error),
                (Ok(_), Err(error)) => OpenDecision::Fail(error),
                (Ok(_), Ok(superblock)) => accept_decision(device_block_size, superblock),
            }
        } else {
            match (block.parsed, block.checksum) {
                (Err(error), _) => OpenDecision::Fail(error),
                (Ok(probe), checksum) => if probe.block_size == PROBE_LENGTH {
                    match checksum {
                        Err(error) => OpenDecision::Fail(error),
                        Ok(_) => accept_decision(device_block_size, probe),
                    }
                } else if probe.block_size % device_block_size != 0 {
                    OpenDecision::Fail(
                        ApfsError::InvalidValue("APFS block size is not device-block aligned"),
                    )
                } else if probe.block_size > CONTAINER_MAXIMUM_BLOCK_SIZE_BYTES {
                    OpenDecision::Fail(ApfsError::InvalidValue("container block size"))
                } else {
                    OpenDecision::ReadFull(probe.block_size)
                },
            }
        },
    }
}

impl<D> Opening<D> {
    /// The device.
    pub closed spec fn spec_device(&self) -> D {
        self.device
    }

    /// The device's block size.
    pub closed spec fn spec_device_block_size(&self) -> u32 {
        self.device_block_size
    }

    /// Whether the container's block size is known already.
    pub closed spec fn spec_probed(&self) -> bool {
        self.probed
    }

    /// What holds while a container is being opened.
    pub open spec fn wf(&self) -> bool {
        device_block_size_fits(self.spec_device_block_size())
    }

    /// Returns the device, to read from it.
    pub fn device_mut(&mut self) -> (device: &mut D)
        ensures
            *device == old(self).spec_device(),
            final(self).spec_device() == *final(device),
            final(self).spec_device_block_size() == old(self).spec_device_block_size(),
            final(self).spec_probed() == old(self).spec_probed(),
    {
        &mut self.device
    }

    /// Opens the container with this superblock.
    fn accept(self, superblock: ContainerSuperblock) -> (step: OpenStep<D>)
        requires
            self.wf(),
        ensures
            self.is_decided(accept_decision(self.spec_device_block_size(), superblock), step),
    {
        if superblock.block_size % self.device_block_size != 0 {
            return OpenStep::Done(
                Err(ApfsError::InvalidValue("APFS block size is not device-block aligned")),
            );
        }
        OpenStep::Done(
            Ok(
                Container {
                    device: self.device,
                    info: ContainerInfo { superblock },
                    device_block_size: self.device_block_size,
                    object_map_cache: None,
                },
            ),
        )
    }

    /// Whether `step` is what `decision` leads to from here.
    pub open spec fn is_decided(&self, decision: OpenDecision, step: OpenStep<D>) -> bool {
        match decision {
            OpenDecision::Fail(error) => step == OpenStep::<D>::Done(Err(error)),
            OpenDecision::ReadFull(block_size) => {
                &&& step matches OpenStep::Read { length, opening }
                &&& length == block_size
                &&& opening.spec_device() == self.spec_device()
                &&& opening.spec_device_block_size() == self.spec_device_block_size()
                &&& opening.spec_probed()
                &&& opening.wf()
            },
            OpenDecision::Accept(superblock) => {
                &&& step matches OpenStep::Done(Ok(container))
                &&& container.spec_device() == self.spec_device()
                &&& container.spec_info().superblock == superblock
                &&& container.spec_device_block_size() == self.spec_device_block_size()
                &&& container.spec_cache() is None
                &&& container.wf()
            },
        }
    }

    /// Goes on with what was read.
    pub fn resume(self, reply: Result<Decoded<ContainerSuperblock>, ReadError>) -> (step: OpenStep<
        D,
    >)
        requires
            self.wf(),
        ensures
            self.is_decided(
                open_decision(self.spec_device_block_size(), self.spec_probed(), reply),
                step,
            ),
    {
        let block = match reply {
            Err(error) => return OpenStep::Done(Err(map_read_error(error))),
            Ok(block) => block,
        };
        if self.probed {
            if let Err(error) = block.checksum {
                return OpenStep::Done(Err(error));
            }
            return match block.parsed {
                Err(error) => OpenStep::Done(Err(error)),
                Ok(superblock) => self.accept(superblock),
            };
        }
        let probe = match block.parsed {
            Err(error) => return OpenStep::Done(Err(error)),
            Ok(probe) => probe,
        };
        if probe.block_size as usize == PROBE_LENGTH {
            return match block.checksum {
                Err(error) => OpenStep::Done(Err(error)),
                Ok(_) => self.accept(probe),
            };
        }
        if probe.block_size % self.device_block_size != 0 {
            return OpenStep::Done(
                Err(ApfsError::InvalidValue("APFS block size is not device-block aligned")),
            );
        }
        if probe.block_size > CONTAINER_MAXIMUM_BLOCK_SIZE_BYTES {
            return OpenStep::Done(Err(ApfsError::InvalidValue("container block size")));
        }
        OpenStep::Read {
            length: probe.block_size as usize,
            opening: Opening {
                device: self.device,
                device_block_size: self.device_block_size,
                probed: true,
            },
        }
    }
}

/// An APFS block starts on the device at the byte that its number times the
/// container's block size gives.
pub proof fn law_block_address(block_size: u32, device_block_size: u32, block: u64)
    requires
        device_block_size_fits(device_block_size),
        block_size % device_block_size == 0,
    ensures
        device_block_outcome(block_size, device_block_size, block, block_size as int) matches Ok(
            device_block,
        ) ==> device_block * device_block_size == block * block_size,
{
    let ratio = (block_size / device_block_size) as int;
    vstd::arithmetic::div_mod::lemma_fundamental_div_mod(
        block_size as int,
        device_block_size as int,
    );
    assert((block * ratio) * device_block_size == block * (device_block_size * ratio))
        by (nonlinear_arith);
}

/// A container is opened only with a superblock from a whole block that was
/// read and whose checksum was found to match, and whose size is a whole
/// number of device blocks.
pub proof fn law_only_verified_superblocks_open(
    device_block_size: u32,
    probed: bool,
    reply: Result<Decoded<ContainerSuperblock>, ReadError>,
)
    requires
        device_block_size_fits(device_block_size),
    ensures
        open_decision(device_block_size, probed, reply) matches OpenDecision::Accept(superblock)
            ==> {
            &&& reply matches Ok(block)
            &&& block.checksum is Ok
            &&& block.parsed == Ok::<ContainerSuperblock, ApfsError>(superblock)
            &&& superblock.block_size % device_block_size == 0
            &&& probed || superblock.block_size == PROBE_LENGTH
        },
{
}

/// What opening gives when `first` is what the probe read and `second` what
/// the read of the full block gave, if there was one.
pub open spec fn open_outcome(
    device_block_size: u32,
    first: Result<Decoded<ContainerSuperblock>, ReadError>,
    second: Result<Decoded<ContainerSuperblock>, ReadError>,
) -> OpenDecision {
    match open_decision(device_block_size, false, first) {
        OpenDecision::ReadFull(_) => open_decision(device_block_size, true, second),
        decision => decision,
    }
}

/// Opening ends after one or two reads. A second read is made only of a block
/// of another size than the probe, and what it gives is decided by it alone.
pub proof fn law_opening_ends(
    device_block_size: u32,
    first: Result<Decoded<ContainerSuperblock>, ReadError>,
    second: Result<Decoded<ContainerSuperblock>, ReadError>,
)
    ensures
        open_outcome(device_block_size, first, second) !is ReadFull,
        open_decision(device_block_size, false, first) matches OpenDecision::ReadFull(block_size)
            ==> {
            &&& block_size != PROBE_LENGTH
            &&& block_size <= CONTAINER_MAXIMUM_BLOCK_SIZE_BYTES
            &&& block_size % device_block_size == 0
        },
{
}

/// The device block sizes that a container can be on are the powers of two up
/// to 4096.
pub proof fn law_device_block_sizes(device_block_size: u32)
    ensures
        device_block_size_fits(device_block_size) <==> {
            ||| device_block_size == 1
            ||| device_block_size == 2
            ||| device_block_size == 4
            ||| device_block_size == 8
            ||| device_block_size == 16
            ||| device_block_size == 32
            ||| device_block_size == 64
            ||| device_block_size == 128
            ||| device_block_size == 256
            ||| device_block_size == 512
            ||| device_block_size == 1024
            ||| device_block_size == 2048
            ||| device_block_size == 4096
        },
{
    let n = device_block_size;
    assert((0 < n && n <= 4096 && 4096u32 % n == 0) <==> (n == 1 || n == 2 || n == 4 || n == 8 || n
        == 16 || n == 32 || n == 64 || n == 128 || n == 256 || n == 512 || n == 1024 || n == 2048
        || n == 4096)) by (bit_vector);
}

/// A block is addressed if and only if the buffer has the length of a block
/// and the number of its first device block fits. It starts on the device at
/// the byte that its number times the container's block size gives.
pub proof fn law_every_block_that_fits_is_addressed(
    block_size: u32,
    device_block_size: u32,
    block: u64,
    buffer_length: int,
)
    requires
        device_block_size > 0,
        block_size % device_block_size == 0,
    ensures
        buffer_length != block_size ==> device_block_outcome(
            block_size,
            device_block_size,
            block,
            buffer_length,
        ) == Err::<u64, ApfsError>(ApfsError::InvalidValue("APFS block buffer length")),
        buffer_length == block_size && block * block_size > 0xffff_ffff_ffff_ffff
            * device_block_size ==> device_block_outcome(
            block_size,
            device_block_size,
            block,
            buffer_length,
        ) == Err::<u64, ApfsError>(ApfsError::AddressOverflow),
        buffer_length == block_size && block * block_size <= 0xffff_ffff_ffff_ffff
            * device_block_size ==> (device_block_outcome(
            block_size,
            device_block_size,
            block,
            buffer_length,
        ) matches Ok(device_block) && device_block * device_block_size == block * block_size),
{
    let ratio = (block_size / device_block_size) as int;
    let product = block * ratio;
    vstd::arithmetic::div_mod::lemma_fundamental_div_mod(
        block_size as int,
        device_block_size as int,
    );
    assert(block_size == device_block_size * ratio);
    assert(product * device_block_size == block * block_size) by (nonlinear_arith)
        requires
            product == block * ratio,
            block_size == device_block_size * ratio,
    ;
    if product > 0xffff_ffff_ffff_ffff {
        assert(product * device_block_size > 0xffff_ffff_ffff_ffff * device_block_size)
            by (nonlinear_arith)
            requires
                product > 0xffff_ffff_ffff_ffff,
                device_block_size > 0,
        ;
    } else {
        assert(product * device_block_size <= 0xffff_ffff_ffff_ffff * device_block_size)
            by (nonlinear_arith)
            requires
                product <= 0xffff_ffff_ffff_ffff,
                device_block_size > 0,
        ;
    }
}

/// What is made of the first 4096 bytes. A superblock that does not decode, or
/// says blocks that are no whole device blocks, ends the opening. One of a
/// 4096-byte block is taken when its checksum matches. One of any other block
/// of at most 65536 bytes has the whole block read, whatever the checksum of
/// the first bytes.
pub proof fn law_what_the_probe_decides(
    device_block_size: u32,
    block: Decoded<ContainerSuperblock>,
    superblock: ContainerSuperblock,
    wrong: ApfsError,
)
    requires
        device_block_size_fits(device_block_size),
    ensures
        block.parsed == Err::<ContainerSuperblock, ApfsError>(wrong) ==> open_decision(
            device_block_size,
            false,
            Ok(block),
        ) == OpenDecision::Fail(wrong),
        block.parsed == Ok::<ContainerSuperblock, ApfsError>(superblock) ==> {
            let decision = open_decision(device_block_size, false, Ok(block));
            &&& superblock.block_size == 4096 && block.checksum is Ok ==> decision
                == OpenDecision::Accept(superblock)
            &&& superblock.block_size == 4096 && block.checksum == Err::<(), ApfsError>(wrong)
                ==> decision == OpenDecision::Fail(wrong)
            &&& superblock.block_size % device_block_size != 0 ==> decision == OpenDecision::Fail(
                ApfsError::InvalidValue("APFS block size is not device-block aligned"),
            )
            &&& superblock.block_size > 65536 && superblock.block_size % device_block_size == 0
                ==> decision == OpenDecision::Fail(
                ApfsError::InvalidValue("container block size"),
            )
            &&& superblock.block_size != 4096 && superblock.block_size <= 65536
                && superblock.block_size % device_block_size == 0 ==> decision
                == OpenDecision::ReadFull(superblock.block_size)
        },
{
}

/// What is made of the whole block: it is taken when its checksum matches, it
/// decodes, and its size is a whole number of device blocks. Otherwise the
/// first of these that fails is the error.
pub proof fn law_what_the_full_block_decides(
    device_block_size: u32,
    block: Decoded<ContainerSuperblock>,
    superblock: ContainerSuperblock,
    wrong: ApfsError,
)
    requires
        device_block_size_fits(device_block_size),
    ensures
        block.checksum == Err::<(), ApfsError>(wrong) ==> open_decision(
            device_block_size,
            true,
            Ok(block),
        ) == OpenDecision::Fail(wrong),
        block.checksum is Ok && block.parsed == Err::<ContainerSuperblock, ApfsError>(wrong)
            ==> open_decision(device_block_size, true, Ok(block)) == OpenDecision::Fail(wrong),
        block.checksum is Ok && block.parsed == Ok::<ContainerSuperblock, ApfsError>(superblock)
            && superblock.block_size % device_block_size == 0 ==> open_decision(
            device_block_size,
            true,
            Ok(block),
        ) == OpenDecision::Accept(superblock),
        block.checksum is Ok && block.parsed == Ok::<ContainerSuperblock, ApfsError>(superblock)
            && superblock.block_size % device_block_size != 0 ==> open_decision(
            device_block_size,
            true,
            Ok(block),
        ) == OpenDecision::Fail(
            ApfsError::InvalidValue("APFS block size is not device-block aligned"),
        ),
{
}

/// A read that fails ends the opening, and the device's error says how.
pub proof fn law_failed_reads_end_an_opening(
    device_block_size: u32,
    probed: bool,
    error: ReadError,
)
    ensures
        open_decision(device_block_size, probed, Err(error)) == OpenDecision::Fail(
            match error {
                ReadError::InvalidBufferLength => ApfsError::InvalidValue("read buffer length"),
                ReadError::OutOfBounds => ApfsError::InvalidValue("block is outside the device"),
                ReadError::AddressOverflow => ApfsError::AddressOverflow,
                ReadError::InvalidView => ApfsError::InvalidValue("partition view"),
                ReadError::Io(kind) => ApfsError::Io(kind),
            },
        ),
{
}

/// What a decision leads to. A failure is the end, and is its error. A larger
/// block is asked for with its size, on the same device, and is known to be the
/// full block when it comes. An accepted superblock is that of the open
/// container, which is on the same device and has no object map cached.
pub proof fn law_decisions_are_carried_out<D>(
    before: Opening<D>,
    decision: OpenDecision,
    step: OpenStep<D>,
)
    requires
        before.is_decided(decision, step),
    ensures
        decision matches OpenDecision::Fail(error) ==> step == OpenStep::<D>::Done(Err(error)),
        decision matches OpenDecision::ReadFull(size) ==> match step {
            OpenStep::Read { length, opening } => {
                &&& length == size
                &&& opening.spec_device() == before.spec_device()
                &&& opening.spec_device_block_size() == before.spec_device_block_size()
                &&& opening.spec_probed()
            },
            OpenStep::Done(_) => false,
        },
        decision matches OpenDecision::Accept(superblock) ==> match step {
            OpenStep::Done(Ok(container)) => {
                &&& container.spec_info().superblock == superblock
                &&& container.spec_device() == before.spec_device()
                &&& container.spec_device_block_size() == before.spec_device_block_size()
                &&& container.spec_cache() is None
            },
            _ => false,
        },
{
}

} // verus!
