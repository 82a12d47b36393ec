//! Fixed-width little-endian fields inside a byte buffer.

use crate::error::ApfsError;
use vstd::prelude::*;

verus! {

/// The number whose little-endian digits in base 256 are `bytes`.
pub open spec fn le_nat(bytes: Seq<u8>) -> nat
    decreases bytes.len(),
{
    if bytes.len() == 0 {
        0
    } else {
        bytes[0] as nat + 256 * le_nat(bytes.drop_first())
    }
}

/// The 16-bit field at `offset`.
pub open spec fn u16_at(data: Seq<u8>, offset: int) -> u16 {
    le_nat(data.subrange(offset, offset + 2)) as u16
}

/// The 32-bit field at `offset`.
pub open spec fn u32_at(data: Seq<u8>, offset: int) -> u32 {
    le_nat(data.subrange(offset, offset + 4)) as u32
}

/// The 64-bit field at `offset`.
pub open spec fn u64_at(data: Seq<u8>, offset: int) -> u64 {
    le_nat(data.subrange(offset, offset + 8)) as u64
}

/// One step of [`le_nat`] on a part of a buffer.
proof fn lemma_le_nat_step(data: Seq<u8>, from: int, to: int)
    requires
        0 <= from < to <= data.len(),
    ensures
        le_nat(data.subrange(from, to)) == data[from] as nat + 256 * le_nat(
            data.subrange(from + 1, to),
        ),
{
    assert(data.subrange(from, to).drop_first() =~= data.subrange(from + 1, to));
}

/// Reads the little-endian 16-bit field at `offset`.
pub fn le_u16(data: &[u8], offset: usize) -> (r: Result<u16, ApfsError>)
    ensures
        offset + 2 <= data@.len() ==> r == Ok::<u16, ApfsError>(u16_at(data@, offset as int)),
        offset + 2 > data@.len() ==> r == Err::<u16, ApfsError>(ApfsError::InputTooSmall),
{
    let len: usize = data.len();
    if offset > len || len - offset < 2 {
        return Err(ApfsError::InputTooSmall);
    }
    let value: u16 = data[offset] as u16 + 256 * (data[offset + 1] as u16);
    proof {
        let d = data@;
        let o = offset as int;
        lemma_le_nat_step(d, o, o + 2);
        lemma_le_nat_step(d, o + 1, o + 2);
    }
    Ok(value)
}

/// Reads the little-endian 32-bit field at `offset`.
pub fn le_u32(data: &[u8], offset: usize) -> (r: Result<u32, ApfsError>)
    ensures
        offset + 4 <= data@.len() ==> r == Ok::<u32, ApfsError>(u32_at(data@, offset as int)),
        offset + 4 > data@.len() ==> r == Err::<u32, ApfsError>(ApfsError::InputTooSmall),
{
    let len: usize = data.len();
    if offset > len || len - offset < 4 {
        return Err(ApfsError::InputTooSmall);
    }
    let value: u32 = data[offset] as u32 + 256 * (data[offset + 1] as u32 + 256 * (data[offset + 2]
        as u32 + 256 * (data[offset + 3] as u32)));
    proof {
        let d = data@;
        let o = offset as int;
        lemma_le_nat_step(d, o, o + 4);
        lemma_le_nat_step(d, o + 1, o + 4);
        lemma_le_nat_step(d, o + 2, o + 4);
        lemma_le_nat_step(d, o + 3, o + 4);
    }
    Ok(value)
}

/// Reads the little-endian 64-bit field at `offset`.
pub fn le_u64(data: &[u8], offset: usize) -> (r: Result<u64, ApfsError>)
    ensures
        offset + 8 <= data@.len() ==> r == Ok::<u64, ApfsError>(u64_at(data@, offset as int)),
        offset + 8 > data@.len() ==> r == Err::<u64, ApfsError>(ApfsError::InputTooSmall),
{
    let len: usize = data.len();
    if offset > len || len - offset < 8 {
        return Err(ApfsError::InputTooSmall);
    }
    let low: u64 = data[offset] as u64 + 256 * (data[offset + 1] as u64 + 256 * (data[offset + 2]
        as u64 + 256 * (data[offset + 3] as u64)));
    let high: u64 = data[offset + 4] as u64 + 256 * (data[offset + 5] as u64 + 256 * (data[offset
        + 6] as u64 + 256 * (data[offset + 7] as u64)));
    proof {
        let d = data@;
        let o = offset as int;
        lemma_le_nat_step(d, o, o + 8);
        lemma_le_nat_step(d, o + 1, o + 8);
        lemma_le_nat_step(d, o + 2, o + 8);
        lemma_le_nat_step(d, o + 3, o + 8);
        lemma_le_nat_step(d, o + 4, o + 8);
        lemma_le_nat_step(d, o + 5, o + 8);
        lemma_le_nat_step(d, o + 6, o + 8);
        lemma_le_nat_step(d, o + 7, o + 8);
    }
    Ok(low + 0x1_0000_0000 * high)
}

/// Copies the `N` bytes at `offset`.
pub fn take<const N: usize>(data: &[u8], offset: usize) -> (r: Result<[u8; N], ApfsError>)
    ensures
        match r {
            Ok(bytes) => offset + N <= data@.len() && bytes@ == data@.subrange(
                offset as int,
                offset + N,
            ),
            Err(error) => offset + N > data@.len() && error == ApfsError::InputTooSmall,
        },
{
    let len: usize = data.len();
    if offset > len || len - offset < N {
        return Err(ApfsError::InputTooSmall);
    }
    let mut out: [u8; N] = [0; N];
    let mut i: usize = 0;
    while i < N
        invariant
            i <= N,
            len == data@.len(),
            offset + N <= len,
            forall|j: int| 0 <= j < i ==> out@[j] == data@[offset + j],
        decreases N - i,
    {
        out[i] = data[offset + i];
        i = i + 1;
    }
    assert(out@ =~= data@.subrange(offset as int, offset + N));
    Ok(out)
}

/// Compares two identifiers byte by byte.
pub fn same_uuid(left: &[u8; 16], right: &[u8; 16]) -> (same: bool)
    ensures
        same == (left@ == right@),
{
    let mut i: usize = 0;
    while i < 16
        invariant
            i <= 16,
            forall|j: int| 0 <= j < i ==> left@[j] == right@[j],
        decreases 16 - i,
    {
        if left[i] != right[i] {
            return false;
        }
        i = i + 1;
    }
    assert(left@ =~= right@);
    true
}

/// Fields are little-endian: the first byte counts ones, the next one 256 times
/// as much, and so on.
pub proof fn law_fields_are_little_endian(data: Seq<u8>, at: int)
    requires
        0 <= at,
    ensures
        at + 2 <= data.len() ==> u16_at(data, at) == data[at] + 0x100 * data[at + 1],
        at + 4 <= data.len() ==> u32_at(data, at) == data[at] + 0x100 * data[at + 1] + 0x1_0000
            * data[at + 2] + 0x100_0000 * data[at + 3],
        at + 8 <= data.len() ==> u64_at(data, at) == data[at] + 0x100 * data[at + 1] + 0x1_0000
            * data[at + 2] + 0x100_0000 * data[at + 3] + 0x1_0000_0000 * data[at + 4]
            + 0x100_0000_0000 * data[at + 5] + 0x1_0000_0000_0000 * data[at + 6]
            + 0x100_0000_0000_0000 * data[at + 7],
{
    if at + 2 <= data.len() {
        lemma_le_nat_step(data, at, at + 2);
        lemma_le_nat_step(data, at + 1, at + 2);
        assert(data.subrange(at + 2, at + 2).len() == 0);
    }
    if at + 4 <= data.len() {
        lemma_le_nat_step(data, at, at + 4);
        lemma_le_nat_step(data, at + 1, at + 4);
        lemma_le_nat_step(data, at + 2, at + 4);
        lemma_le_nat_step(data, at + 3, at + 4);
        assert(data.subrange(at + 4, at + 4).len() == 0);
    }
    if at + 8 <= data.len() {
        lemma_le_nat_step(data, at, at + 8);
        lemma_le_nat_step(data, at + 1, at + 8);
        lemma_le_nat_step(data, at + 2, at + 8);
        lemma_le_nat_step(data, at + 3, at + 8);
        lemma_le_nat_step(data, at + 4, at + 8);
        lemma_le_nat_step(data, at + 5, at + 8);
        lemma_le_nat_step(data, at + 6, at + 8);
        lemma_le_nat_step(data, at + 7, at + 8);
        assert(data.subrange(at + 8, at + 8).len() == 0);
    }
}

} // verus!
