//! The DER structure around a wrapped key.
//!
//! Every KEK and VEK keybag entry's key data is a small, hand-rolled DER
//! structure: a SEQUENCE that holds an authenticated header and, in its
//! constructed `[3]` element, the wrapped key and what is needed to unwrap it.
//! The header's HMAC is not verified.

use crate::error::ApfsError;
use core::ops::Range;
use vstd::prelude::*;
use vstd::slice::{slice_subrange, slice_to_vec};

verus! {

/// The number whose big-endian digits in base 256 are `bytes`.
pub open spec fn be_nat(bytes: Seq<u8>) -> nat
    decreases bytes.len(),
{
    if bytes.len() == 0 {
        0
    } else {
        be_nat(bytes.drop_last()) * 256 + bytes.last() as nat
    }
}

/// One tag-length-value element: its tag and where its content lies.
#[verifier::ext_equal]
pub struct Tlv {
    /// Tag byte.
    pub tag: u8,
    /// Offset of the first content byte.
    pub start: int,
    /// Offset just past the content.
    pub end: int,
}

/// The number of length bytes that follow the first one.
pub open spec fn length_bytes(first: u8) -> int {
    if first < 0x80 {
        0
    } else {
        first - 0x80
    }
}

/// The element at `pos`, or nothing when it runs past the end of `data`. A
/// length that does not fit a `usize` is taken modulo its range.
pub open spec fn tlv_at(data: Seq<u8>, pos: int) -> Option<Tlv> {
    if pos + 2 > data.len() {
        None
    } else {
        let first = data[pos + 1];
        let start = pos + 2 + length_bytes(first);
        if start > data.len() {
            None
        } else {
            let length = if first < 0x80 {
                first as int
            } else {
                (be_nat(data.subrange(pos + 2, start)) % (usize::MAX as nat + 1)) as int
            };
            if start + length > data.len() {
                None
            } else {
                Some(Tlv { tag: data[pos], start, end: start + length })
            }
        }
    }
}

/// An element starts after its tag and first length byte and ends inside
/// `data`.
pub proof fn lemma_tlv_bounds(data: Seq<u8>, pos: int)
    ensures
        match tlv_at(data, pos) {
            Some(element) => pos + 2 <= element.start <= element.end <= data.len(),
            None => true,
        },
{
    if let Some(element) = tlv_at(data, pos) {
        vstd::arithmetic::div_mod::lemma_mod_bound(
            be_nat(data.subrange(pos + 2, element.start)) as int,
            usize::MAX + 1,
        );
    }
}

/// How far reading the element at `pos` gets before it is found truncated.
pub open spec fn tlv_stop(data: Seq<u8>, pos: int) -> int {
    if pos >= data.len() {
        pos
    } else if pos + 1 >= data.len() {
        pos + 1
    } else if pos + 2 + length_bytes(data[pos + 1]) > data.len() {
        pos + 2
    } else {
        pos + 2 + length_bytes(data[pos + 1])
    }
}

/// The elements that start from `pos` on and before `end`, or nothing when
/// one of them is truncated. The last one may reach past `end`.
pub open spec fn elements_from(data: Seq<u8>, pos: int, end: int) -> Option<Seq<Tlv>>
    decreases data.len() - pos,
{
    if pos >= end {
        Some(Seq::empty())
    } else {
        proof {
            lemma_tlv_bounds(data, pos);
        }
        match tlv_at(data, pos) {
            None => None,
            Some(element) => match elements_from(data, element.end, end) {
                None => None,
                Some(rest) => Some(seq![element] + rest),
            },
        }
    }
}

/// The first constructed `[3]` element that starts from `pos` on and before
/// `end`.
pub open spec fn constructed_from(data: Seq<u8>, pos: int, end: int) -> Result<Tlv, ApfsError>
    decreases data.len() - pos,
{
    if pos >= end {
        Err(ApfsError::Crypto("wrapped key blob is missing its constructed [3] element"))
    } else {
        proof {
            lemma_tlv_bounds(data, pos);
        }
        match tlv_at(data, pos) {
            None => Err(ApfsError::Crypto("truncated DER key blob")),
            Some(element) => if element.tag == 0xA3 {
                Ok(element)
            } else {
                constructed_from(data, element.end, end)
            },
        }
    }
}

/// Whether `element` carries the field `number`. The identifier is taken only
/// when it has sixteen bytes.
pub open spec fn carries(element: Tlv, number: int) -> bool {
    &&& element.tag as int % 32 == number
    &&& number == 1 ==> element.end - element.start == 16
}

/// The last element that carries the field `number`.
pub open spec fn last_field(elements: Seq<Tlv>, number: int) -> Option<Tlv>
    decreases elements.len(),
{
    if elements.len() == 0 {
        None
    } else if carries(elements.last(), number) {
        Some(elements.last())
    } else {
        last_field(elements.drop_last(), number)
    }
}

/// The content of the last element that carries the field `number`.
pub open spec fn field_content(data: Seq<u8>, elements: Seq<Tlv>, number: int) -> Option<Seq<u8>> {
    match last_field(elements, number) {
        Some(element) => Some(data.subrange(element.start, element.end)),
        None => None,
    }
}

/// The flags in `content`: its first four bytes in big-endian order, with
/// zeros in place of the bytes it does not have.
pub open spec fn flags_in(content: Seq<u8>) -> u32 {
    be_nat(
        Seq::new(
            4,
            |i: int|
                if i < content.len() {
                    content[i]
                } else {
                    0u8
                },
        ),
    ) as u32
}

/// What a wrapped key blob holds.
#[verifier::ext_equal]
pub struct WrappedKeyBlobView {
    /// Identifier in the blob's header.
    pub uuid: Seq<u8>,
    /// Key info flags.
    pub flags: u32,
    /// Wrapped key data.
    pub wrapped_key: Seq<u8>,
    /// Iteration count, where there is one.
    pub iterations: Option<u64>,
    /// Salt.
    pub salt: Seq<u8>,
}

/// The blob whose fields are `elements`: the last element of each kind counts,
/// and what none carries has its default.
pub open spec fn blob_of(data: Seq<u8>, elements: Seq<Tlv>) -> WrappedKeyBlobView {
    WrappedKeyBlobView {
        uuid: match field_content(data, elements, 1) {
            Some(content) => content,
            None => Seq::new(16, |i: int| 0u8),
        },
        flags: match field_content(data, elements, 2) {
            Some(content) => flags_in(content),
            None => 0,
        },
        wrapped_key: match field_content(data, elements, 3) {
            Some(content) => content,
            None => Seq::empty(),
        },
        iterations: match field_content(data, elements, 4) {
            Some(content) => Some((be_nat(content) % (u64::MAX as nat + 1)) as u64),
            None => None,
        },
        salt: match field_content(data, elements, 5) {
            Some(content) => content,
            None => Seq::empty(),
        },
    }
}

/// The blob encoded in `data`, or why there is none.
pub open spec fn blob_in(data: Seq<u8>) -> Result<WrappedKeyBlobView, ApfsError> {
    match tlv_at(data, 0) {
        None => Err(ApfsError::Crypto("truncated DER key blob")),
        Some(sequence) => if sequence.tag != 0x30 {
            Err(ApfsError::Crypto("wrapped key blob is not a DER SEQUENCE"))
        } else {
            match constructed_from(data, sequence.start, sequence.end) {
                Err(error) => Err(error),
                Ok(inner) => match elements_from(data, inner.start, inner.end) {
                    None => Err(ApfsError::Crypto("truncated DER key blob")),
                    Some(elements) => Ok(blob_of(data, elements)),
                },
            }
        },
    }
}

/// A wrapped key blob decoded from a keybag entry's key data.
#[derive(Debug, Clone, PartialEq, Eq)]
pub struct WrappedKeyBlob {
    /// UUID recorded inside the blob's header (may differ in practice from
    /// the owning keybag entry's UUID, though it usually matches).
    pub uuid: [u8; 16],
    /// Key info flags; bit `0x2` selects the AES-128 wrapping variant used
    /// by FileVault/CoreStorage-converted volumes instead of the AES-256
    /// variant used natively by APFS.
    pub flags: u32,
    /// RFC 3394 wrapped key data (tag `[3]`).
    pub wrapped_key: Vec<u8>,
    /// PBKDF2 iteration count (tag `[4]`; KEK blobs only).
    pub iterations: Option<u64>,
    /// PBKDF2 salt (tag `[5]`; KEK blobs only).
    pub salt: Vec<u8>,
}

impl View for WrappedKeyBlob {
    type V = WrappedKeyBlobView;

    open spec fn view(&self) -> WrappedKeyBlobView {
        WrappedKeyBlobView {
            uuid: self.uuid@,
            flags: self.flags,
            wrapped_key: self.wrapped_key@,
            iterations: self.iterations,
            salt: self.salt@,
        }
    }
}

/// Appending a digit commutes with reduction modulo `range`.
proof fn lemma_digit_mod(high: nat, digit: nat, range: nat)
    requires
        range > 256,
        digit < 256,
    ensures
        (((high % range) * 256) % range + digit) % range == (high * 256 + digit) % range,
{
    vstd::arithmetic::div_mod::lemma_mul_mod_noop_left(high as int, 256, range as int);
    vstd::arithmetic::div_mod::lemma_add_mod_noop(
        (high * 256) as int,
        digit as int,
        range as int,
    );
    vstd::arithmetic::div_mod::lemma_small_mod(digit, range);
}

/// Reads `data[from..to]` as a big-endian number modulo the range of `usize`.
fn be_usize(data: &[u8], from: usize, to: usize) -> (value: usize)
    requires
        from <= to <= data@.len(),
    ensures
        value == be_nat(data@.subrange(from as int, to as int)) % (usize::MAX as nat + 1),
{
    let mut value: usize = 0;
    let mut i: usize = from;
    proof {
        assert(data@.subrange(from as int, from as int) =~= Seq::empty());
        vstd::arithmetic::div_mod::lemma_small_mod(0, usize::MAX as nat + 1);
    }
    while i < to
        invariant
            from <= i <= to <= data@.len(),
            value == be_nat(data@.subrange(from as int, i as int)) % (usize::MAX as nat + 1),
        decreases to - i,
    {
        proof {
            let part = data@.subrange(from as int, i + 1);
            assert(part.drop_last() =~= data@.subrange(from as int, i as int));
            lemma_digit_mod(
                be_nat(part.drop_last()),
                data@[i as int] as nat,
                usize::MAX as nat + 1,
            );
        }
        value = value.wrapping_mul(256).wrapping_add(data[i] as usize);
        i = i + 1;
    }
    value
}

/// Reads `data[from..to]` as a big-endian number modulo the range of `u64`.
fn be_u64(data: &[u8], from: usize, to: usize) -> (value: u64)
    requires
        from <= to <= data@.len(),
    ensures
        value == be_nat(data@.subrange(from as int, to as int)) % (u64::MAX as nat + 1),
{
    let mut value: u64 = 0;
    let mut i: usize = from;
    proof {
        assert(data@.subrange(from as int, from as int) =~= Seq::empty());
        vstd::arithmetic::div_mod::lemma_small_mod(0, u64::MAX as nat + 1);
    }
    while i < to
        invariant
            from <= i <= to <= data@.len(),
            value == be_nat(data@.subrange(from as int, i as int)) % (u64::MAX as nat + 1),
        decreases to - i,
    {
        proof {
            let part = data@.subrange(from as int, i + 1);
            assert(part.drop_last() =~= data@.subrange(from as int, i as int));
            lemma_digit_mod(be_nat(part.drop_last()), data@[i as int] as nat, u64::MAX as nat + 1);
        }
        value = value.wrapping_mul(256).wrapping_add(data[i] as u64);
        i = i + 1;
    }
    value
}

/// Reads one DER tag-length-value element (assuming a single-byte tag,
/// true for every element used here), returning the tag byte and the
/// content's byte range, and advancing `pos` past it.
pub fn der_read_tlv(data: &[u8], pos: &mut usize) -> (r: Result<(u8, Range<usize>), ApfsError>)
    ensures
        match r {
            Ok((tag, range)) => {
                &&& tlv_at(data@, *old(pos) as int) == Some(
                    Tlv { tag, start: range.start as int, end: range.end as int },
                )
                &&& *final(pos) == range.end
            },
            Err(error) => {
                &&& tlv_at(data@, *old(pos) as int) is None
                &&& error == ApfsError::Crypto("truncated DER key blob")
                &&& *final(pos) == tlv_stop(data@, *old(pos) as int)
            },
        },
{
    let len: usize = data.len();
    if *pos >= len {
        return Err(ApfsError::Crypto("truncated DER key blob"));
    }
    let tag: u8 = data[*pos];
    *pos = *pos + 1;
    if *pos >= len {
        return Err(ApfsError::Crypto("truncated DER key blob"));
    }
    let length_byte: u8 = data[*pos];
    *pos = *pos + 1;
    let length: usize = if length_byte < 0x80 {
        length_byte as usize
    } else {
        let count: usize = (length_byte - 0x80) as usize;
        if len - *pos < count {
            return Err(ApfsError::Crypto("truncated DER key blob"));
        }
        let from: usize = *pos;
        *pos = *pos + count;
        be_usize(data, from, from + count)
    };
    let start: usize = *pos;
    if len - start < length {
        return Err(ApfsError::Crypto("truncated DER key blob"));
    }
    let end: usize = start + length;
    *pos = end;
    Ok((tag, start..end))
}

/// The flags held by `data[from..to]`; see [`flags_in`].
fn read_flags(data: &[u8], from: usize, to: usize) -> (flags: u32)
    requires
        from <= to <= data@.len(),
    ensures
        flags == flags_in(data@.subrange(from as int, to as int)),
{
    let b0: u32 = if to - from > 0 { data[from] as u32 } else { 0 };
    let b1: u32 = if to - from > 1 { data[from + 1] as u32 } else { 0 };
    let b2: u32 = if to - from > 2 { data[from + 2] as u32 } else { 0 };
    let b3: u32 = if to - from > 3 { data[from + 3] as u32 } else { 0 };
    proof {
        let content = data@.subrange(from as int, to as int);
        let padded = Seq::new(
            4,
            |i: int|
                if i < content.len() {
                    content[i]
                } else {
                    0u8
                },
        );
        assert(padded =~= seq![b0 as u8, b1 as u8, b2 as u8, b3 as u8]);
        reveal_with_fuel(be_nat, 5);
    }
    b0 * 0x100_0000 + b1 * 0x1_0000 + b2 * 0x100 + b3
}

/// Adding an element changes the field that it carries and no other.
proof fn lemma_last_field_push(elements: Seq<Tlv>, element: Tlv, number: int)
    ensures
        last_field(elements.push(element), number) == (if carries(element, number) {
            Some(element)
        } else {
            last_field(elements, number)
        }),
{
    assert(elements.push(element).drop_last() =~= elements);
}

/// Finds the constructed `[3]` element among those that start in
/// `data[from..to]`.
fn find_constructed(data: &[u8], from: usize, to: usize) -> (r: Result<Range<usize>, ApfsError>)
    requires
        from <= data@.len(),
    ensures
        match r {
            Ok(inner) => {
                &&& constructed_from(data@, from as int, to as int) == Ok::<Tlv, ApfsError>(
                    Tlv { tag: 0xA3, start: inner.start as int, end: inner.end as int },
                )
                &&& inner.start <= inner.end <= data@.len()
            },
            Err(error) => constructed_from(data@, from as int, to as int) == Err::<Tlv, ApfsError>(
                error,
            ),
        },
{
    let mut cursor: usize = from;
    while cursor < to
        invariant
            cursor <= data@.len(),
            constructed_from(data@, from as int, to as int) == constructed_from(
                data@,
                cursor as int,
                to as int,
            ),
        decreases data@.len() - cursor,
    {
        proof {
            lemma_tlv_bounds(data@, cursor as int);
        }
        let (tag, range) = der_read_tlv(data, &mut cursor)?;
        if tag == 0xA3 {
            return Ok(range);
        }
    }
    Err(ApfsError::Crypto("wrapped key blob is missing its constructed [3] element"))
}

/// Reads the fields of the elements that start in `data[from..to]`.
fn read_fields(data: &[u8], from: usize, to: usize) -> (r: Result<WrappedKeyBlob, ApfsError>)
    requires
        from <= data@.len(),
    ensures
        match r {
            Ok(blob) => match elements_from(data@, from as int, to as int) {
                Some(elements) => blob@ == blob_of(data@, elements),
                None => false,
            },
            Err(error) => {
                &&& elements_from(data@, from as int, to as int) is None
                &&& error == ApfsError::Crypto("truncated DER key blob")
            },
        },
{
    let mut uuid: [u8; 16] = [0; 16];
    let mut flags: u32 = 0;
    let mut wrapped_key: Vec<u8> = Vec::new();
    let mut iterations: Option<u64> = None;
    let mut salt: Vec<u8> = Vec::new();
    let mut cursor: usize = from;
    let ghost mut done = Seq::<Tlv>::empty();
    let ghost all = elements_from(data@, from as int, to as int);
    proof {
        assert(uuid@ =~= Seq::new(16, |i: int| 0u8));
        if let Some(rest) = all {
            assert(done + rest =~= rest);
        }
    }
    while cursor < to
        invariant
            cursor <= data@.len(),
            all == elements_from(data@, from as int, to as int),
            all is None <==> elements_from(data@, cursor as int, to as int) is None,
            all is Some ==> all->0 == done + elements_from(data@, cursor as int, to as int)->0,
            blob_of(data@, done) == (WrappedKeyBlobView {
                uuid: uuid@,
                flags,
                wrapped_key: wrapped_key@,
                iterations,
                salt: salt@,
            }),
        decreases data@.len() - cursor,
    {
        proof {
            lemma_tlv_bounds(data@, cursor as int);
        }
        let (tag, range) = der_read_tlv(data, &mut cursor)?;
        let ghost element = Tlv { tag, start: range.start as int, end: range.end as int };
        let number: u8 = tag % 32;
        let length: usize = range.end - range.start;
        proof {
            lemma_last_field_push(done, element, 1);
            lemma_last_field_push(done, element, 2);
            lemma_last_field_push(done, element, 3);
            lemma_last_field_push(done, element, 4);
            lemma_last_field_push(done, element, 5);
            if let Some(rest) = elements_from(data@, cursor as int, to as int) {
                assert(done + (seq![element] + rest) =~= done.push(element) + rest);
            }
            done = done.push(element);
        }
        if number == 1 && length == 16 {
            let mut i: usize = 0;
            while i < 16
                invariant
                    i <= 16,
                    range.end <= data@.len(),
                    range.start + 16 == range.end,
                    forall|j: int| 0 <= j < i ==> uuid@[j] == data@[range.start + j],
                decreases 16 - i,
            {
                uuid[i] = data[range.start + i];
                i = i + 1;
            }
            assert(uuid@ =~= data@.subrange(range.start as int, range.end as int));
        } else if number == 2 {
            flags = read_flags(data, range.start, range.end);
        } else if number == 3 {
            wrapped_key = slice_to_vec(slice_subrange(data, range.start, range.end));
        } else if number == 4 {
            iterations = Some(be_u64(data, range.start, range.end));
        } else if number == 5 {
            salt = slice_to_vec(slice_subrange(data, range.start, range.end));
        }
    }
    assert(done + Seq::<Tlv>::empty() =~= done);
    Ok(WrappedKeyBlob { uuid, flags, wrapped_key, iterations, salt })
}

/// Parses a keybag entry's DER-encoded key data into a [`WrappedKeyBlob`].
pub fn parse_wrapped_key_blob(data: &[u8]) -> (r: Result<WrappedKeyBlob, ApfsError>)
    ensures
        match r {
            Ok(blob) => blob_in(data@) == Ok::<WrappedKeyBlobView, ApfsError>(blob@),
            Err(error) => blob_in(data@) == Err::<WrappedKeyBlobView, ApfsError>(error),
        },
{
    let mut pos: usize = 0;
    proof {
        lemma_tlv_bounds(data@, 0);
    }
    let (tag, sequence) = der_read_tlv(data, &mut pos)?;
    if tag != 0x30 {
        return Err(ApfsError::Crypto("wrapped key blob is not a DER SEQUENCE"));
    }
    // Skip [0] hmac_0, [1] hmac_hash, [2] hmac_salt, stopping at the
    // constructed [3] element that holds the header and the actual key data.
    let inner = find_constructed(data, sequence.start, sequence.end)?;
    read_fields(data, inner.start, inner.end)
}

/// Looking for the constructed element fails with a decryption error.
proof fn lemma_constructed_error(data: Seq<u8>, pos: int, end: int)
    ensures
        constructed_from(data, pos, end) matches Err(error) ==> error is Crypto,
    decreases data.len() - pos,
{
    if pos < end {
        lemma_tlv_bounds(data, pos);
        if let Some(element) = tlv_at(data, pos) {
            lemma_constructed_error(data, element.end, end);
        }
    }
}

/// Whatever is wrong with a wrapped key blob is reported as a decryption
/// error.
pub proof fn law_malformed_blobs_report_crypto_errors(data: Seq<u8>)
    ensures
        blob_in(data) matches Err(error) ==> error is Crypto,
{
    if let Some(sequence) = tlv_at(data, 0) {
        lemma_constructed_error(data, sequence.start, sequence.end);
    }
}

/// An element that is written in the short form is read back: its tag, and
/// just its content.
pub proof fn law_short_elements_read_back(before: Seq<u8>, tag: u8, content: Seq<u8>, after: Seq<u8>)
    requires
        content.len() < 0x80,
    ensures
        ({
            let data = before + seq![tag, content.len() as u8] + content + after;
            let start = before.len() as int + 2;
            &&& tlv_at(data, before.len() as int) == Some(
                Tlv { tag, start, end: start + content.len() },
            )
            &&& data.subrange(start, start + content.len()) == content
        }),
{
    let data = before + seq![tag, content.len() as u8] + content + after;
    let start = before.len() as int + 2;
    assert(data[before.len() as int] == tag);
    assert(data[start - 1] == content.len() as u8);
    assert(data.subrange(start, start + content.len()) =~= content);
}

/// Big-endian digits: no digits are zero, and each digit more counts the ones
/// before it 256 times.
pub proof fn law_numbers_are_big_endian(bytes: Seq<u8>, last: u8)
    ensures
        be_nat(Seq::empty()) == 0,
        be_nat(bytes.push(last)) == 256 * be_nat(bytes) + last,
{
    assert(bytes.push(last).drop_last() =~= bytes);
}

/// An element that is written in the long form is read back: its tag, and just
/// its content. The first length byte counts those that follow it, which hold
/// the length in big-endian order.
pub proof fn law_long_elements_read_back(
    before: Seq<u8>,
    tag: u8,
    length: Seq<u8>,
    content: Seq<u8>,
    after: Seq<u8>,
)
    requires
        length.len() < 0x80,
        be_nat(length) == content.len(),
        content.len() <= usize::MAX,
    ensures
        ({
            let data = before + seq![tag, (0x80 + length.len()) as u8] + length + content + after;
            let start = before.len() as int + 2 + length.len();
            &&& tlv_at(data, before.len() as int) == Some(
                Tlv { tag, start, end: start + content.len() },
            )
            &&& data.subrange(start, start + content.len()) == content
        }),
{
    let data = before + seq![tag, (0x80 + length.len()) as u8] + length + content + after;
    let start = before.len() as int + 2 + length.len();
    assert(data[before.len() as int] == tag);
    assert(data[before.len() as int + 1] == (0x80 + length.len()) as u8);
    assert(data.subrange(before.len() as int + 2, start) =~= length);
    assert(data.subrange(start, start + content.len()) =~= content);
    vstd::arithmetic::div_mod::lemma_small_mod(content.len(), usize::MAX as nat + 1);
}

/// An element is read if and only if all of it is there: what follows it does
/// not matter, and without its last byte it is not read.
pub proof fn law_elements_are_read_whole(data: Seq<u8>, pos: int, cut: int, more: Seq<u8>)
    requires
        0 <= pos <= cut <= data.len(),
    ensures
        tlv_at(data, pos) matches Some(element) ==> {
            &&& tlv_at(data + more, pos) == Some(element)
            &&& cut < element.end ==> tlv_at(data.take(cut), pos) is None
            &&& cut >= element.end ==> tlv_at(data.take(cut), pos) == Some(element)
        },
{
    if let Some(element) = tlv_at(data, pos) {
        lemma_tlv_bounds(data, pos);
        let longer = data + more;
        let shorter = data.take(cut);
        assert(longer.subrange(pos + 2, element.start) =~= data.subrange(pos + 2, element.start));
        assert(longer[pos] == data[pos] && longer[pos + 1] == data[pos + 1]);
        if cut >= element.start {
            assert(shorter.subrange(pos + 2, element.start) =~= data.subrange(
                pos + 2,
                element.start,
            ));
        }
        if cut >= pos + 2 {
            assert(shorter[pos] == data[pos] && shorter[pos + 1] == data[pos + 1]);
        }
    }
}

/// An element in the long form with two length bytes.
pub open spec fn written_element(tag: u8, content: Seq<u8>) -> Seq<u8> {
    seq![tag, 0x82u8, (content.len() / 256) as u8, (content.len() % 256) as u8] + content
}

/// Elements one after the other, each given by its tag and its content.
pub open spec fn written_elements(fields: Seq<(u8, Seq<u8>)>) -> Seq<u8>
    decreases fields.len(),
{
    if fields.len() == 0 {
        Seq::empty()
    } else {
        written_element(fields[0].0, fields[0].1) + written_elements(fields.drop_first())
    }
}

/// A written element is read back.
proof fn lemma_written_element(before: Seq<u8>, tag: u8, content: Seq<u8>, after: Seq<u8>)
    requires
        content.len() < 0x1_0000,
    ensures
        ({
            let data = before + written_element(tag, content) + after;
            let start = before.len() as int + 4;
            &&& tlv_at(data, before.len() as int) == Some(
                Tlv { tag, start, end: start + content.len() },
            )
            &&& data.subrange(start, start + content.len()) == content
        }),
{
    let high = (content.len() / 256) as u8;
    let low = (content.len() % 256) as u8;
    let length = seq![high, low];
    reveal_with_fuel(be_nat, 3);
    assert(length.drop_last() =~= seq![high]);
    assert(length.drop_last().drop_last() =~= Seq::empty());
    assert(be_nat(length) == content.len());
    law_long_elements_read_back(before, tag, length, content, after);
    assert(before + written_element(tag, content) + after =~= before + seq![
        tag,
        (0x80 + length.len()) as u8,
    ] + length + content + after);
}

/// Written elements are read back: all of them, in order, each with its tag and
/// its content.
pub proof fn law_written_elements_read_back(
    before: Seq<u8>,
    fields: Seq<(u8, Seq<u8>)>,
    after: Seq<u8>,
)
    requires
        forall|i: int| 0 <= i < fields.len() ==> (#[trigger] fields[i]).1.len() < 0x1_0000,
    ensures
        ({
            let data = before + written_elements(fields) + after;
            match elements_from(
                data,
                before.len() as int,
                before.len() as int + written_elements(fields).len(),
            ) {
                Some(elements) => {
                    &&& elements.len() == fields.len()
                    &&& forall|i: int|
                        0 <= i < fields.len() ==> {
                            &&& (#[trigger] elements[i]).tag == fields[i].0
                            &&& data.subrange(elements[i].start, elements[i].end) == fields[i].1
                            &&& elements[i].end - elements[i].start == fields[i].1.len()
                        }
                },
                None => false,
            }
        }),
    decreases fields.len(),
{
    let data = before + written_elements(fields) + after;
    if fields.len() > 0 {
        let head = written_element(fields[0].0, fields[0].1);
        let tail = fields.drop_first();
        let rest = written_elements(tail);
        lemma_written_element(before, fields[0].0, fields[0].1, rest + after);
        assert(before + head + (rest + after) =~= data);
        assert forall|i: int| 0 <= i < tail.len() implies (#[trigger] tail[i]).1.len()
            < 0x1_0000 by {
            assert(tail[i] == fields[i + 1]);
        }
        law_written_elements_read_back(before + head, tail, after);
        assert(before + head + rest + after =~= data);
        let first = tlv_at(data, before.len() as int)->0;
        let others = elements_from(
            data,
            (before + head).len() as int,
            (before + head).len() as int + rest.len(),
        )->0;
        let elements = seq![first] + others;
        assert forall|i: int| 0 <= i < fields.len() implies {
            &&& (#[trigger] elements[i]).tag == fields[i].0
            &&& data.subrange(elements[i].start, elements[i].end) == fields[i].1
            &&& elements[i].end - elements[i].start == fields[i].1.len()
        } by {
            if i > 0 {
                assert(elements[i] == others[i - 1]);
                assert(tail[i - 1] == fields[i]);
            }
        }
    }
}

/// The constructed element is found behind any others.
proof fn lemma_constructed_is_found(
    before: Seq<u8>,
    headers: Seq<(u8, Seq<u8>)>,
    content: Seq<u8>,
    after: Seq<u8>,
    end: int,
)
    requires
        forall|i: int|
            0 <= i < headers.len() ==> (#[trigger] headers[i]).0 != 0xA3 && headers[i].1.len()
                < 0x1_0000,
        content.len() < 0x1_0000,
        end >= before.len() + written_elements(headers).len() + 4 + content.len(),
    ensures
        ({
            let data = before + written_elements(headers) + written_element(0xA3, content) + after;
            let start = before.len() as int + written_elements(headers).len() + 4;
            &&& constructed_from(data, before.len() as int, end) == Ok::<Tlv, ApfsError>(
                Tlv { tag: 0xA3, start, end: start + content.len() },
            )
            &&& data.subrange(start, start + content.len()) == content
        }),
    decreases headers.len(),
{
    let inner = written_element(0xA3, content);
    let data = before + written_elements(headers) + inner + after;
    if headers.len() == 0 {
        lemma_written_element(before, 0xA3, content, after);
        assert(before + inner + after =~= data);
    } else {
        let head = written_element(headers[0].0, headers[0].1);
        let tail = headers.drop_first();
        let rest = written_elements(tail);
        lemma_written_element(before, headers[0].0, headers[0].1, rest + inner + after);
        assert(before + head + (rest + inner + after) =~= data);
        assert forall|i: int| 0 <= i < tail.len() implies (#[trigger] tail[i]).0 != 0xA3
            && tail[i].1.len() < 0x1_0000 by {
            assert(tail[i] == headers[i + 1]);
        }
        lemma_constructed_is_found(before + head, tail, content, after, end);
        assert(before + head + rest + inner + after =~= data);
    }
}

/// A written blob is read back: whatever elements stand before the constructed
/// `[3]` element and behind it, the blob is made of those inside it.
pub proof fn law_written_blobs_read_back(
    headers: Seq<(u8, Seq<u8>)>,
    fields: Seq<(u8, Seq<u8>)>,
    after: Seq<u8>,
)
    requires
        forall|i: int|
            0 <= i < headers.len() ==> (#[trigger] headers[i]).0 != 0xA3 && headers[i].1.len()
                < 0x1_0000,
        forall|i: int| 0 <= i < fields.len() ==> (#[trigger] fields[i]).1.len() < 0x1_0000,
        written_elements(headers).len() + 4 + written_elements(fields).len() + after.len()
            < 0x1_0000,
    ensures
        ({
            let data = written_element(
                0x30,
                written_elements(headers) + written_element(0xA3, written_elements(fields))
                    + after,
            );
            exists|elements: Seq<Tlv>|
                {
                    &&& blob_in(data) == Ok::<WrappedKeyBlobView, ApfsError>(
                        #[trigger] blob_of(data, elements),
                    )
                    &&& elements.len() == fields.len()
                    &&& forall|i: int|
                        0 <= i < fields.len() ==> {
                            &&& (#[trigger] elements[i]).tag == fields[i].0
                            &&& data.subrange(elements[i].start, elements[i].end) == fields[i].1
                            &&& elements[i].end - elements[i].start == fields[i].1.len()
                        }
                }
        }),
{
    let inner = written_elements(fields);
    let content = written_elements(headers) + written_element(0xA3, inner) + after;
    let data = written_element(0x30, content);
    let none = Seq::<u8>::empty();
    lemma_written_element(none, 0x30, content, none);
    assert(none + data + none =~= data);
    let opening = data.take(4);
    lemma_constructed_is_found(opening, headers, inner, after, 4int + content.len());
    assert(opening + written_elements(headers) + written_element(0xA3, inner) + after =~= data);
    let start = 4int + written_elements(headers).len() + 4;
    law_written_elements_read_back(data.take(start), fields, after);
    assert(data.take(start) + inner + after =~= data);
    let elements = elements_from(data, start, start + inner.len())->0;
    assert(blob_in(data) == Ok::<WrappedKeyBlobView, ApfsError>(blob_of(data, elements)));
}

/// A blob that is not a SEQUENCE, or has no constructed `[3]` element, holds no
/// key.
pub proof fn law_other_structures_are_refused(
    tag: u8,
    headers: Seq<(u8, Seq<u8>)>,
    content: Seq<u8>,
    after: Seq<u8>,
)
    requires
        content.len() < 0x1_0000,
        written_elements(headers).len() < 0x1_0000,
        forall|i: int|
            0 <= i < headers.len() ==> (#[trigger] headers[i]).0 != 0xA3 && headers[i].1.len()
                < 0x1_0000,
    ensures
        tag != 0x30 ==> blob_in(written_element(tag, content) + after) == Err::<
            WrappedKeyBlobView,
            ApfsError,
        >(ApfsError::Crypto("wrapped key blob is not a DER SEQUENCE")),
        blob_in(written_element(0x30, written_elements(headers)) + after) == Err::<
            WrappedKeyBlobView,
            ApfsError,
        >(ApfsError::Crypto("wrapped key blob is missing its constructed [3] element")),
{
    let none = Seq::<u8>::empty();
    lemma_written_element(none, tag, content, after);
    assert(none + written_element(tag, content) + after =~= written_element(tag, content) + after);
    let inner = written_elements(headers);
    let data = written_element(0x30, inner) + after;
    lemma_written_element(none, 0x30, inner, after);
    assert(none + written_element(0x30, inner) + after =~= data);
    lemma_nothing_constructed(data.take(4), headers, after);
    assert(data.take(4) + inner + after =~= data);
}

/// No constructed element is found where none was written.
proof fn lemma_nothing_constructed(
    before: Seq<u8>,
    headers: Seq<(u8, Seq<u8>)>,
    after: Seq<u8>,
)
    requires
        forall|i: int|
            0 <= i < headers.len() ==> (#[trigger] headers[i]).0 != 0xA3 && headers[i].1.len()
                < 0x1_0000,
    ensures
        constructed_from(
            before + written_elements(headers) + after,
            before.len() as int,
            before.len() as int + written_elements(headers).len(),
        ) == Err::<Tlv, ApfsError>(
            ApfsError::Crypto("wrapped key blob is missing its constructed [3] element"),
        ),
    decreases headers.len(),
{
    let data = before + written_elements(headers) + after;
    if headers.len() > 0 {
        let head = written_element(headers[0].0, headers[0].1);
        let tail = headers.drop_first();
        let rest = written_elements(tail);
        lemma_written_element(before, headers[0].0, headers[0].1, rest + after);
        assert(before + head + (rest + after) =~= data);
        assert forall|i: int| 0 <= i < tail.len() implies (#[trigger] tail[i]).0 != 0xA3
            && tail[i].1.len() < 0x1_0000 by {
            assert(tail[i] == headers[i + 1]);
        }
        lemma_nothing_constructed(before + head, tail, after);
        assert(before + head + rest + after =~= data);
    }
}

/// The last element that carries a field stands at `at`, or nowhere when `at`
/// is -1.
proof fn lemma_last_field(elements: Seq<Tlv>, number: int, at: int)
    requires
        -1 <= at < elements.len(),
        at >= 0 ==> carries(elements[at], number),
        forall|j: int| at < j < elements.len() ==> !carries(#[trigger] elements[j], number),
    ensures
        last_field(elements, number) == (if at >= 0 {
            Some(elements[at])
        } else {
            None
        }),
    decreases elements.len(),
{
    if elements.len() > 0 && at < elements.len() - 1 {
        let before = elements.drop_last();
        assert(!carries(elements[elements.len() - 1], number));
        assert forall|j: int| at < j < before.len() implies !carries(
            #[trigger] before[j],
            number,
        ) by {
            assert(before[j] == elements[j]);
        }
        lemma_last_field(before, number, at);
    }
}

/// The flags are the first four bytes in big-endian order, with zeros for those
/// that are not there.
pub proof fn law_flags_are_four_bytes(content: Seq<u8>)
    ensures
        content.len() == 0 ==> flags_in(content) == 0,
        content.len() == 1 ==> flags_in(content) == content[0] * 0x100_0000,
        content.len() == 2 ==> flags_in(content) == content[0] * 0x100_0000 + content[1]
            * 0x1_0000,
        content.len() == 3 ==> flags_in(content) == content[0] * 0x100_0000 + content[1]
            * 0x1_0000 + content[2] * 0x100,
        content.len() >= 4 ==> flags_in(content) == content[0] * 0x100_0000 + content[1]
            * 0x1_0000 + content[2] * 0x100 + content[3],
{
    let padded = Seq::new(
        4,
        |i: int|
            if i < content.len() {
                content[i]
            } else {
                0u8
            },
    );
    reveal_with_fuel(be_nat, 5);
    assert(padded =~= seq![padded[0], padded[1], padded[2], padded[3]]);
    assert(be_nat(padded) == padded[0] * 0x100_0000 + padded[1] * 0x1_0000 + padded[2] * 0x100
        + padded[3]);
}

/// Whether the element at `k` is the last one that is wanted.
pub open spec fn is_last(elements: Seq<Tlv>, wanted: spec_fn(Tlv) -> bool, k: int) -> bool {
    &&& 0 <= k < elements.len()
    &&& wanted(elements[k])
    &&& forall|j: int| k < j < elements.len() ==> !wanted(#[trigger] elements[j])
}

/// Whether no element is wanted.
pub open spec fn is_absent(elements: Seq<Tlv>, wanted: spec_fn(Tlv) -> bool) -> bool {
    forall|j: int| 0 <= j < elements.len() ==> !wanted(#[trigger] elements[j])
}

/// What the fields of a blob are: the last element with the field's number in
/// its low five bits counts, the identifier's only when it has sixteen bytes,
/// and a field that no element carries has its default.
pub proof fn law_last_element_of_each_number_counts(data: Seq<u8>, elements: Seq<Tlv>, k: int)
    ensures
        ({
            let blob = blob_of(data, elements);
            let content = data.subrange(elements[k].start, elements[k].end);
            let uuid = |e: Tlv| e.tag % 32 == 1 && e.end - e.start == 16;
            let flags = |e: Tlv| e.tag % 32 == 2;
            let wrapped_key = |e: Tlv| e.tag % 32 == 3;
            let iterations = |e: Tlv| e.tag % 32 == 4;
            let salt = |e: Tlv| e.tag % 32 == 5;
            &&& is_last(elements, uuid, k) ==> blob.uuid == content
            &&& is_absent(elements, uuid) ==> blob.uuid == Seq::new(16, |i: int| 0u8)
            &&& is_last(elements, flags, k) ==> blob.flags == flags_in(content)
            &&& is_absent(elements, flags) ==> blob.flags == 0
            &&& is_last(elements, wrapped_key, k) ==> blob.wrapped_key == content
            &&& is_absent(elements, wrapped_key) ==> blob.wrapped_key == Seq::<u8>::empty()
            &&& is_last(elements, iterations, k) ==> blob.iterations == Some(
                (be_nat(content) % 0x1_0000_0000_0000_0000) as u64,
            )
            &&& is_absent(elements, iterations) ==> blob.iterations is None
            &&& is_last(elements, salt, k) ==> blob.salt == content
            &&& is_absent(elements, salt) ==> blob.salt == Seq::<u8>::empty()
        }),
{
    lemma_field(elements, |e: Tlv| e.tag % 32 == 1 && e.end - e.start == 16, 1, k);
    lemma_field(elements, |e: Tlv| e.tag % 32 == 2, 2, k);
    lemma_field(elements, |e: Tlv| e.tag % 32 == 3, 3, k);
    lemma_field(elements, |e: Tlv| e.tag % 32 == 4, 4, k);
    lemma_field(elements, |e: Tlv| e.tag % 32 == 5, 5, k);
}

/// The last element that carries a field, by what it is told apart by.
proof fn lemma_field(elements: Seq<Tlv>, wanted: spec_fn(Tlv) -> bool, number: int, k: int)
    requires
        forall|e: Tlv| #[trigger] wanted(e) == carries(e, number),
    ensures
        is_last(elements, wanted, k) ==> last_field(elements, number) == Some(elements[k]),
        is_absent(elements, wanted) ==> last_field(elements, number) is None,
{
    assert forall|j: int| 0 <= j < elements.len() implies carries(#[trigger] elements[j], number)
        == wanted(elements[j]) by {}
    if is_last(elements, wanted, k) {
        lemma_last_field(elements, number, k);
    }
    if is_absent(elements, wanted) {
        lemma_last_field(elements, number, -1);
    }
}

/// How far a truncated element is read: up to the end of what is there of its
/// tag and first length byte, and past the other length bytes only when they
/// are all there.
pub proof fn law_where_reading_a_truncated_element_stops(data: Seq<u8>, pos: int)
    requires
        0 <= pos,
        tlv_at(data, pos) is None,
    ensures
        pos >= data.len() ==> tlv_stop(data, pos) == pos,
        pos + 1 == data.len() ==> tlv_stop(data, pos) == data.len(),
        pos + 2 <= data.len() && data[pos + 1] < 0x80 ==> tlv_stop(data, pos) == pos + 2,
        pos + 2 <= data.len() && data[pos + 1] >= 0x80 ==> tlv_stop(data, pos) == (if pos + 2
            + data[pos + 1] - 0x80 <= data.len() {
            pos + 2 + data[pos + 1] - 0x80
        } else {
            pos + 2
        }),
{
}

/// A decoded blob is shown as it is: field by field.
pub proof fn law_blobs_are_shown_whole(blob: WrappedKeyBlob)
    ensures
        blob@.uuid == blob.uuid@,
        blob@.flags == blob.flags,
        blob@.wrapped_key == blob.wrapped_key@,
        blob@.iterations == blob.iterations,
        blob@.salt == blob.salt@,
{
}

} // verus!
