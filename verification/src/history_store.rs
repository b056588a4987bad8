//! The versioned binary codec of the history index.
//!
//! Layout, all integers little-endian: the magic `PINHIST\0`, the schema version (`u16`), two
//! reserved zero bytes, the entry count (`u32`), the payload length (`u32`), the CRC-32 of the
//! payload (`u32`), then the payload: one record per entry.

use crate::geometry::{PixelPoint, PixelRect, PixelSize};
use crate::history::{
    valid_entry, HistoryEntry, HistoryEntryState, HistoryEntryView, HistoryOcrState,
    HISTORY_MAX_DISPLAY_BYTES, HISTORY_MAX_ENTRIES, HISTORY_MAX_FILE_NAME_BYTES,
};
use crate::model::{AssetGeneration, ImageId};
use vstd::bytes::{
    spec_u16_from_le_bytes, spec_u16_to_le_bytes, spec_u32_from_le_bytes, spec_u32_to_le_bytes,
    spec_u64_from_le_bytes, spec_u64_to_le_bytes, u16_from_le_bytes, u16_to_le_bytes,
    u32_from_le_bytes, u32_to_le_bytes, u64_from_le_bytes, u64_to_le_bytes,
};
use vstd::prelude::*;
use vstd::utf8::{decode_utf8, encode_utf8, valid_utf8};

verus! {

/// Schema version written into, and required of, every index.
pub const HISTORY_SCHEMA_VERSION: u16 = 1;

/// Length of the fixed header.
pub const HEADER_LEN: usize = 24;

/// Length of a record before its two strings.
pub const RECORD_PREFIX_LEN: usize = 86;

/// Upper bound on the size of an index file.
pub const MAX_INDEX_BYTES: usize = 4 * 1024 * 1024;

// ---------------------------------------------------------------------------------------
// CRC-32 (IEEE 802.3, reflected polynomial 0xEDB88320, initial and final inversion)

/// One bit step of the reflected CRC-32 register.
pub open spec fn crc_bit(crc: u32) -> u32 {
    if crc & 1 == 1 {
        (crc >> 1) ^ 0xedb8_8320
    } else {
        crc >> 1
    }
}

/// The register after absorbing one byte.
pub open spec fn crc_byte(crc: u32, byte: u8) -> u32 {
    let c = crc ^ (byte as u32);
    crc_bit(crc_bit(crc_bit(crc_bit(crc_bit(crc_bit(crc_bit(crc_bit(c))))))))
}

/// The register after absorbing `bytes`, starting from all ones.
pub open spec fn crc_register(bytes: Seq<u8>) -> u32
    decreases bytes.len(),
{
    if bytes.len() == 0 {
        0xffff_ffff
    } else {
        crc_byte(crc_register(bytes.drop_last()), bytes.last())
    }
}

/// The CRC-32 checksum of `bytes`.
pub open spec fn crc32_of(bytes: Seq<u8>) -> u32 {
    !crc_register(bytes)
}

pub fn crc32(bytes: &[u8]) -> (c: u32)
    ensures
        c == crc32_of(bytes@),
{
    let mut crc: u32 = 0xffff_ffff;
    let mut i: usize = 0;
    while i < bytes.len()
        invariant
            i <= bytes@.len(),
            crc == crc_register(bytes@.subrange(0, i as int)),
        decreases bytes@.len() - i,
    {
        let ghost before = crc;
        crc = crc ^ (bytes[i] as u32);
        let mut bit: usize = 0;
        while bit < 8
            invariant
                bit <= 8,
                i < bytes@.len(),
                crc == crc_bits(before ^ (bytes@[i as int] as u32), bit as nat),
            decreases 8 - bit,
        {
            if crc & 1 == 1 {
                crc = (crc >> 1) ^ 0xedb8_8320;
            } else {
                crc = crc >> 1;
            }
            bit += 1;
        }
        assert(bytes@.subrange(0, i + 1).drop_last() =~= bytes@.subrange(0, i as int));
        assert(crc_bits(before ^ (bytes@[i as int] as u32), 8) == crc_byte(before, bytes@[i as int]))
            by {
            reveal_with_fuel(crc_bits, 9);
        }
        i += 1;
    }
    assert(bytes@.subrange(0, bytes@.len() as int) =~= bytes@);
    !crc
}

/// `crc_bit` applied `n` times.
pub open spec fn crc_bits(c: u32, n: nat) -> u32
    decreases n,
{
    if n == 0 {
        c
    } else {
        crc_bit(crc_bits(c, (n - 1) as nat))
    }
}

// ---------------------------------------------------------------------------------------
// Reading fields in order

/// A cursor over a byte slice.
pub struct Reader<'a> {
    pub bytes: &'a [u8],
    pub offset: usize,
}

impl<'a> Reader<'a> {
    pub open spec fn wf(&self) -> bool {
        self.offset <= self.bytes@.len()
    }

    /// The bytes not read yet.
    pub open spec fn rest(&self) -> Seq<u8> {
        self.bytes@.subrange(self.offset as int, self.bytes@.len() as int)
    }

    pub fn new(bytes: &'a [u8]) -> (r: Reader<'a>)
        ensures
            r.wf(),
            r.bytes@ == bytes@,
            r.offset == 0,
    {
        Reader { bytes, offset: 0 }
    }

    pub fn remaining(&self) -> (n: usize)
        requires
            self.wf(),
        ensures
            n == self.bytes@.len() - self.offset,
    {
        self.bytes.len() - self.offset
    }

    /// The next `len` bytes; an error, and no move, when fewer are left.
    pub fn take(&mut self, len: usize) -> (res: Result<&'a [u8], String>)
        requires
            old(self).wf(),
        ensures
            final(self).wf(),
            final(self).bytes == old(self).bytes,
            res is Ok <==> old(self).offset + len <= old(self).bytes@.len(),
            res is Ok ==> res->Ok_0@ == old(self).bytes@.subrange(
                old(self).offset as int,
                old(self).offset + len,
            ) && final(self).offset == old(self).offset + len,
            res is Err ==> final(self).offset == old(self).offset,
    {
        if len > self.bytes.len() - self.offset {
            return Err("history record is truncated".to_string());
        }
        let end = self.offset + len;
        let all: &'a [u8] = self.bytes;
        let taken: &'a [u8] = &all[self.offset..end];
        self.offset = end;
        Ok(taken)
    }

    pub fn bytes(&mut self, len: usize) -> (res: Result<&'a [u8], String>)
        requires
            old(self).wf(),
        ensures
            final(self).wf(),
            final(self).bytes == old(self).bytes,
            res is Ok <==> old(self).offset + len <= old(self).bytes@.len(),
            res is Ok ==> res->Ok_0@ == old(self).bytes@.subrange(
                old(self).offset as int,
                old(self).offset + len,
            ) && final(self).offset == old(self).offset + len,
            res is Err ==> final(self).offset == old(self).offset,
    {
        self.take(len)
    }

    pub fn u8(&mut self) -> (res: Result<u8, String>)
        requires
            old(self).wf(),
        ensures
            final(self).wf(),
            final(self).bytes == old(self).bytes,
            res is Ok <==> old(self).offset + 1 <= old(self).bytes@.len(),
            res is Ok ==> res->Ok_0 == old(self).bytes@[old(self).offset as int]
                && final(self).offset == old(self).offset + 1,
    {
        let b = self.take(1)?;
        Ok(b[0])
    }

    pub fn u16(&mut self) -> (res: Result<u16, String>)
        requires
            old(self).wf(),
        ensures
            final(self).wf(),
            final(self).bytes == old(self).bytes,
            res is Ok <==> old(self).offset + 2 <= old(self).bytes@.len(),
            res is Ok ==> res->Ok_0 == spec_u16_from_le_bytes(
                old(self).bytes@.subrange(old(self).offset as int, old(self).offset + 2),
            ) && final(self).offset == old(self).offset + 2,
    {
        let b = self.take(2)?;
        Ok(u16_from_le_bytes(b))
    }

    pub fn u32(&mut self) -> (res: Result<u32, String>)
        requires
            old(self).wf(),
        ensures
            final(self).wf(),
            final(self).bytes == old(self).bytes,
            res is Ok <==> old(self).offset + 4 <= old(self).bytes@.len(),
            res is Ok ==> res->Ok_0 == spec_u32_from_le_bytes(
                old(self).bytes@.subrange(old(self).offset as int, old(self).offset + 4),
            ) && final(self).offset == old(self).offset + 4,
    {
        let b = self.take(4)?;
        Ok(u32_from_le_bytes(b))
    }

    pub fn u64(&mut self) -> (res: Result<u64, String>)
        requires
            old(self).wf(),
        ensures
            final(self).wf(),
            final(self).bytes == old(self).bytes,
            res is Ok <==> old(self).offset + 8 <= old(self).bytes@.len(),
            res is Ok ==> res->Ok_0 == spec_u64_from_le_bytes(
                old(self).bytes@.subrange(old(self).offset as int, old(self).offset + 8),
            ) && final(self).offset == old(self).offset + 8,
    {
        let b = self.take(8)?;
        Ok(u64_from_le_bytes(b))
    }

    /// A two's-complement `i32`.
    pub fn i32(&mut self) -> (res: Result<i32, String>)
        requires
            old(self).wf(),
        ensures
            final(self).wf(),
            final(self).bytes == old(self).bytes,
            res is Ok <==> old(self).offset + 4 <= old(self).bytes@.len(),
            res is Ok ==> res->Ok_0 == spec_u32_from_le_bytes(
                old(self).bytes@.subrange(old(self).offset as int, old(self).offset + 4),
            ) as i32 && final(self).offset == old(self).offset + 4,
    {
        let b = self.take(4)?;
        Ok(u32_from_le_bytes(b) as i32)
    }
}

// ---------------------------------------------------------------------------------------
// The layout

pub open spec fn le16(x: u16) -> Seq<u8> {
    spec_u16_to_le_bytes(x)
}

pub open spec fn le32(x: u32) -> Seq<u8> {
    spec_u32_to_le_bytes(x)
}

pub open spec fn le64(x: u64) -> Seq<u8> {
    spec_u64_to_le_bytes(x)
}

/// `PINHIST\0`.
pub open spec fn magic() -> Seq<u8> {
    seq![0x50u8, 0x49u8, 0x4eu8, 0x48u8, 0x49u8, 0x53u8, 0x54u8, 0x00u8]
}

/// The record of one entry.
pub open spec fn entry_bytes(e: HistoryEntryView) -> Seq<u8> {
    let display = encode_utf8(e.display);
    let name = encode_utf8(e.file_name);
    seq![e.state.wire()] + le64(e.image_id) + le64(e.generation) + le64(e.created_at_ms) + le16(
        display.len() as u16,
    ) + le16(name.len() as u16) + le32(e.source_rect.origin.x as u32) + le32(
        e.source_rect.origin.y as u32,
    ) + le32(e.source_rect.size.width) + le32(e.source_rect.size.height) + le64(e.byte_len)
        + seq![e.ocr.wire()] + e.digest + display + name
}

/// The records of `es`, in order.
pub open spec fn payload_bytes(es: Seq<HistoryEntryView>) -> Seq<u8>
    decreases es.len(),
{
    if es.len() == 0 {
        Seq::empty()
    } else {
        payload_bytes(es.drop_last()) + entry_bytes(es.last())
    }
}

/// The whole index file of `es`.
pub open spec fn index_bytes(es: Seq<HistoryEntryView>) -> Seq<u8> {
    let p = payload_bytes(es);
    magic() + le16(HISTORY_SCHEMA_VERSION) + le16(0) + le32(es.len() as u32) + le32(
        p.len() as u32,
    ) + le32(crc32_of(p)) + p
}

/// The plain values of a list of entries.
pub open spec fn entry_views(entries: Seq<HistoryEntry>) -> Seq<HistoryEntryView> {
    entries.map_values(|e: HistoryEntry| e@)
}

/// Entries that `encode` accepts: within the count limit, each valid, and a file within the
/// size limit.
pub open spec fn encodable(es: Seq<HistoryEntryView>) -> bool {
    &&& es.len() <= HISTORY_MAX_ENTRIES
    &&& forall|i: int| 0 <= i < es.len() ==> valid_entry(#[trigger] es[i])
    &&& HEADER_LEN + payload_bytes(es).len() <= MAX_INDEX_BYTES
}

/// The length of a record.
pub proof fn lemma_entry_len(e: HistoryEntryView)
    requires
        e.digest.len() == 32,
    ensures
        entry_bytes(e).len() == RECORD_PREFIX_LEN + encode_utf8(e.display).len() + encode_utf8(
            e.file_name,
        ).len(),
{
    vstd::bytes::lemma_auto_spec_u16_to_from_le_bytes();
    vstd::bytes::lemma_auto_spec_u32_to_from_le_bytes();
    vstd::bytes::lemma_auto_spec_u64_to_from_le_bytes();
}

fn push_all(out: &mut Vec<u8>, bytes: &[u8])
    ensures
        final(out)@ == old(out)@ + bytes@,
{
    let ghost start = out@;
    let mut i: usize = 0;
    while i < bytes.len()
        invariant
            i <= bytes@.len(),
            out@ == start + bytes@.subrange(0, i as int),
        decreases bytes@.len() - i,
    {
        out.push(bytes[i]);
        assert(out@ =~= start + bytes@.subrange(0, i + 1));
        i += 1;
    }
    assert(bytes@.subrange(0, bytes@.len() as int) =~= bytes@);
}

fn push_le16(out: &mut Vec<u8>, x: u16)
    ensures
        final(out)@ == old(out)@ + le16(x),
{
    let mut v = u16_to_le_bytes(x);
    out.append(&mut v);
}

fn push_le32(out: &mut Vec<u8>, x: u32)
    ensures
        final(out)@ == old(out)@ + le32(x),
{
    let mut v = u32_to_le_bytes(x);
    out.append(&mut v);
}

fn push_le64(out: &mut Vec<u8>, x: u64)
    ensures
        final(out)@ == old(out)@ + le64(x),
{
    let mut v = u64_to_le_bytes(x);
    out.append(&mut v);
}

fn push_entry(out: &mut Vec<u8>, e: &HistoryEntry)
    requires
        valid_entry(e@),
    ensures
        final(out)@ == old(out)@ + entry_bytes(e@),
{
    let ghost start = out@;
    let display = e.display.as_str().as_bytes();
    let name = e.file_name.as_str().as_bytes();
    out.push(e.state.to_wire());
    push_le64(out, e.image_id.raw);
    push_le64(out, e.generation.raw);
    push_le64(out, e.created_at_ms);
    push_le16(out, display.len() as u16);
    push_le16(out, name.len() as u16);
    push_le32(out, e.source_rect.origin.x as u32);
    push_le32(out, e.source_rect.origin.y as u32);
    push_le32(out, e.source_rect.size.width);
    push_le32(out, e.source_rect.size.height);
    push_le64(out, e.byte_len);
    out.push(e.ocr.to_wire());
    push_all(out, &e.digest);
    push_all(out, display);
    push_all(out, name);
    assert(out@ =~= start + entry_bytes(e@));
}

fn push_magic(out: &mut Vec<u8>)
    ensures
        final(out)@ == old(out)@ + magic(),
{
    let ghost start = out@;
    out.push(0x50);
    out.push(0x49);
    out.push(0x4e);
    out.push(0x48);
    out.push(0x49);
    out.push(0x53);
    out.push(0x54);
    out.push(0x00);
    assert(out@ =~= start + magic());
}

/// The index file of `entries`. Refused when there are too many entries, when one breaks the
/// entry limits, or when the file would exceed `MAX_INDEX_BYTES`.
pub fn encode(entries: &Vec<HistoryEntry>) -> (res: Result<Vec<u8>, String>)
    ensures
        res is Ok <==> encodable(entry_views(entries@)),
        res is Ok ==> res->Ok_0@ == index_bytes(entry_views(entries@)),
{
    let ghost views = entry_views(entries@);
    if entries.len() > HISTORY_MAX_ENTRIES {
        return Err("history entry count exceeds limit".to_string());
    }
    let mut payload: Vec<u8> = Vec::new();
    let mut i: usize = 0;
    while i < entries.len()
        invariant
            i <= entries@.len(),
            entries@.len() <= HISTORY_MAX_ENTRIES,
            views == entry_views(entries@),
            payload@ == payload_bytes(views.take(i as int)),
            payload@.len() <= 600 * i,
            forall|k: int| 0 <= k < i ==> valid_entry(#[trigger] views[k]),
        decreases entries@.len() - i,
    {
        let entry = &entries[i];
        if entry.validate().is_err() {
            assert(!valid_entry(views[i as int]));
            return Err("history entry is invalid".to_string());
        }
        let ghost before = payload@;
        push_entry(&mut payload, entry);
        proof {
            assert(views.take(i + 1).drop_last() =~= views.take(i as int));
            lemma_entry_len(entry@);
        }
        i += 1;
    }
    proof {
        assert(views.take(entries@.len() as int) =~= views);
    }
    if HEADER_LEN + payload.len() > MAX_INDEX_BYTES {
        return Err("history index exceeds size limit".to_string());
    }
    let mut bytes: Vec<u8> = Vec::new();
    push_magic(&mut bytes);
    push_le16(&mut bytes, HISTORY_SCHEMA_VERSION);
    push_le16(&mut bytes, 0);
    push_le32(&mut bytes, entries.len() as u32);
    push_le32(&mut bytes, payload.len() as u32);
    push_le32(&mut bytes, crc32(payload.as_slice()));
    let ghost header = bytes@;
    let mut rest = payload;
    bytes.append(&mut rest);
    Ok(bytes)
}

// ---------------------------------------------------------------------------------------
// Reading records back

/// Where each field of a record lies.
pub proof fn lemma_entry_fields(e: HistoryEntryView)
    requires
        e.digest.len() == 32,
    ensures
        ({
            let b = entry_bytes(e);
            let dl = encode_utf8(e.display).len() as int;
            let nl = encode_utf8(e.file_name).len() as int;
            &&& b.len() == 86 + dl + nl
            &&& b[0] == e.state.wire()
            &&& b.subrange(1, 9) == le64(e.image_id)
            &&& b.subrange(9, 17) == le64(e.generation)
            &&& b.subrange(17, 25) == le64(e.created_at_ms)
            &&& b.subrange(25, 27) == le16(dl as u16)
            &&& b.subrange(27, 29) == le16(nl as u16)
            &&& b.subrange(29, 33) == le32(e.source_rect.origin.x as u32)
            &&& b.subrange(33, 37) == le32(e.source_rect.origin.y as u32)
            &&& b.subrange(37, 41) == le32(e.source_rect.size.width)
            &&& b.subrange(41, 45) == le32(e.source_rect.size.height)
            &&& b.subrange(45, 53) == le64(e.byte_len)
            &&& b[53] == e.ocr.wire()
            &&& b.subrange(54, 86) == e.digest
            &&& b.subrange(86, 86 + dl) == encode_utf8(e.display)
            &&& b.subrange(86 + dl, 86 + dl + nl) == encode_utf8(e.file_name)
        }),
{
    vstd::bytes::lemma_auto_spec_u16_to_from_le_bytes();
    vstd::bytes::lemma_auto_spec_u32_to_from_le_bytes();
    vstd::bytes::lemma_auto_spec_u64_to_from_le_bytes();
    let b = entry_bytes(e);
    let dl = encode_utf8(e.display).len() as int;
    let nl = encode_utf8(e.file_name).len() as int;
    assert(b.subrange(1, 9) =~= le64(e.image_id));
    assert(b.subrange(9, 17) =~= le64(e.generation));
    assert(b.subrange(17, 25) =~= le64(e.created_at_ms));
    assert(b.subrange(25, 27) =~= le16(dl as u16));
    assert(b.subrange(27, 29) =~= le16(nl as u16));
    assert(b.subrange(29, 33) =~= le32(e.source_rect.origin.x as u32));
    assert(b.subrange(33, 37) =~= le32(e.source_rect.origin.y as u32));
    assert(b.subrange(37, 41) =~= le32(e.source_rect.size.width));
    assert(b.subrange(41, 45) =~= le32(e.source_rect.size.height));
    assert(b.subrange(45, 53) =~= le64(e.byte_len));
    assert(b.subrange(54, 86) =~= e.digest);
    assert(b.subrange(86, 86 + dl) =~= encode_utf8(e.display));
    assert(b.subrange(86 + dl, 86 + dl + nl) =~= encode_utf8(e.file_name));
}

/// `p` is a prefix of `s`.
pub open spec fn starts_with(s: Seq<u8>, p: Seq<u8>) -> bool {
    p.len() <= s.len() && s.subrange(0, p.len() as int) == p
}

proof fn lemma_prefix_part(s: Seq<u8>, p: Seq<u8>, a: int, b: int)
    requires
        starts_with(s, p),
        0 <= a <= b <= p.len(),
    ensures
        s.subrange(a, b) == p.subrange(a, b),
{
    assert(s.subrange(a, b) =~= p.subrange(a, b)) by {
        assert forall|i: int| 0 <= i < b - a implies s.subrange(a, b)[i] == p.subrange(a, b)[i] by {
            assert(s.subrange(0, p.len() as int)[a + i] == p[a + i]);
        }
    }
}

proof fn lemma_i32_bits(x: i32)
    by (bit_vector)
    ensures
        ((x as u32) as i32) == x,
{
}

proof fn lemma_u32_bits(x: u32)
    by (bit_vector)
    ensures
        ((x as i32) as u32) == x,
{
}

/// A byte string starts with the record of at most one valid entry.
pub proof fn lemma_entry_prefix_unique(s: Seq<u8>, x1: HistoryEntryView, x2: HistoryEntryView)
    requires
        valid_entry(x1),
        valid_entry(x2),
        starts_with(s, entry_bytes(x1)),
        starts_with(s, entry_bytes(x2)),
    ensures
        x1 == x2,
{
    vstd::bytes::lemma_auto_spec_u16_to_from_le_bytes();
    vstd::bytes::lemma_auto_spec_u32_to_from_le_bytes();
    vstd::bytes::lemma_auto_spec_u64_to_from_le_bytes();
    broadcast use vstd::utf8::encode_utf8_decode_utf8;

    lemma_entry_fields(x1);
    lemma_entry_fields(x2);
    let b1 = entry_bytes(x1);
    let b2 = entry_bytes(x2);
    let d1 = encode_utf8(x1.display).len() as int;
    let d2 = encode_utf8(x2.display).len() as int;
    let n1 = encode_utf8(x1.file_name).len() as int;
    let n2 = encode_utf8(x2.file_name).len() as int;
    assert(s[0] == b1[0] && s[0] == b2[0]) by {
        assert(s.subrange(0, b1.len() as int)[0] == b1[0]);
        assert(s.subrange(0, b2.len() as int)[0] == b2[0]);
    }
    assert(s[53] == b1[53] && s[53] == b2[53]) by {
        assert(s.subrange(0, b1.len() as int)[53] == b1[53]);
        assert(s.subrange(0, b2.len() as int)[53] == b2[53]);
    }
    lemma_prefix_part(s, b1, 1, 9);
    lemma_prefix_part(s, b2, 1, 9);
    lemma_prefix_part(s, b1, 9, 17);
    lemma_prefix_part(s, b2, 9, 17);
    lemma_prefix_part(s, b1, 17, 25);
    lemma_prefix_part(s, b2, 17, 25);
    lemma_prefix_part(s, b1, 25, 27);
    lemma_prefix_part(s, b2, 25, 27);
    lemma_prefix_part(s, b1, 27, 29);
    lemma_prefix_part(s, b2, 27, 29);
    lemma_prefix_part(s, b1, 29, 33);
    lemma_prefix_part(s, b2, 29, 33);
    lemma_prefix_part(s, b1, 33, 37);
    lemma_prefix_part(s, b2, 33, 37);
    lemma_prefix_part(s, b1, 37, 41);
    lemma_prefix_part(s, b2, 37, 41);
    lemma_prefix_part(s, b1, 41, 45);
    lemma_prefix_part(s, b2, 41, 45);
    lemma_prefix_part(s, b1, 45, 53);
    lemma_prefix_part(s, b2, 45, 53);
    lemma_prefix_part(s, b1, 54, 86);
    lemma_prefix_part(s, b2, 54, 86);
    assert(spec_u16_from_le_bytes(le16(d1 as u16)) == d1 as u16);
    assert(spec_u16_from_le_bytes(le16(d2 as u16)) == d2 as u16);
    assert(d1 == d2);
    assert(spec_u16_from_le_bytes(le16(n1 as u16)) == n1 as u16);
    assert(spec_u16_from_le_bytes(le16(n2 as u16)) == n2 as u16);
    assert(n1 == n2);
    lemma_prefix_part(s, b1, 86, 86 + d1);
    lemma_prefix_part(s, b2, 86, 86 + d2);
    lemma_prefix_part(s, b1, 86 + d1, 86 + d1 + n1);
    lemma_prefix_part(s, b2, 86 + d2, 86 + d2 + n2);
    assert(decode_utf8(encode_utf8(x1.display)) == x1.display);
    assert(decode_utf8(encode_utf8(x2.display)) == x2.display);
    assert(decode_utf8(encode_utf8(x1.file_name)) == x1.file_name);
    assert(decode_utf8(encode_utf8(x2.file_name)) == x2.file_name);
    assert(spec_u64_from_le_bytes(le64(x1.image_id)) == x1.image_id);
    assert(spec_u64_from_le_bytes(le64(x2.image_id)) == x2.image_id);
    assert(spec_u64_from_le_bytes(le64(x1.generation)) == x1.generation);
    assert(spec_u64_from_le_bytes(le64(x2.generation)) == x2.generation);
    assert(spec_u64_from_le_bytes(le64(x1.created_at_ms)) == x1.created_at_ms);
    assert(spec_u64_from_le_bytes(le64(x2.created_at_ms)) == x2.created_at_ms);
    assert(spec_u64_from_le_bytes(le64(x1.byte_len)) == x1.byte_len);
    assert(spec_u64_from_le_bytes(le64(x2.byte_len)) == x2.byte_len);
    assert(spec_u32_from_le_bytes(le32(x1.source_rect.size.width)) == x1.source_rect.size.width);
    assert(spec_u32_from_le_bytes(le32(x2.source_rect.size.width)) == x2.source_rect.size.width);
    assert(spec_u32_from_le_bytes(le32(x1.source_rect.size.height))
        == x1.source_rect.size.height);
    assert(spec_u32_from_le_bytes(le32(x2.source_rect.size.height))
        == x2.source_rect.size.height);
    let ox1 = x1.source_rect.origin.x as u32;
    let ox2 = x2.source_rect.origin.x as u32;
    let oy1 = x1.source_rect.origin.y as u32;
    let oy2 = x2.source_rect.origin.y as u32;
    assert(spec_u32_from_le_bytes(le32(ox1)) == ox1);
    assert(spec_u32_from_le_bytes(le32(ox2)) == ox2);
    assert(spec_u32_from_le_bytes(le32(oy1)) == oy1);
    assert(spec_u32_from_le_bytes(le32(oy2)) == oy2);
    lemma_i32_bits(x1.source_rect.origin.x);
    lemma_i32_bits(x2.source_rect.origin.x);
    lemma_i32_bits(x1.source_rect.origin.y);
    lemma_i32_bits(x2.source_rect.origin.y);
    assert(x1.source_rect.origin == x2.source_rect.origin);
    assert(x1.source_rect.size == x2.source_rect.size);
    assert(x1.digest =~= x2.digest);
}

proof fn lemma_sub_join(s: Seq<u8>, a: int, b: int, c: int)
    requires
        0 <= a <= b <= c <= s.len(),
    ensures
        s.subrange(a, b) + s.subrange(b, c) == s.subrange(a, c),
{
    assert(s.subrange(a, b) + s.subrange(b, c) =~= s.subrange(a, c));
}

proof fn lemma_rest_part(s: Seq<u8>, start: int, a: int, b: int)
    requires
        0 <= start,
        0 <= a <= b,
        start + b <= s.len(),
    ensures
        s.subrange(start, s.len() as int).subrange(a, b) == s.subrange(start + a, start + b),
{
    assert(s.subrange(start, s.len() as int).subrange(a, b) =~= s.subrange(start + a, start + b));
}

fn digest_array(d: &[u8]) -> (a: [u8; 32])
    requires
        d@.len() == 32,
    ensures
        a@ == d@,
{
    let a: [u8; 32] = [d[0], d[1], d[2], d[3], d[4], d[5], d[6], d[7], d[8], d[9], d[10], d[11], d[12], d[13], d[14], d[15], d[16], d[17], d[18], d[19], d[20], d[21], d[22], d[23], d[24], d[25], d[26], d[27], d[28], d[29], d[30], d[31]];
    assert(a@ =~= d@);
    a
}

/// The fields of `e` lie in `b` from offset `o` on, as a record places them.
pub open spec fn fields_at(b: Seq<u8>, o: int, e: HistoryEntryView) -> bool {
    let dl = encode_utf8(e.display).len() as int;
    let nl = encode_utf8(e.file_name).len() as int;
    &&& 0 <= o
    &&& o + 86 + dl + nl <= b.len()
    &&& e.digest.len() == 32
    &&& b[o] == e.state.wire()
    &&& b.subrange(o + 1, o + 9) == le64(e.image_id)
    &&& b.subrange(o + 9, o + 17) == le64(e.generation)
    &&& b.subrange(o + 17, o + 25) == le64(e.created_at_ms)
    &&& b.subrange(o + 25, o + 27) == le16(dl as u16)
    &&& b.subrange(o + 27, o + 29) == le16(nl as u16)
    &&& b.subrange(o + 29, o + 33) == le32(e.source_rect.origin.x as u32)
    &&& b.subrange(o + 33, o + 37) == le32(e.source_rect.origin.y as u32)
    &&& b.subrange(o + 37, o + 41) == le32(e.source_rect.size.width)
    &&& b.subrange(o + 41, o + 45) == le32(e.source_rect.size.height)
    &&& b.subrange(o + 45, o + 53) == le64(e.byte_len)
    &&& b[o + 53] == e.ocr.wire()
    &&& b.subrange(o + 54, o + 86) == e.digest
    &&& b.subrange(o + 86, o + 86 + dl) == encode_utf8(e.display)
    &&& b.subrange(o + 86 + dl, o + 86 + dl + nl) == encode_utf8(e.file_name)
}

/// A record at `o` places its fields there.
proof fn lemma_fields_of_record(b: Seq<u8>, o: int, e: HistoryEntryView)
    requires
        0 <= o <= b.len(),
        e.digest.len() == 32,
        starts_with(b.subrange(o, b.len() as int), entry_bytes(e)),
    ensures
        fields_at(b, o, e),
{
    let rest = b.subrange(o, b.len() as int);
    let eb = entry_bytes(e);
    let dl = encode_utf8(e.display).len() as int;
    let nl = encode_utf8(e.file_name).len() as int;
    lemma_entry_fields(e);
    assert(rest[0] == eb[0]) by {
        assert(rest.subrange(0, eb.len() as int)[0] == eb[0]);
    }
    assert(rest[53] == eb[53]) by {
        assert(rest.subrange(0, eb.len() as int)[53] == eb[53]);
    }
    lemma_prefix_part(rest, eb, 1, 9);
    lemma_prefix_part(rest, eb, 9, 17);
    lemma_prefix_part(rest, eb, 17, 25);
    lemma_prefix_part(rest, eb, 25, 27);
    lemma_prefix_part(rest, eb, 27, 29);
    lemma_prefix_part(rest, eb, 29, 33);
    lemma_prefix_part(rest, eb, 33, 37);
    lemma_prefix_part(rest, eb, 37, 41);
    lemma_prefix_part(rest, eb, 41, 45);
    lemma_prefix_part(rest, eb, 45, 53);
    lemma_prefix_part(rest, eb, 54, 86);
    lemma_prefix_part(rest, eb, 86, 86 + dl);
    lemma_prefix_part(rest, eb, 86 + dl, 86 + dl + nl);
    lemma_rest_part(b, o, 1, 9);
    lemma_rest_part(b, o, 9, 17);
    lemma_rest_part(b, o, 17, 25);
    lemma_rest_part(b, o, 25, 27);
    lemma_rest_part(b, o, 27, 29);
    lemma_rest_part(b, o, 29, 33);
    lemma_rest_part(b, o, 33, 37);
    lemma_rest_part(b, o, 37, 41);
    lemma_rest_part(b, o, 41, 45);
    lemma_rest_part(b, o, 45, 53);
    lemma_rest_part(b, o, 54, 86);
    lemma_rest_part(b, o, 86, 86 + dl);
    lemma_rest_part(b, o, 86 + dl, 86 + dl + nl);
}

/// Fields placed at `o` form the entry's record there.
proof fn lemma_record_of_fields(b: Seq<u8>, o: int, e: HistoryEntryView)
    requires
        fields_at(b, o, e),
    ensures
        starts_with(b.subrange(o, b.len() as int), entry_bytes(e)),
{
    let dl = encode_utf8(e.display).len() as int;
    let nl = encode_utf8(e.file_name).len() as int;
    let end = o + 86 + dl + nl;
    lemma_entry_fields(e);
    let eb = entry_bytes(e);
    assert(eb =~= b.subrange(o, end)) by {
        assert forall|i: int| 0 <= i < eb.len() implies eb[i] == b.subrange(o, end)[i] by {
            if i == 0 {
            } else if i < 9 {
                assert(eb.subrange(1, 9)[i - 1] == eb[i]);
                assert(b.subrange(o + 1, o + 9)[i - 1] == b[o + i]);
            } else if i < 17 {
                assert(eb.subrange(9, 17)[i - 9] == eb[i]);
                assert(b.subrange(o + 9, o + 17)[i - 9] == b[o + i]);
            } else if i < 25 {
                assert(eb.subrange(17, 25)[i - 17] == eb[i]);
                assert(b.subrange(o + 17, o + 25)[i - 17] == b[o + i]);
            } else if i < 27 {
                assert(eb.subrange(25, 27)[i - 25] == eb[i]);
                assert(b.subrange(o + 25, o + 27)[i - 25] == b[o + i]);
            } else if i < 29 {
                assert(eb.subrange(27, 29)[i - 27] == eb[i]);
                assert(b.subrange(o + 27, o + 29)[i - 27] == b[o + i]);
            } else if i < 33 {
                assert(eb.subrange(29, 33)[i - 29] == eb[i]);
                assert(b.subrange(o + 29, o + 33)[i - 29] == b[o + i]);
            } else if i < 37 {
                assert(eb.subrange(33, 37)[i - 33] == eb[i]);
                assert(b.subrange(o + 33, o + 37)[i - 33] == b[o + i]);
            } else if i < 41 {
                assert(eb.subrange(37, 41)[i - 37] == eb[i]);
                assert(b.subrange(o + 37, o + 41)[i - 37] == b[o + i]);
            } else if i < 45 {
                assert(eb.subrange(41, 45)[i - 41] == eb[i]);
                assert(b.subrange(o + 41, o + 45)[i - 41] == b[o + i]);
            } else if i < 53 {
                assert(eb.subrange(45, 53)[i - 45] == eb[i]);
                assert(b.subrange(o + 45, o + 53)[i - 45] == b[o + i]);
            } else if i == 53 {
            } else if i < 86 {
                assert(eb.subrange(54, 86)[i - 54] == eb[i]);
                assert(b.subrange(o + 54, o + 86)[i - 54] == b[o + i]);
            } else if i < 86 + dl {
                assert(eb.subrange(86, 86 + dl)[i - 86] == eb[i]);
                assert(b.subrange(o + 86, o + 86 + dl)[i - 86] == b[o + i]);
            } else {
                assert(eb.subrange(86 + dl, 86 + dl + nl)[i - 86 - dl] == eb[i]);
                assert(b.subrange(o + 86 + dl, o + 86 + dl + nl)[i - 86 - dl] == b[o + i]);
            }
        }
    }
    lemma_rest_part(b, o, 0, end - o);
}

/// Reads one record. On success the record read is exactly the bytes consumed and describes
/// a valid entry; whenever the bytes ahead start with the record of a valid entry, it
/// succeeds.
#[verifier::rlimit(40)]
fn read_entry(reader: &mut Reader) -> (res: Result<HistoryEntry, String>)
    requires
        old(reader).wf(),
    ensures
        final(reader).wf(),
        final(reader).bytes == old(reader).bytes,
        res is Ok ==> valid_entry(res->Ok_0@) && starts_with(old(reader).rest(), entry_bytes(res->Ok_0@))
            && final(reader).offset == old(reader).offset + entry_bytes(res->Ok_0@).len(),
        (exists|x: HistoryEntryView| valid_entry(x) && starts_with(old(reader).rest(), entry_bytes(x)))
            ==> res is Ok,
{
    proof {
        vstd::bytes::lemma_auto_spec_u16_to_from_le_bytes();
        vstd::bytes::lemma_auto_spec_u32_to_from_le_bytes();
        vstd::bytes::lemma_auto_spec_u64_to_from_le_bytes();
    }
    let ghost b = reader.bytes@;
    let ghost o = reader.offset as int;
    let ghost rest = reader.rest();
    let ghost has = exists|x: HistoryEntryView| valid_entry(x) && starts_with(rest, entry_bytes(x));
    let ghost x = choose|x: HistoryEntryView| valid_entry(x) && starts_with(rest, entry_bytes(x));
    proof {
        if has {
            lemma_fields_of_record(b, o, x);
            lemma_entry_len(x);
        }
    }
    if reader.remaining() < RECORD_PREFIX_LEN {
        return Err("history record is truncated".to_string());
    }
    let state_byte = reader.u8()?;
    let state = match HistoryEntryState::from_wire(state_byte) {
        Some(state) => state,
        None => {
            return Err("history entry state is invalid".to_string());
        },
    };
    let image_raw = reader.u64()?;
    let generation_raw = reader.u64()?;
    let generation = match AssetGeneration::from_raw(generation_raw) {
        Some(generation) => generation,
        None => {
            assert(has ==> generation_raw == x.generation);
            return Err("history generation is invalid".to_string());
        },
    };
    let created_at_ms = reader.u64()?;
    let display_len = reader.u16()?;
    let name_len = reader.u16()?;
    proof {
        if has {
            assert(display_len as int == encode_utf8(x.display).len());
            assert(name_len as int == encode_utf8(x.file_name).len());
        }
    }
    if display_len as usize > HISTORY_MAX_DISPLAY_BYTES || name_len as usize
        > HISTORY_MAX_FILE_NAME_BYTES {
        return Err("history string length exceeds limit".to_string());
    }
    let x0 = reader.i32()?;
    let y0 = reader.i32()?;
    let width = reader.u32()?;
    let height = reader.u32()?;
    let byte_len = reader.u64()?;
    let ocr_byte = reader.u8()?;
    let ocr = match HistoryOcrState::from_wire(ocr_byte) {
        Some(ocr) => ocr,
        None => {
            return Err("history OCR state is invalid".to_string());
        },
    };
    let digest_bytes = reader.bytes(32)?;
    let digest = digest_array(digest_bytes);
    let display_bytes = reader.bytes(display_len as usize)?;
    proof {
        if has {
            vstd::utf8::encode_utf8_valid_utf8(x.display);
        }
    }
    let display = match crate::text::string_from_utf8(vstd::slice::slice_to_vec(display_bytes)) {
        Some(display) => display,
        None => {
            return Err("history display id is invalid utf-8".to_string());
        },
    };
    let name_bytes = reader.bytes(name_len as usize)?;
    proof {
        if has {
            vstd::utf8::encode_utf8_valid_utf8(x.file_name);
            vstd::utf8::encode_utf8_decode_utf8(x.display);
            vstd::utf8::encode_utf8_decode_utf8(x.file_name);
        }
    }
    let file_name = match crate::text::string_from_utf8(vstd::slice::slice_to_vec(name_bytes)) {
        Some(file_name) => file_name,
        None => {
            return Err("history file name is invalid utf-8".to_string());
        },
    };
    let entry = HistoryEntry {
        image_id: ImageId { raw: image_raw },
        generation,
        created_at_ms,
        display,
        source_rect: PixelRect {
            origin: PixelPoint { x: x0, y: y0 },
            size: PixelSize { width, height },
        },
        file_name,
        byte_len,
        digest,
        ocr,
        state,
    };
    proof {
        vstd::utf8::decode_utf8_encode_utf8(display_bytes@);
        vstd::utf8::decode_utf8_encode_utf8(name_bytes@);
        if has {
            assert(entry@.display == x.display);
            assert(entry@.file_name == x.file_name);
        }
    }
    if entry.validate().is_err() {
        return Err("history entry is invalid".to_string());
    }
    proof {
        let e = entry@;
        lemma_u32_bits(spec_u32_from_le_bytes(b.subrange(o + 29, o + 33)));
        lemma_u32_bits(spec_u32_from_le_bytes(b.subrange(o + 33, o + 37)));
        assert(fields_at(b, o, e));
        lemma_record_of_fields(b, o, e);
        lemma_entry_len(e);
    }
    Ok(entry)
}

/// Entries that come back from their own index file: encodable, and not more than twice the
/// configured capacity.
pub open spec fn decodable(es: Seq<HistoryEntryView>, max_entries: usize) -> bool {
    encodable(es) && es.len() <= 2 * max_entries
}

/// The records of the first `j` entries start the records of the first `k`.
pub proof fn lemma_payload_prefix(t: Seq<HistoryEntryView>, j: int, k: int)
    requires
        0 <= j <= k <= t.len(),
    ensures
        payload_bytes(t.take(j)).len() <= payload_bytes(t.take(k)).len(),
        payload_bytes(t.take(k)).subrange(0, payload_bytes(t.take(j)).len() as int)
            == payload_bytes(t.take(j)),
    decreases k - j,
{
    if j < k {
        lemma_payload_prefix(t, j, k - 1);
        assert(t.take(k).drop_last() =~= t.take(k - 1));
        let pj = payload_bytes(t.take(j));
        let pk1 = payload_bytes(t.take(k - 1));
        let pk = payload_bytes(t.take(k));
        assert(pk == pk1 + entry_bytes(t[k - 1]));
        assert(pk.subrange(0, pj.len() as int) =~= pk1.subrange(0, pj.len() as int));
    } else {
        assert(payload_bytes(t.take(k)).subrange(0, payload_bytes(t.take(j)).len() as int)
            =~= payload_bytes(t.take(j)));
    }
}

/// The record of entry `i` follows the records of the entries before it.
proof fn lemma_next_record(t: Seq<HistoryEntryView>, i: int)
    requires
        0 <= i < t.len(),
    ensures
        ({
            let p = payload_bytes(t);
            let off = payload_bytes(t.take(i)).len() as int;
            &&& payload_bytes(t.take(i + 1)).len() == off + entry_bytes(t[i]).len()
            &&& off <= p.len()
            &&& starts_with(p.subrange(off, p.len() as int), entry_bytes(t[i]))
        }),
{
    let p = payload_bytes(t);
    lemma_payload_prefix(t, i + 1, t.len() as int);
    assert(t.take(t.len() as int) =~= t);
    assert(t.take(i + 1).drop_last() =~= t.take(i));
    let pi = payload_bytes(t.take(i));
    let pi1 = payload_bytes(t.take(i + 1));
    let e = entry_bytes(t[i]);
    assert(pi1 == pi + e);
    let off = pi.len() as int;
    assert(p.subrange(off, p.len() as int).subrange(0, e.len() as int) =~= e) by {
        assert forall|k: int| 0 <= k < e.len() implies p.subrange(off, p.len() as int).subrange(
            0,
            e.len() as int,
        )[k] == e[k] by {
            assert(p.subrange(0, pi1.len() as int)[off + k] == pi1[off + k]);
        }
    }
}

/// The records already consumed are those of the first `i` entries.
proof fn lemma_payload_offset(t: Seq<HistoryEntryView>, i: int, v: Seq<HistoryEntryView>)
    requires
        0 <= i <= t.len(),
        v == t.take(i),
    ensures
        payload_bytes(v).len() == payload_bytes(t.take(i)).len(),
{
}

/// Consuming one more record extends the records consumed so far.
proof fn lemma_consumed(payload: Seq<u8>, pb: Seq<u8>, off: int, eb: Seq<u8>)
    requires
        0 <= off <= payload.len(),
        payload.subrange(0, off) == pb,
        starts_with(payload.subrange(off, payload.len() as int), eb),
    ensures
        off + eb.len() <= payload.len(),
        payload.subrange(0, off + eb.len()) == pb + eb,
{
    assert(payload.subrange(0, off + eb.len()) =~= pb + eb) by {
        assert forall|k: int| 0 <= k < off + eb.len() implies payload.subrange(0, off + eb.len())[k]
            == (pb + eb)[k] by {
            if k >= off {
                assert(payload.subrange(off, payload.len() as int).subrange(0, eb.len() as int)[k
                    - off] == eb[k - off]);
            } else {
                assert(payload.subrange(0, off)[k] == pb[k]);
            }
        }
    }
}

/// The header of an index file laid out by `index_bytes`.
pub open spec fn header_of(count: u32, payload: Seq<u8>) -> Seq<u8> {
    magic() + le16(HISTORY_SCHEMA_VERSION) + le16(0) + le32(count) + le32(payload.len() as u32)
        + le32(crc32_of(payload))
}

/// Where the header fields of an index file lie.
proof fn lemma_index_fields(count: u32, p: Seq<u8>)
    ensures
        ({
            let b = header_of(count, p) + p;
            &&& b.len() == 24 + p.len()
            &&& b.subrange(0, 8) == magic()
            &&& b.subrange(8, 10) == le16(HISTORY_SCHEMA_VERSION)
            &&& b.subrange(10, 12) == le16(0)
            &&& b.subrange(12, 16) == le32(count)
            &&& b.subrange(16, 20) == le32(p.len() as u32)
            &&& b.subrange(20, 24) == le32(crc32_of(p))
            &&& b.subrange(24, b.len() as int) == p
        }),
{
    vstd::bytes::lemma_auto_spec_u16_to_from_le_bytes();
    vstd::bytes::lemma_auto_spec_u32_to_from_le_bytes();
    let b = header_of(count, p) + p;
    assert(b.subrange(0, 8) =~= magic());
    assert(b.subrange(8, 10) =~= le16(HISTORY_SCHEMA_VERSION));
    assert(b.subrange(10, 12) =~= le16(0));
    assert(b.subrange(12, 16) =~= le32(count));
    assert(b.subrange(16, 20) =~= le32(p.len() as u32));
    assert(b.subrange(20, 24) =~= le32(crc32_of(p)));
    assert(b.subrange(24, b.len() as int) =~= p);
}

/// A byte string whose header fields are those of `count` and its own payload is the index
/// file laid out that way.
proof fn lemma_index_join(b: Seq<u8>, count: u32)
    requires
        b.len() >= 24,
        b.subrange(0, 8) == magic(),
        b.subrange(8, 10) == le16(HISTORY_SCHEMA_VERSION),
        b.subrange(10, 12) == le16(0),
        b.subrange(12, 16) == le32(count),
        b.subrange(16, 20) == le32((b.len() - 24) as u32),
        b.subrange(20, 24) == le32(crc32_of(b.subrange(24, b.len() as int))),
    ensures
        b == header_of(count, b.subrange(24, b.len() as int)) + b.subrange(24, b.len() as int),
{
    let p = b.subrange(24, b.len() as int);
    lemma_index_fields(count, p);
    let c = header_of(count, p) + p;
    assert(b =~= c) by {
        assert forall|k: int| 0 <= k < b.len() implies b[k] == c[k] by {
            if k < 8 {
                assert(b.subrange(0, 8)[k] == c.subrange(0, 8)[k]);
            } else if k < 10 {
                assert(b.subrange(8, 10)[k - 8] == c.subrange(8, 10)[k - 8]);
            } else if k < 12 {
                assert(b.subrange(10, 12)[k - 10] == c.subrange(10, 12)[k - 10]);
            } else if k < 16 {
                assert(b.subrange(12, 16)[k - 12] == c.subrange(12, 16)[k - 12]);
            } else if k < 20 {
                assert(b.subrange(16, 20)[k - 16] == c.subrange(16, 20)[k - 16]);
            } else if k < 24 {
                assert(b.subrange(20, 24)[k - 20] == c.subrange(20, 24)[k - 20]);
            } else {
                assert(b.subrange(24, b.len() as int)[k - 24] == c.subrange(24, c.len() as int)[k
                    - 24]);
            }
        }
    }
}

/// Checks the header and returns the entry count it announces.
#[verifier::rlimit(30)]
/// The first thing wrong with an index file's header, in the order the reader checks: its
/// length, magic, schema version, reserved bytes, entry count, payload length and payload
/// checksum; `None` where the header is sound.
pub open spec fn header_refusal(b: Seq<u8>, max_entries: usize) -> Option<Seq<char>> {
    if b.len() < HEADER_LEN || b.len() > MAX_INDEX_BYTES {
        Some("history index length is invalid"@)
    } else if b.subrange(0, 8) != magic() {
        Some("history index magic is invalid"@)
    } else if spec_u16_from_le_bytes(b.subrange(8, 10)) != HISTORY_SCHEMA_VERSION {
        Some("history index schema version is unsupported"@)
    } else if spec_u16_from_le_bytes(b.subrange(10, 12)) != 0 {
        Some("history index reserved bytes are invalid"@)
    } else if spec_u32_from_le_bytes(b.subrange(12, 16)) > HISTORY_MAX_ENTRIES
        || spec_u32_from_le_bytes(b.subrange(12, 16)) > 2 * max_entries {
        Some("history entry count is invalid"@)
    } else if spec_u32_from_le_bytes(b.subrange(16, 20)) != b.len() - HEADER_LEN {
        Some("history payload length is invalid"@)
    } else if crc32_of(b.subrange(24, b.len() as int)) != spec_u32_from_le_bytes(b.subrange(20, 24)) {
        Some("history payload checksum is invalid"@)
    } else {
        None
    }
}

fn check_header(bytes: &[u8], max_entries: usize) -> (res: Result<usize, String>)
    ensures
        header_refusal(bytes@, max_entries) matches Some(m) ==> (res matches Err(e) && e@ == m),
        res is Ok ==> header_refusal(bytes@, max_entries) is None,
        res is Ok ==> ({
            let count = res->Ok_0;
            &&& HEADER_LEN <= bytes@.len() <= MAX_INDEX_BYTES
            &&& count <= HISTORY_MAX_ENTRIES
            &&& count <= 2 * max_entries
            &&& bytes@ == header_of(count as u32, bytes@.subrange(24, bytes@.len() as int))
                + bytes@.subrange(24, bytes@.len() as int)
        }),
        forall|es: Seq<HistoryEntryView>|
            decodable(es, max_entries) && index_bytes(es) == bytes@ ==> res == Ok::<
                usize,
                String,
            >(es.len() as usize),
{
    proof {
        vstd::bytes::lemma_auto_spec_u16_to_from_le_bytes();
        vstd::bytes::lemma_auto_spec_u32_to_from_le_bytes();
    }
    let ghost has = exists|es: Seq<HistoryEntryView>|
        decodable(es, max_entries) && index_bytes(es) == bytes@;
    let ghost t = choose|es: Seq<HistoryEntryView>|
        decodable(es, max_entries) && index_bytes(es) == bytes@;
    proof {
        if has {
            lemma_index_fields(t.len() as u32, payload_bytes(t));
        }
    }
    if bytes.len() < HEADER_LEN || bytes.len() > MAX_INDEX_BYTES {
        return Err("history index length is invalid".to_string());
    }
    if !(bytes[0] == 0x50 && bytes[1] == 0x49 && bytes[2] == 0x4e && bytes[3] == 0x48 && bytes[4]
        == 0x49 && bytes[5] == 0x53 && bytes[6] == 0x54 && bytes[7] == 0x00) {
        proof {
            if bytes@.subrange(0, 8) == magic() {
                assert(bytes@[0] == bytes@.subrange(0, 8)[0]);
                assert(bytes@[1] == bytes@.subrange(0, 8)[1]);
                assert(bytes@[2] == bytes@.subrange(0, 8)[2]);
                assert(bytes@[3] == bytes@.subrange(0, 8)[3]);
                assert(bytes@[4] == bytes@.subrange(0, 8)[4]);
                assert(bytes@[5] == bytes@.subrange(0, 8)[5]);
                assert(bytes@[6] == bytes@.subrange(0, 8)[6]);
                assert(bytes@[7] == bytes@.subrange(0, 8)[7]);
            }
        }
        return Err("history index magic is invalid".to_string());
    }
    assert(bytes@.subrange(0, 8) =~= magic());
    let schema = u16_from_le_bytes(&bytes[8..10]);
    assert(bytes@.subrange(8, 10) =~= bytes@.subrange(8, 10));
    if schema != HISTORY_SCHEMA_VERSION {
        return Err("history index schema version is unsupported".to_string());
    }
    let reserved = u16_from_le_bytes(&bytes[10..12]);
    if reserved != 0 {
        return Err("history index reserved bytes are invalid".to_string());
    }
    let count = u32_from_le_bytes(&bytes[12..16]) as usize;
    if count > HISTORY_MAX_ENTRIES || (count + 1) / 2 > max_entries {
        return Err("history entry count is invalid".to_string());
    }
    let payload_len = u32_from_le_bytes(&bytes[16..20]) as usize;
    if payload_len != bytes.len() - HEADER_LEN {
        return Err("history payload length is invalid".to_string());
    }
    let checksum = u32_from_le_bytes(&bytes[20..24]);
    let payload = &bytes[HEADER_LEN..bytes.len()];
    assert(payload@ =~= bytes@.subrange(24, bytes@.len() as int));
    if crc32(payload) != checksum {
        return Err("history payload checksum is invalid".to_string());
    }
    proof {
        assert(bytes@.subrange(0, 8) =~= magic());
        assert(payload@ == bytes@.subrange(24, bytes@.len() as int));
        lemma_index_join(bytes@, count as u32);
        assert forall|es: Seq<HistoryEntryView>|
            decodable(es, max_entries) && index_bytes(es) == bytes@ implies count == es.len() by {
            lemma_index_fields(es.len() as u32, payload_bytes(es));
        }
    }
    Ok(count)
}

/// Reads back the entries of an index file. The file must have the magic, the current schema,
/// zero reserved bytes, an entry count within `HISTORY_MAX_ENTRIES` and twice `max_entries`,
/// a payload length matching the file, the payload's checksum, and exactly that many valid
/// records. What it returns encodes back to the very bytes given; and every list of entries
/// that `encode` turns into these bytes, within the count limits, is returned as it was.
#[verifier::rlimit(30)]
pub fn decode(bytes: &[u8], max_entries: usize) -> (res: Result<Vec<HistoryEntry>, String>)
    ensures
        header_refusal(bytes@, max_entries) matches Some(m) ==> (res matches Err(e) && e@ == m),
        res is Ok ==> index_bytes(entry_views(res->Ok_0@)) == bytes@ && decodable(
            entry_views(res->Ok_0@),
            max_entries,
        ),
        forall|es: Seq<HistoryEntryView>|
            decodable(es, max_entries) && index_bytes(es) == bytes@ ==> res is Ok && entry_views(
                res->Ok_0@,
            ) == es,
{
    let count = check_header(bytes, max_entries)?;
    let payload = &bytes[HEADER_LEN..bytes.len()];
    proof {
        assert forall|es: Seq<HistoryEntryView>|
            #![trigger decodable(es, max_entries)]
            decodable(es, max_entries) && index_bytes(es) == bytes@ implies payload@
            == payload_bytes(es) by {
            lemma_index_fields(es.len() as u32, payload_bytes(es));
        }
    }
    let mut reader = Reader::new(payload);
    let mut entries: Vec<HistoryEntry> = Vec::new();
    let mut i: usize = 0;
    while i < count
        invariant
            i <= count,
            count <= HISTORY_MAX_ENTRIES,
            count <= 2 * max_entries,
            header_refusal(bytes@, max_entries) is None,
            HEADER_LEN <= bytes@.len() <= MAX_INDEX_BYTES,
            payload@ == bytes@.subrange(24, bytes@.len() as int),
            bytes@ == header_of(count as u32, payload@) + payload@,
            reader.wf(),
            reader.bytes@ == payload@,
            entries@.len() == i,
            payload_bytes(entry_views(entries@)) == payload@.subrange(0, reader.offset as int),
            forall|k: int| 0 <= k < i ==> valid_entry(#[trigger] entry_views(entries@)[k]),
            forall|es: Seq<HistoryEntryView>|
                #![trigger decodable(es, max_entries)]
                decodable(es, max_entries) && index_bytes(es) == bytes@ ==> payload@
                    == payload_bytes(es) && es.len() == count && entry_views(entries@) == es.take(
                    i as int,
                ),
        decreases count - i,
    {
        let ghost before = entries@;
        let ghost offset = reader.offset as int;
        let ghost has = exists|es: Seq<HistoryEntryView>|
            decodable(es, max_entries) && index_bytes(es) == bytes@;
        let ghost t = choose|es: Seq<HistoryEntryView>|
            decodable(es, max_entries) && index_bytes(es) == bytes@;
        proof {
            if has {
                lemma_payload_offset(t, i as int, entry_views(before));
                lemma_next_record(t, i as int);
                assert(valid_entry(t[i as int]));
            }
        }
        let entry = read_entry(&mut reader)?;
        proof {
            let pb = payload_bytes(entry_views(before));
            assert(entry_views(before.push(entry)) =~= entry_views(before).push(entry@));
            assert(entry_views(before).push(entry@).drop_last() =~= entry_views(before));
            lemma_consumed(payload@, pb, offset, entry_bytes(entry@));
            assert forall|es: Seq<HistoryEntryView>|
                #![trigger decodable(es, max_entries)]
                decodable(es, max_entries) && index_bytes(es) == bytes@ implies entry_views(
                before.push(entry),
            ) == es.take(i + 1) by {
                lemma_payload_offset(es, i as int, entry_views(before));
                lemma_next_record(es, i as int);
                assert(valid_entry(es[i as int]));
                lemma_entry_prefix_unique(
                    payload@.subrange(offset, payload@.len() as int),
                    es[i as int],
                    entry@,
                );
                assert(es.take(i + 1) =~= es.take(i as int).push(es[i as int]));
            }
        }
        entries.push(entry);
        i += 1;
    }
    proof {
        assert forall|es: Seq<HistoryEntryView>|
            #![trigger decodable(es, max_entries)]
            decodable(es, max_entries) && index_bytes(es) == bytes@ implies reader.offset
            == payload@.len() by {
            assert(es.take(es.len() as int) =~= es);
        }
    }
    if reader.remaining() != 0 {
        return Err("history payload has trailing bytes".to_string());
    }
    proof {
        let v = entry_views(entries@);
        assert(payload@.subrange(0, payload@.len() as int) =~= payload@);
        assert forall|es: Seq<HistoryEntryView>|
            #![trigger decodable(es, max_entries)]
            decodable(es, max_entries) && index_bytes(es) == bytes@ implies v == es by {
            assert(es.take(es.len() as int) =~= es);
        }
    }
    Ok(entries)
}
proof fn lemma_same_records(t1: Seq<HistoryEntryView>, t2: Seq<HistoryEntryView>, i: int)
    requires
        encodable(t1),
        encodable(t2),
        t1.len() == t2.len(),
        payload_bytes(t1) == payload_bytes(t2),
        0 <= i <= t1.len(),
    ensures
        t1.take(i) == t2.take(i),
    decreases i,
{
    if i > 0 {
        lemma_same_records(t1, t2, i - 1);
        lemma_next_record(t1, i - 1);
        lemma_next_record(t2, i - 1);
        assert(valid_entry(t1[i - 1]));
        assert(valid_entry(t2[i - 1]));
        let p = payload_bytes(t1);
        let off = payload_bytes(t1.take(i - 1)).len() as int;
        lemma_entry_prefix_unique(p.subrange(off, p.len() as int), t1[i - 1], t2[i - 1]);
        assert(t1.take(i) =~= t1.take(i - 1).push(t1[i - 1]));
        assert(t2.take(i) =~= t2.take(i - 1).push(t2[i - 1]));
    } else {
        assert(t1.take(0) =~= t2.take(0));
    }
}

/// Two histories that `encode` accepts never share an index file, so a file read back stands
/// for exactly one history.
pub proof fn distinct_histories_have_distinct_files(
    es1: Seq<HistoryEntryView>,
    es2: Seq<HistoryEntryView>,
)
    requires
        encodable(es1),
        encodable(es2),
        index_bytes(es1) == index_bytes(es2),
    ensures
        es1 == es2,
{
    vstd::bytes::lemma_auto_spec_u32_to_from_le_bytes();
    lemma_index_fields(es1.len() as u32, payload_bytes(es1));
    lemma_index_fields(es2.len() as u32, payload_bytes(es2));
    assert(spec_u32_from_le_bytes(le32(es1.len() as u32)) == es1.len() as u32);
    assert(spec_u32_from_le_bytes(le32(es2.len() as u32)) == es2.len() as u32);
    lemma_same_records(es1, es2, es1.len() as int);
    assert(es1.take(es1.len() as int) =~= es1);
    assert(es2.take(es2.len() as int) =~= es2);
}

/// Saving then loading gives the history back: the index file of a history that `encode`
/// accepts is one that `decode` reads back as that very history, for any capacity of at
/// least half its entry count.
pub proof fn saved_history_loads_back(es: Seq<HistoryEntryView>, max_entries: usize)
    requires
        encodable(es),
        es.len() <= 2 * max_entries,
    ensures
        decodable(es, max_entries),
        forall|other: Seq<HistoryEntryView>|
            decodable(other, max_entries) && index_bytes(other) == index_bytes(es) ==> other == es,
{
    assert forall|other: Seq<HistoryEntryView>|
        decodable(other, max_entries) && index_bytes(other) == index_bytes(es) implies other
        == es by {
        distinct_histories_have_distinct_files(other, es);
    }
}

/// `b1` equals `b` outside the bytes `lo..hi` and differs from it within them.
pub open spec fn changed_only_within(b: Seq<u8>, b1: Seq<u8>, lo: int, hi: int) -> bool {
    &&& b1.len() == b.len()
    &&& forall|k: int| 0 <= k < b.len() && !(lo <= k < hi) ==> #[trigger] b1[k] == b[k]
    &&& b1.subrange(lo, hi) != b.subrange(lo, hi)
}

/// A saved index whose schema-version bytes are changed is refused as an unsupported schema,
/// before anything else of it is read.
pub proof fn changed_schema_version_is_refused(
    es: Seq<HistoryEntryView>,
    max_entries: usize,
    b1: Seq<u8>,
)
    requires
        encodable(es),
        changed_only_within(index_bytes(es), b1, 8, 10),
    ensures
        header_refusal(b1, max_entries) == Some("history index schema version is unsupported"@),
{
    vstd::bytes::lemma_auto_spec_u16_to_from_le_bytes();
    let p = payload_bytes(es);
    let b = index_bytes(es);
    lemma_index_fields(es.len() as u32, p);
    assert(b =~= header_of(es.len() as u32, p) + p);
    assert(b1.subrange(0, 8) =~= b.subrange(0, 8)) by {
        assert forall|k: int| 0 <= k < 8 implies b1.subrange(0, 8)[k] == b.subrange(0, 8)[k] by {
            assert(b1[k] == b[k]);
        }
    }
    if spec_u16_from_le_bytes(b1.subrange(8, 10)) == HISTORY_SCHEMA_VERSION {
        assert(spec_u16_to_le_bytes(spec_u16_from_le_bytes(b1.subrange(8, 10))) == b1.subrange(
            8,
            10,
        ));
        assert(b1.subrange(8, 10) == b.subrange(8, 10));
    }
}

/// A saved index whose checksum bytes are changed is refused as a checksum mismatch: every
/// other header field still holds, and no entry is read.
pub proof fn changed_checksum_is_refused(
    es: Seq<HistoryEntryView>,
    max_entries: usize,
    b2: Seq<u8>,
)
    requires
        encodable(es),
        es.len() <= 2 * max_entries,
        changed_only_within(index_bytes(es), b2, 20, 24),
    ensures
        header_refusal(b2, max_entries) == Some("history payload checksum is invalid"@),
{
    vstd::bytes::lemma_auto_spec_u16_to_from_le_bytes();
    vstd::bytes::lemma_auto_spec_u32_to_from_le_bytes();
    let p = payload_bytes(es);
    let b = index_bytes(es);
    lemma_index_fields(es.len() as u32, p);
    assert(b =~= header_of(es.len() as u32, p) + p);
    assert forall|lo: int, hi: int|
        0 <= lo <= hi <= 20 || 24 <= lo <= hi <= b.len() implies #[trigger] b2.subrange(lo, hi)
        == b.subrange(lo, hi) by {
        assert forall|k: int| 0 <= k < hi - lo implies b2.subrange(lo, hi)[k] == b.subrange(
            lo,
            hi,
        )[k] by {
            assert(b2[lo + k] == b[lo + k]);
        }
        assert(b2.subrange(lo, hi) =~= b.subrange(lo, hi));
    }
    assert(b2.subrange(0, 8) == b.subrange(0, 8));
    assert(b2.subrange(8, 10) == b.subrange(8, 10));
    assert(b2.subrange(10, 12) == b.subrange(10, 12));
    assert(b2.subrange(12, 16) == b.subrange(12, 16));
    assert(b2.subrange(16, 20) == b.subrange(16, 20));
    assert(b2.subrange(24, b2.len() as int) == b.subrange(24, b.len() as int));
    assert(spec_u32_from_le_bytes(le32(es.len() as u32)) == es.len() as u32);
    assert(spec_u32_from_le_bytes(le32(p.len() as u32)) == p.len() as u32);
    if crc32_of(b2.subrange(24, b2.len() as int)) == spec_u32_from_le_bytes(b2.subrange(20, 24)) {
        assert(spec_u32_to_le_bytes(spec_u32_from_le_bytes(b2.subrange(20, 24))) == b2.subrange(
            20,
            24,
        ));
        assert(b2.subrange(20, 24) == b.subrange(20, 24));
    }
}

/// What reading the index file found.
#[derive(Debug, Clone)]
pub enum HistoryLoad {
    /// No file yet: an empty history.
    Missing(Vec<HistoryEntry>),
    Loaded(Vec<HistoryEntry>),
    /// The file could not be read or decoded; it is left untouched.
    Invalid(String),
}

/// Where the history index lives and how much it may hold.
#[derive(Debug, Clone)]
pub struct HistoryStore {
    pub path: String,
    pub max_entries: usize,
    pub max_bytes: u64,
}

impl HistoryStore {
    /// `max_entries` is clamped to `1..=HISTORY_MAX_ENTRIES` and `max_bytes` to at least one.
    pub fn new(path: String, max_entries: usize, max_bytes: u64) -> (s: HistoryStore)
        ensures
            s.path@ == path@,
            s.max_entries == (if max_entries < 1 {
                1
            } else if max_entries > HISTORY_MAX_ENTRIES {
                HISTORY_MAX_ENTRIES
            } else {
                max_entries
            }),
            s.max_bytes == (if max_bytes < 1 {
                1
            } else {
                max_bytes
            }),
    {
        let max_entries = if max_entries < 1 {
            1
        } else if max_entries > HISTORY_MAX_ENTRIES {
            HISTORY_MAX_ENTRIES
        } else {
            max_entries
        };
        let max_bytes = if max_bytes < 1 {
            1
        } else {
            max_bytes
        };
        HistoryStore { path, max_entries, max_bytes }
    }

    pub fn path(&self) -> (p: &str)
        ensures
            p@ == self.path@,
    {
        self.path.as_str()
    }

    /// Interprets what reading the index file gave: `None` when there is no file.
    pub fn interpret(&self, contents: Option<&[u8]>) -> (load: HistoryLoad)
        ensures
            match contents {
                None => load matches HistoryLoad::Missing(es) && es@.len() == 0,
                Some(bytes) => match load {
                    HistoryLoad::Loaded(es) => index_bytes(entry_views(es@)) == bytes@
                        && decodable(entry_views(es@), self.max_entries),
                    HistoryLoad::Invalid(_) => !exists|es: Seq<HistoryEntryView>|
                        decodable(es, self.max_entries) && index_bytes(es) == bytes@,
                    HistoryLoad::Missing(_) => false,
                },
            },
            match contents {
                Some(bytes) => header_refusal(bytes@, self.max_entries) matches Some(m) ==> (load matches HistoryLoad::Invalid(
                    e,
                ) && e@ == m),
                None => true,
            },
    {
        match contents {
            None => HistoryLoad::Missing(Vec::new()),
            Some(bytes) => match decode(bytes, self.max_entries) {
                Ok(entries) => HistoryLoad::Loaded(entries),
                Err(error) => HistoryLoad::Invalid(error),
            },
        }
    }
}

} // verus!
