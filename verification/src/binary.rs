//! The container format: a fixed magic-tagged header, the text and data
//! sections each NUL-padded to sixteen bytes, then the relocation records and
//! the symbol records, every number little-endian.
//!
//! `container_bytes` serializes a generated object; `AuraBinaryHeader`
//! carries the header fields both ways, and parsing the serialized header
//! recovers every field exactly (see `lemma_header_round_trip` and
//! `lemma_container_layout`). Rendering a human-readable dump of a container
//! lives here too, as text bytes; callers print them.

use vstd::bytes::{
    spec_u16_from_le_bytes, spec_u16_to_le_bytes, spec_u64_from_le_bytes, spec_u64_to_le_bytes,
    u16_from_le_bytes, u16_to_le_bytes, u64_from_le_bytes, u64_to_le_bytes,
};
use vstd::prelude::*;
use vstd::slice::slice_subrange;

use crate::codegen::{
    relocs_view, syms_view, AuraObject, Relocation, RelocationKind, RelocationV, Symbol,
    SymbolKind, SymbolV, lemma_relocs_view, lemma_syms_view,
};

verus! {

/// The byte length of the fixed container header.
pub const HEADER_SIZE: usize = 80;

/// The largest section `container_bytes` accepts, so that the padded layout
/// arithmetic fits the machine word on any platform.
pub const MAX_SECTION: usize = 0xFFFF_FF00;

/// The header fields of a container, in their file order.
#[derive(Debug, Clone, Copy)]
pub struct AuraBinaryHeader {
    pub magic: [u8; 4],
    pub version: u8,
    pub flags: u8,
    pub reserved: u16,
    pub entry_point: u64,
    pub stack_size: u64,
    pub text_offset: u64,
    pub text_size: u64,
    pub data_offset: u64,
    pub data_size: u64,
    pub bss_size: u64,
    pub reloc_count: u64,
    pub symbol_count: u64,
}

/// The serialized form of a header: eighty bytes, little-endian fields.
pub open spec fn header_bytes(h: AuraBinaryHeader) -> Seq<u8> {
    h.magic@ + seq![h.version, h.flags] + spec_u16_to_le_bytes(h.reserved) + spec_u64_to_le_bytes(
        h.entry_point,
    ) + spec_u64_to_le_bytes(h.stack_size) + spec_u64_to_le_bytes(h.text_offset)
        + spec_u64_to_le_bytes(h.text_size) + spec_u64_to_le_bytes(h.data_offset)
        + spec_u64_to_le_bytes(h.data_size) + spec_u64_to_le_bytes(h.bss_size)
        + spec_u64_to_le_bytes(h.reloc_count) + spec_u64_to_le_bytes(h.symbol_count)
}

pub proof fn lemma_header_bytes_len(h: AuraBinaryHeader)
    ensures
        header_bytes(h).len() == HEADER_SIZE,
{
    vstd::bytes::lemma_auto_spec_u64_to_from_le_bytes();
    vstd::bytes::lemma_auto_spec_u16_to_from_le_bytes();
}

// The parsed value of each header field, at its file offset.
pub open spec fn parsed_magic(s: Seq<u8>) -> Seq<u8> {
    s.subrange(0, 4)
}

pub open spec fn parsed_version(s: Seq<u8>) -> u8 {
    s[4]
}

pub open spec fn parsed_flags(s: Seq<u8>) -> u8 {
    s[5]
}

pub open spec fn parsed_reserved(s: Seq<u8>) -> u16 {
    spec_u16_from_le_bytes(s.subrange(6, 8))
}

pub open spec fn parsed_u64(s: Seq<u8>, pos: int) -> u64 {
    spec_u64_from_le_bytes(s.subrange(pos, pos + 8))
}

pub open spec fn parsed_entry_point(s: Seq<u8>) -> u64 {
    parsed_u64(s, 8)
}

pub open spec fn parsed_stack_size(s: Seq<u8>) -> u64 {
    parsed_u64(s, 16)
}

pub open spec fn parsed_text_offset(s: Seq<u8>) -> u64 {
    parsed_u64(s, 24)
}

pub open spec fn parsed_text_size(s: Seq<u8>) -> u64 {
    parsed_u64(s, 32)
}

pub open spec fn parsed_data_offset(s: Seq<u8>) -> u64 {
    parsed_u64(s, 40)
}

pub open spec fn parsed_data_size(s: Seq<u8>) -> u64 {
    parsed_u64(s, 48)
}

pub open spec fn parsed_bss_size(s: Seq<u8>) -> u64 {
    parsed_u64(s, 56)
}

pub open spec fn parsed_reloc_count(s: Seq<u8>) -> u64 {
    parsed_u64(s, 64)
}

pub open spec fn parsed_symbol_count(s: Seq<u8>) -> u64 {
    parsed_u64(s, 72)
}

/// Serializing a header and parsing the bytes recovers every field.
pub proof fn lemma_header_round_trip(h: AuraBinaryHeader)
    ensures
        parsed_magic(header_bytes(h)) == h.magic@,
        parsed_version(header_bytes(h)) == h.version,
        parsed_flags(header_bytes(h)) == h.flags,
        parsed_reserved(header_bytes(h)) == h.reserved,
        parsed_entry_point(header_bytes(h)) == h.entry_point,
        parsed_stack_size(header_bytes(h)) == h.stack_size,
        parsed_text_offset(header_bytes(h)) == h.text_offset,
        parsed_text_size(header_bytes(h)) == h.text_size,
        parsed_data_offset(header_bytes(h)) == h.data_offset,
        parsed_data_size(header_bytes(h)) == h.data_size,
        parsed_bss_size(header_bytes(h)) == h.bss_size,
        parsed_reloc_count(header_bytes(h)) == h.reloc_count,
        parsed_symbol_count(header_bytes(h)) == h.symbol_count,
{
    vstd::bytes::lemma_auto_spec_u64_to_from_le_bytes();
    vstd::bytes::lemma_auto_spec_u16_to_from_le_bytes();
    let s = header_bytes(h);
    assert(s.subrange(0, 4) =~= h.magic@);
    assert(s.subrange(6, 8) =~= spec_u16_to_le_bytes(h.reserved));
    assert(s.subrange(8, 16) =~= spec_u64_to_le_bytes(h.entry_point));
    assert(s.subrange(16, 24) =~= spec_u64_to_le_bytes(h.stack_size));
    assert(s.subrange(24, 32) =~= spec_u64_to_le_bytes(h.text_offset));
    assert(s.subrange(32, 40) =~= spec_u64_to_le_bytes(h.text_size));
    assert(s.subrange(40, 48) =~= spec_u64_to_le_bytes(h.data_offset));
    assert(s.subrange(48, 56) =~= spec_u64_to_le_bytes(h.data_size));
    assert(s.subrange(56, 64) =~= spec_u64_to_le_bytes(h.bss_size));
    assert(s.subrange(64, 72) =~= spec_u64_to_le_bytes(h.reloc_count));
    assert(s.subrange(72, 80) =~= spec_u64_to_le_bytes(h.symbol_count));
}

impl AuraBinaryHeader {
    /// The eighty serialized bytes of this header.
    pub fn to_bytes(&self) -> (r: Vec<u8>)
        ensures
            r@ == header_bytes(*self),
    {
        let mut bytes: Vec<u8> = Vec::new();
        bytes.push(self.magic[0]);
        bytes.push(self.magic[1]);
        bytes.push(self.magic[2]);
        bytes.push(self.magic[3]);
        bytes.push(self.version);
        bytes.push(self.flags);
        let mut b16 = u16_to_le_bytes(self.reserved);
        bytes.append(&mut b16);
        let mut b = u64_to_le_bytes(self.entry_point);
        bytes.append(&mut b);
        let mut b = u64_to_le_bytes(self.stack_size);
        bytes.append(&mut b);
        let mut b = u64_to_le_bytes(self.text_offset);
        bytes.append(&mut b);
        let mut b = u64_to_le_bytes(self.text_size);
        bytes.append(&mut b);
        let mut b = u64_to_le_bytes(self.data_offset);
        bytes.append(&mut b);
        let mut b = u64_to_le_bytes(self.data_size);
        bytes.append(&mut b);
        let mut b = u64_to_le_bytes(self.bss_size);
        bytes.append(&mut b);
        let mut b = u64_to_le_bytes(self.reloc_count);
        bytes.append(&mut b);
        let mut b = u64_to_le_bytes(self.symbol_count);
        bytes.append(&mut b);
        proof {
            assert(self.magic@ =~= seq![
                self.magic[0],
                self.magic[1],
                self.magic[2],
                self.magic[3],
            ]);
            assert(bytes@ =~= header_bytes(*self));
        }
        bytes
    }

    /// Reads the header fields back out of serialized bytes.
    pub fn from_bytes(data: &[u8]) -> (h: AuraBinaryHeader)
        requires
            data@.len() >= HEADER_SIZE,
        ensures
            h.magic@ == parsed_magic(data@),
            h.version == parsed_version(data@),
            h.flags == parsed_flags(data@),
            h.reserved == parsed_reserved(data@),
            h.entry_point == parsed_entry_point(data@),
            h.stack_size == parsed_stack_size(data@),
            h.text_offset == parsed_text_offset(data@),
            h.text_size == parsed_text_size(data@),
            h.data_offset == parsed_data_offset(data@),
            h.data_size == parsed_data_size(data@),
            h.bss_size == parsed_bss_size(data@),
            h.reloc_count == parsed_reloc_count(data@),
            h.symbol_count == parsed_symbol_count(data@),
    {
        let magic = [data[0], data[1], data[2], data[3]];
        let version = data[4];
        let flags = data[5];
        let reserved = u16_from_le_bytes(slice_subrange(data, 6, 8));
        let entry_point = u64_from_le_bytes(slice_subrange(data, 8, 16));
        let stack_size = u64_from_le_bytes(slice_subrange(data, 16, 24));
        let text_offset = u64_from_le_bytes(slice_subrange(data, 24, 32));
        let text_size = u64_from_le_bytes(slice_subrange(data, 32, 40));
        let data_offset = u64_from_le_bytes(slice_subrange(data, 40, 48));
        let data_size = u64_from_le_bytes(slice_subrange(data, 48, 56));
        let bss_size = u64_from_le_bytes(slice_subrange(data, 56, 64));
        let reloc_count = u64_from_le_bytes(slice_subrange(data, 64, 72));
        let symbol_count = u64_from_le_bytes(slice_subrange(data, 72, 80));
        let h = AuraBinaryHeader {
            magic,
            version,
            flags,
            reserved,
            entry_point,
            stack_size,
            text_offset,
            text_size,
            data_offset,
            data_size,
            bss_size,
            reloc_count,
            symbol_count,
        };
        proof {
            assert(h.magic@ =~= parsed_magic(data@));
        }
        h
    }
}

/// `n` rounded up to the next multiple of sixteen.
pub open spec fn align16(n: int) -> int {
    ((n + 15) / 16) * 16
}

/// `n` zero bytes.
pub open spec fn zeros(n: int) -> Seq<u8> {
    Seq::new(n as nat, |i: int| 0u8)
}

/// The serialized form of a relocation record: the text offset, the name
/// length, the name bytes, one NUL, and the kind tag.
pub open spec fn reloc_record_bytes(r: RelocationV) -> Seq<u8> {
    spec_u64_to_le_bytes(r.offset as u64) + spec_u64_to_le_bytes(
        vstd::utf8::encode_utf8(r.symbol).len() as u64,
    ) + vstd::utf8::encode_utf8(r.symbol) + seq![0u8] + seq![reloc_kind_tag(r.kind)]
}

pub open spec fn reloc_kind_tag(k: RelocationKind) -> u8 {
    match k {
        RelocationKind::Absolute64 => 0,
        RelocationKind::Relative32 => 1,
        RelocationKind::Absolute32 => 2,
    }
}

/// The serialized form of a symbol record: the name length, the name bytes,
/// one NUL, the offset, the size, and the kind tag.
pub open spec fn symbol_record_bytes(s: SymbolV) -> Seq<u8> {
    spec_u64_to_le_bytes(vstd::utf8::encode_utf8(s.name).len() as u64) + vstd::utf8::encode_utf8(
        s.name,
    ) + seq![0u8] + spec_u64_to_le_bytes(s.offset) + spec_u64_to_le_bytes(s.size) + seq![
        symbol_kind_tag(s.kind),
    ]
}

pub open spec fn symbol_kind_tag(k: SymbolKind) -> u8 {
    match k {
        SymbolKind::Function => 0,
        SymbolKind::Data => 1,
        SymbolKind::Object => 2,
    }
}

pub open spec fn all_reloc_bytes(rs: Seq<RelocationV>) -> Seq<u8>
    decreases rs,
{
    if rs.len() == 0 {
        Seq::empty()
    } else {
        all_reloc_bytes(rs.drop_last()) + reloc_record_bytes(rs.last())
    }
}

pub open spec fn all_symbol_bytes(ss: Seq<SymbolV>) -> Seq<u8>
    decreases ss,
{
    if ss.len() == 0 {
        Seq::empty()
    } else {
        all_symbol_bytes(ss.drop_last()) + symbol_record_bytes(ss.last())
    }
}

/// The header an object serializes under.
pub open spec fn object_header(o: AuraObject) -> AuraBinaryHeader {
    AuraBinaryHeader {
        magic: [0x41u8, 0x55u8, 0x52u8, 0x41u8],
        version: 1,
        flags: 0,
        reserved: 0,
        entry_point: o.entry_point,
        stack_size: 4096,
        text_offset: HEADER_SIZE as u64,
        text_size: o.text@.len() as u64,
        data_offset: (HEADER_SIZE + align16(o.text@.len() as int)) as u64,
        data_size: o.data@.len() as u64,
        bss_size: o.bss_size as u64,
        reloc_count: o.relocations@.len() as u64,
        symbol_count: o.symbols@.len() as u64,
    }
}

/// The whole container: header, padded text, padded data, relocation
/// records, symbol records.
pub open spec fn container_bytes_spec(o: AuraObject) -> Seq<u8> {
    header_bytes(object_header(o)) + o.text@ + zeros(
        align16(o.text@.len() as int) - o.text@.len(),
    ) + o.data@ + zeros(align16(o.data@.len() as int) - o.data@.len()) + all_reloc_bytes(
        relocs_view(o.relocations@),
    ) + all_symbol_bytes(syms_view(o.symbols@))
}


/// Appends `n` zero bytes.
fn push_zeros(v: &mut Vec<u8>, n: usize)
    ensures
        final(v)@ == old(v)@ + zeros(n as int),
{
    let mut i: usize = 0;
    proof {
        assert(old(v)@ + zeros(0) =~= old(v)@);
    }
    while i < n
        invariant
            i <= n,
            v@ == old(v)@ + zeros(i as int),
        decreases n - i,
    {
        v.push(0);
        proof {
            assert(old(v)@ + zeros(i + 1) =~= (old(v)@ + zeros(i as int)).push(0u8));
        }
        i = i + 1;
    }
}

/// `n` rounded up to the next multiple of sixteen.
fn align_to_16(size: usize) -> (r: usize)
    requires
        size <= MAX_SECTION,
    ensures
        r == align16(size as int),
{
    ((size + 15) / 16) * 16
}

fn reloc_kind_tag_exec(k: RelocationKind) -> (r: u8)
    ensures
        r == reloc_kind_tag(k),
{
    match k {
        RelocationKind::Absolute64 => 0,
        RelocationKind::Relative32 => 1,
        RelocationKind::Absolute32 => 2,
    }
}

fn symbol_kind_tag_exec(k: SymbolKind) -> (r: u8)
    ensures
        r == symbol_kind_tag(k),
{
    match k {
        SymbolKind::Function => 0,
        SymbolKind::Data => 1,
        SymbolKind::Object => 2,
    }
}

impl Relocation {
    /// This record's serialized bytes.
    pub fn as_bytes(&self) -> (r: Vec<u8>)
        ensures
            r@ == reloc_record_bytes(self@),
    {
        let mut bytes: Vec<u8> = Vec::new();
        let mut b = u64_to_le_bytes(self.offset as u64);
        bytes.append(&mut b);
        let name_bytes = self.symbol.as_str().as_bytes_vec();
        let mut b = u64_to_le_bytes(name_bytes.len() as u64);
        bytes.append(&mut b);
        let mut nb = name_bytes;
        bytes.append(&mut nb);
        bytes.push(0);
        bytes.push(reloc_kind_tag_exec(self.kind));
        proof {
            assert(bytes@ =~= reloc_record_bytes(self@));
        }
        bytes
    }
}

impl Symbol {
    /// This record's serialized bytes.
    pub fn as_bytes(&self) -> (r: Vec<u8>)
        ensures
            r@ == symbol_record_bytes(self@),
    {
        let mut bytes: Vec<u8> = Vec::new();
        let name_bytes = self.name.as_str().as_bytes_vec();
        let mut b = u64_to_le_bytes(name_bytes.len() as u64);
        bytes.append(&mut b);
        let mut nb = name_bytes;
        bytes.append(&mut nb);
        bytes.push(0);
        let mut b = u64_to_le_bytes(self.offset);
        bytes.append(&mut b);
        let mut b = u64_to_le_bytes(self.size);
        bytes.append(&mut b);
        bytes.push(symbol_kind_tag_exec(self.kind));
        proof {
            assert(bytes@ =~= symbol_record_bytes(self@));
        }
        bytes
    }
}

/// Serializes a generated object into its container bytes.
#[verifier::spinoff_prover]
#[verifier::rlimit(60)]
pub fn container_bytes(object: &AuraObject) -> (r: Vec<u8>)
    requires
        object.text@.len() <= MAX_SECTION,
        object.data@.len() <= MAX_SECTION,
    ensures
        r@ == container_bytes_spec(*object),
{
    let text_size = object.text.len();
    let data_size = object.data.len();
    let header = AuraBinaryHeader {
        magic: [0x41, 0x55, 0x52, 0x41],
        version: 1,
        flags: 0,
        reserved: 0,
        entry_point: object.entry_point,
        stack_size: 4096,
        text_offset: HEADER_SIZE as u64,
        text_size: text_size as u64,
        data_offset: (HEADER_SIZE + align_to_16(text_size)) as u64,
        data_size: data_size as u64,
        bss_size: object.bss_size as u64,
        reloc_count: object.relocations.len() as u64,
        symbol_count: object.symbols.len() as u64,
    };
    proof {
        assert(header.magic@ =~= object_header(*object).magic@);
        assert(header_bytes(header) =~= header_bytes(object_header(*object)));
    }
    let mut out = header.to_bytes();
    crate::codegen::append_bytes(&mut out, &object.text);
    let text_pad = align_to_16(text_size) - text_size;
    push_zeros(&mut out, text_pad);
    crate::codegen::append_bytes(&mut out, &object.data);
    let data_pad = align_to_16(data_size) - data_size;
    push_zeros(&mut out, data_pad);
    let ghost base = out@;
    proof {
        lemma_relocs_view(object.relocations@);
        assert(relocs_view(object.relocations@).take(0) =~= Seq::<RelocationV>::empty());
        assert(base + all_reloc_bytes(relocs_view(object.relocations@).take(0)) =~= base);
    }
    let ghost rv = relocs_view(object.relocations@);
    let mut i: usize = 0;
    while i < object.relocations.len()
        invariant
            i <= object.relocations.len(),
            rv == relocs_view(object.relocations@),
            rv.len() == object.relocations@.len(),
            forall|j: int| 0 <= j < object.relocations@.len() ==> #[trigger] rv[j]
                == object.relocations@[j]@,
            out@ == base + all_reloc_bytes(rv.take(i as int)),
        decreases object.relocations.len() - i,
    {
        let mut record = object.relocations[i].as_bytes();
        out.append(&mut record);
        proof {
            assert(rv.take(i + 1).drop_last() =~= rv.take(i as int));
            assert(rv.take(i + 1).last() == rv[i as int]);
            assert(out@ =~= base + all_reloc_bytes(rv.take(i + 1)));
        }
        i = i + 1;
    }
    proof {
        assert(rv.take(rv.len() as int) =~= rv);
    }
    let ghost base2 = out@;
    proof {
        lemma_syms_view(object.symbols@);
        assert(syms_view(object.symbols@).take(0) =~= Seq::<SymbolV>::empty());
        assert(base2 + all_symbol_bytes(syms_view(object.symbols@).take(0)) =~= base2);
    }
    let ghost sv = syms_view(object.symbols@);
    let mut k: usize = 0;
    while k < object.symbols.len()
        invariant
            k <= object.symbols.len(),
            sv == syms_view(object.symbols@),
            sv.len() == object.symbols@.len(),
            forall|j: int| 0 <= j < object.symbols@.len() ==> #[trigger] sv[j]
                == object.symbols@[j]@,
            out@ == base2 + all_symbol_bytes(sv.take(k as int)),
        decreases object.symbols.len() - k,
    {
        let mut record = object.symbols[k].as_bytes();
        out.append(&mut record);
        proof {
            assert(sv.take(k + 1).drop_last() =~= sv.take(k as int));
            assert(sv.take(k + 1).last() == sv[k as int]);
            assert(out@ =~= base2 + all_symbol_bytes(sv.take(k + 1)));
        }
        k = k + 1;
    }
    proof {
        assert(sv.take(sv.len() as int) =~= sv);
        assert(out@ =~= container_bytes_spec(*object));
    }
    out
}

/// The padded text region ends where the data region begins, and the padded
/// data region ends where the relocation records begin: parsing the
/// serialized header recovers the layout exactly.
pub proof fn lemma_container_layout(o: AuraObject)
    requires
        o.text@.len() <= MAX_SECTION,
        o.data@.len() <= MAX_SECTION,
    ensures
        parsed_text_offset(container_bytes_spec(o)) == HEADER_SIZE as u64,
        parsed_text_size(container_bytes_spec(o)) == o.text@.len() as u64,
        parsed_data_size(container_bytes_spec(o)) == o.data@.len() as u64,
        parsed_data_offset(container_bytes_spec(o)) == parsed_text_offset(
            container_bytes_spec(o),
        ) + align16(parsed_text_size(container_bytes_spec(o)) as int),
        container_bytes_spec(o).skip(
            parsed_data_offset(container_bytes_spec(o)) + align16(
                parsed_data_size(container_bytes_spec(o)) as int,
            ),
        ) == all_reloc_bytes(relocs_view(o.relocations@)) + all_symbol_bytes(
            syms_view(o.symbols@),
        ),
{
    let hdr = object_header(o);
    lemma_header_bytes_len(hdr);
    lemma_header_round_trip(hdr);
    let s = container_bytes_spec(o);
    let tl = o.text@.len() as int;
    let dl = o.data@.len() as int;
    assert(align16(tl) >= tl && align16(tl) <= tl + 15);
    assert(align16(dl) >= dl && align16(dl) <= dl + 15);
    assert(s.subrange(0, HEADER_SIZE as int) =~= header_bytes(hdr));
    assert(s.subrange(24, 32) =~= header_bytes(hdr).subrange(24, 32));
    assert(s.subrange(32, 40) =~= header_bytes(hdr).subrange(32, 40));
    assert(s.subrange(40, 48) =~= header_bytes(hdr).subrange(40, 48));
    assert(s.subrange(48, 56) =~= header_bytes(hdr).subrange(48, 56));
    assert(parsed_text_offset(s) == hdr.text_offset);
    assert(parsed_text_size(s) == hdr.text_size);
    assert(parsed_data_offset(s) == hdr.data_offset);
    assert(parsed_data_size(s) == hdr.data_size);
    assert(s.skip(HEADER_SIZE + align16(tl) + align16(dl)) =~= all_reloc_bytes(
        relocs_view(o.relocations@),
    ) + all_symbol_bytes(syms_view(o.symbols@)));
}


// ---------------------------------------------------------------------------
// The human-readable dump of a container.
// ---------------------------------------------------------------------------

pub open spec fn hex_digit_char(d: nat) -> char {
    if d == 0 {
        '0'
    } else if d == 1 {
        '1'
    } else if d == 2 {
        '2'
    } else if d == 3 {
        '3'
    } else if d == 4 {
        '4'
    } else if d == 5 {
        '5'
    } else if d == 6 {
        '6'
    } else if d == 7 {
        '7'
    } else if d == 8 {
        '8'
    } else if d == 9 {
        '9'
    } else if d == 10 {
        'a'
    } else if d == 11 {
        'b'
    } else if d == 12 {
        'c'
    } else if d == 13 {
        'd'
    } else if d == 14 {
        'e'
    } else {
        'f'
    }
}

/// `n` in lowercase hex, zero-padded to at least `w` digits.
pub open spec fn hex_chars(n: nat, w: nat) -> Seq<char>
    decreases n + w,
{
    if n < 16 && w <= 1 {
        seq![hex_digit_char(n)]
    } else {
        hex_chars(n / 16, (if w == 0 {
            0
        } else {
            (w - 1) as nat
        })) + seq![hex_digit_char(n % 16)]
    }
}

pub open spec fn spaces(n: int) -> Seq<char> {
    Seq::new(n as nat, |i: int| ' ')
}

/// One chunk's bytes in two-digit hex, joined by single spaces.
pub open spec fn hex_group(chunk: Seq<u8>) -> Seq<char>
    decreases chunk,
{
    if chunk.len() == 0 {
        Seq::empty()
    } else if chunk.len() == 1 {
        hex_chars(chunk[0] as nat, 2)
    } else {
        hex_chars(chunk[0] as nat, 2) + seq![' '] + hex_group(chunk.drop_first())
    }
}

pub open spec fn pad_to_48(s: Seq<char>) -> Seq<char> {
    if s.len() < 48 {
        s + spaces(48 - s.len())
    } else {
        s
    }
}

pub open spec fn hex_line(offset: nat, chunk: Seq<u8>) -> Seq<char> {
    hex_chars(offset, 8) + ": "@ + pad_to_48(hex_group(chunk)) + "\n"@
}

/// A section in lines of sixteen bytes, offsets climbing by sixteen.
pub open spec fn hex_lines(data: Seq<u8>, offset: nat) -> Seq<char>
    decreases data.len(),
{
    if data.len() == 0 {
        Seq::empty()
    } else if data.len() <= 16 {
        hex_line(offset, data)
    } else {
        hex_line(offset, data.take(16)) + hex_lines(data.skip(16), offset + 16)
    }
}

pub open spec fn aura_magic() -> Seq<u8> {
    seq![0x41u8, 0x55u8, 0x52u8, 0x41u8]
}

/// Whether a section of `size` bytes starting at `off` lies inside `len`.
pub open spec fn section_in_range(off: u64, size: u64, len: int) -> bool {
    size > 0 && off <= len && size <= len - off
}

/// The section part of the dump, when the header places it in range.
pub open spec fn section_chars(banner: Seq<char>, data: Seq<u8>, off: u64, size: u64) -> Seq<
    char,
> {
    if section_in_range(off, size, data.len() as int) {
        banner + crate::typecheck::dec_chars(size as nat) + " bytes) ===\n"@ + hex_lines(
            data.subrange(off as int, off + size),
            0,
        )
    } else {
        Seq::empty()
    }
}

/// The header part of the dump text.
pub open spec fn dump_header_chars(data: Seq<u8>) -> Seq<char> {
    "=== Aura Binary Dump ===\n"@ + "Magic: "@ + (if parsed_magic(data) == aura_magic() {
        "AURA"@
    } else {
        "INVALID"@
    }) + "\n"@ + "Version: "@ + crate::typecheck::dec_chars(parsed_version(data) as nat)
        + "\n"@ + "Entry Point: 0x"@ + hex_chars(parsed_entry_point(data) as nat, 16) + "\n"@
        + "Stack Size: "@ + crate::typecheck::dec_chars(parsed_stack_size(data) as nat) + "\n"@
        + "Text Offset: "@ + crate::typecheck::dec_chars(parsed_text_offset(data) as nat)
        + ", Size: "@ + crate::typecheck::dec_chars(parsed_text_size(data) as nat) + "\n"@
        + "Data Offset: "@ + crate::typecheck::dec_chars(parsed_data_offset(data) as nat)
        + ", Size: "@ + crate::typecheck::dec_chars(parsed_data_size(data) as nat) + "\n"@
        + "BSS Size: "@ + crate::typecheck::dec_chars(parsed_bss_size(data) as nat)
        + "\n"@ + "Relocations: "@ + crate::typecheck::dec_chars(parsed_reloc_count(data) as nat)
        + "\n"@ + "Symbols: "@ + crate::typecheck::dec_chars(parsed_symbol_count(data) as nat)
        + "\n"@
}

/// The full dump text of a container's bytes.
pub open spec fn dump_chars(data: Seq<u8>) -> Seq<char> {
    if data.len() < HEADER_SIZE {
        "File too small for header\n"@
    } else {
        dump_header_chars(data) + section_chars(
            "\n=== Text Section ("@,
            data,
            parsed_text_offset(data),
            parsed_text_size(data),
        ) + section_chars(
            "\n=== Data Section ("@,
            data,
            parsed_data_offset(data),
            parsed_data_size(data),
        )
    }
}

fn hex_digit_string(d: u64) -> (s: String)
    requires
        d < 16,
    ensures
        s@ == seq![hex_digit_char(d as nat)],
    decreases d,
{
    let lit = if d == 0 {
        "0"
    } else if d == 1 {
        "1"
    } else if d == 2 {
        "2"
    } else if d == 3 {
        "3"
    } else if d == 4 {
        "4"
    } else if d == 5 {
        "5"
    } else if d == 6 {
        "6"
    } else if d == 7 {
        "7"
    } else if d == 8 {
        "8"
    } else if d == 9 {
        "9"
    } else if d == 10 {
        "a"
    } else if d == 11 {
        "b"
    } else if d == 12 {
        "c"
    } else if d == 13 {
        "d"
    } else if d == 14 {
        "e"
    } else {
        "f"
    };
    proof {
        reveal_strlit("0");
        reveal_strlit("1");
        reveal_strlit("2");
        reveal_strlit("3");
        reveal_strlit("4");
        reveal_strlit("5");
        reveal_strlit("6");
        reveal_strlit("7");
        reveal_strlit("8");
        reveal_strlit("9");
        reveal_strlit("a");
        reveal_strlit("b");
        reveal_strlit("c");
        reveal_strlit("d");
        reveal_strlit("e");
        reveal_strlit("f");
    }
    String::from_str(lit)
}

/// Renders `n` in lowercase hex, zero-padded to at least `w` digits.
pub fn hex_string(n: u64, w: usize) -> (s: String)
    ensures
        s@ == hex_chars(n as nat, w as nat),
    decreases n + w,
{
    if n < 16 && w <= 1 {
        hex_digit_string(n)
    } else {
        let rest = if w == 0 {
            0
        } else {
            w - 1
        };
        let mut s = hex_string(n / 16, rest);
        let d = hex_digit_string(n % 16);
        s.append(d.as_str());
        s
    }
}


/// Appends `n` spaces.
fn append_spaces(s: &mut String, n: usize)
    ensures
        final(s)@ == old(s)@ + spaces(n as int),
{
    proof {
        reveal_strlit(" ");
        assert(old(s)@ + spaces(0) =~= old(s)@);
    }
    let mut i: usize = 0;
    while i < n
        invariant
            i <= n,
            s@ == old(s)@ + spaces(i as int),
        decreases n - i,
    {
        s.append(" ");
        proof {
            reveal_strlit(" ");
            assert(old(s)@ + spaces(i + 1) =~= (old(s)@ + spaces(i as int)).push(' '));
        }
        i = i + 1;
    }
}

/// One chunk's bytes in two-digit hex, joined by single spaces.
fn hex_group_string(data: &Vec<u8>, lo: usize, hi: usize) -> (s: String)
    requires
        lo <= hi <= data@.len(),
    ensures
        s@ == hex_group(data@.subrange(lo as int, hi as int)),
    decreases hi - lo,
{
    if lo == hi {
        let s = String::new();
        proof {
            assert(data@.subrange(lo as int, hi as int).len() == 0);
        }
        s
    } else if hi - lo == 1 {
        let s = hex_string(data[lo] as u64, 2);
        proof {
            assert(data@.subrange(lo as int, hi as int)[0] == data@[lo as int]);
        }
        s
    } else {
        let mut s = hex_string(data[lo] as u64, 2);
        proof {
            reveal_strlit(" ");
        }
        s.append(" ");
        let rest = hex_group_string(data, lo + 1, hi);
        s.append(rest.as_str());
        proof {
            reveal_strlit(" ");
            let chunk = data@.subrange(lo as int, hi as int);
            assert(chunk[0] == data@[lo as int]);
            assert(chunk.drop_first() =~= data@.subrange(lo + 1, hi as int));
            assert(" "@ =~= seq![' ']);
            assert(s@ =~= hex_group(chunk));
        }
        s
    }
}

proof fn lemma_hex_chars_pair(n: nat)
    ensures
        n < 256 ==> hex_chars(n, 2).len() == 2,
{
    if n < 256 {
        assert(hex_chars(n / 16, 1).len() == 1);
    }
}

proof fn lemma_hex_group_len(chunk: Seq<u8>)
    ensures
        hex_group(chunk).len() == (if chunk.len() == 0 {
            0int
        } else {
            3 * chunk.len() - 1
        }),
    decreases chunk,
{
    if chunk.len() > 0 {
        lemma_hex_chars_pair(chunk[0] as nat);
        if chunk.len() > 1 {
            lemma_hex_group_len(chunk.drop_first());
        }
    }
}

/// One dump line: the offset, a colon, the padded hex bytes.
fn hex_line_string(offset: u64, data: &Vec<u8>, lo: usize, hi: usize) -> (s: String)
    requires
        lo <= hi <= data@.len(),
        hi - lo <= 16,
    ensures
        s@ == hex_line(offset as nat, data@.subrange(lo as int, hi as int)),
{
    let mut s = hex_string(offset, 8);
    s.append(": ");
    let group = hex_group_string(data, lo, hi);
    s.append(group.as_str());
    proof {
        lemma_hex_group_len(data@.subrange(lo as int, hi as int));
    }
    let k = hi - lo;
    let group_len: usize = if k == 0 {
        0
    } else {
        3 * k - 1
    };
    if group_len < 48 {
        append_spaces(&mut s, 48 - group_len);
    }
    s.append("\n");
    proof {
        assert(s@ =~= hex_line(offset as nat, data@.subrange(lo as int, hi as int)));
    }
    s
}

/// A section rendered in lines of sixteen bytes.
fn hex_lines_string(data: &Vec<u8>, lo: usize, hi: usize, offset: u64) -> (s: String)
    requires
        lo <= hi <= data@.len(),
        offset + (hi - lo) <= u64::MAX,
    ensures
        s@ == hex_lines(data@.subrange(lo as int, hi as int), offset as nat),
    decreases hi - lo,
{
    if lo == hi {
        String::new()
    } else if hi - lo <= 16 {
        hex_line_string(offset, data, lo, hi)
    } else {
        let mut s = hex_line_string(offset, data, lo, lo + 16);
        let rest = hex_lines_string(data, lo + 16, hi, offset + 16);
        s.append(rest.as_str());
        proof {
            let chunk = data@.subrange(lo as int, hi as int);
            assert(chunk.take(16) =~= data@.subrange(lo as int, lo + 16));
            assert(chunk.skip(16) =~= data@.subrange(lo + 16, hi as int));
            assert(s@ =~= hex_lines(chunk, offset as nat));
        }
        s
    }
}

/// The header part of the dump text.
#[verifier::spinoff_prover]
#[verifier::rlimit(100)]
fn render_header_text(data: &Vec<u8>) -> (s: String)
    requires
        data@.len() >= HEADER_SIZE,
    ensures
        s@ == dump_header_chars(data@),
{
    let header = AuraBinaryHeader::from_bytes(data.as_slice());
    let magic_ok = data[0] == 0x41 && data[1] == 0x55 && data[2] == 0x52 && data[3] == 0x41;
    proof {
        assert(parsed_magic(data@) =~= seq![data@[0], data@[1], data@[2], data@[3]]);
        assert(aura_magic() =~= seq![0x41u8, 0x55u8, 0x52u8, 0x41u8]);
        assert(magic_ok == (parsed_magic(data@) == aura_magic()));
    }
    let mut s = String::from_str("=== Aura Binary Dump ===\n");
    s.append("Magic: ");
    if magic_ok {
        s.append("AURA");
    } else {
        s.append("INVALID");
    }
    s.append("\n");
    s.append("Version: ");
    let d = crate::typecheck::dec_string(header.version as u64);
    s.append(d.as_str());
    s.append("\n");
    s.append("Entry Point: 0x");
    let h = hex_string(header.entry_point, 16);
    s.append(h.as_str());
    s.append("\n");
    s.append("Stack Size: ");
    let d = crate::typecheck::dec_string(header.stack_size);
    s.append(d.as_str());
    s.append("\n");
    s.append("Text Offset: ");
    let d = crate::typecheck::dec_string(header.text_offset);
    s.append(d.as_str());
    s.append(", Size: ");
    let d = crate::typecheck::dec_string(header.text_size);
    s.append(d.as_str());
    s.append("\n");
    s.append("Data Offset: ");
    let d = crate::typecheck::dec_string(header.data_offset);
    s.append(d.as_str());
    s.append(", Size: ");
    let d = crate::typecheck::dec_string(header.data_size);
    s.append(d.as_str());
    s.append("\n");
    s.append("BSS Size: ");
    let d = crate::typecheck::dec_string(header.bss_size);
    s.append(d.as_str());
    s.append("\n");
    s.append("Relocations: ");
    let d = crate::typecheck::dec_string(header.reloc_count);
    s.append(d.as_str());
    s.append("\n");
    s.append("Symbols: ");
    let d = crate::typecheck::dec_string(header.symbol_count);
    s.append(d.as_str());
    s.append("\n");
    proof {
        assert(s@ =~= dump_header_chars(data@));
    }
    s
}

/// The container inspector: renders the header fields and the hex dump of
/// the text and data sections as one text.
pub struct AuraBinary;

impl AuraBinary {
    /// The dump text of a container's bytes.
    #[verifier::spinoff_prover]
    #[verifier::rlimit(100)]
    pub fn render(data: &Vec<u8>) -> (s: String)
        ensures
            s@ == dump_chars(data@),
    {
        if data.len() < HEADER_SIZE {
            return String::from_str("File too small for header\n");
        }
        let mut s = render_header_text(data);
        let header = AuraBinaryHeader::from_bytes(data.as_slice());
        let l = data.len() as u64;
        if header.text_size > 0 && header.text_offset <= l && header.text_size <= l
            - header.text_offset {
            s.append("\n=== Text Section (");
            let d = crate::typecheck::dec_string(header.text_size);
            s.append(d.as_str());
            s.append(" bytes) ===\n");
            let lo = header.text_offset as usize;
            let hi = lo + (header.text_size as usize);
            let lines = hex_lines_string(data, lo, hi, 0);
            s.append(lines.as_str());
        }
        if header.data_size > 0 && header.data_offset <= l && header.data_size <= l
            - header.data_offset {
            s.append("\n=== Data Section (");
            let d = crate::typecheck::dec_string(header.data_size);
            s.append(d.as_str());
            s.append(" bytes) ===\n");
            let lo = header.data_offset as usize;
            let hi = lo + (header.data_size as usize);
            let lines = hex_lines_string(data, lo, hi, 0);
            s.append(lines.as_str());
        }
        proof {
            assert(s@ =~= dump_chars(data@));
        }
        s
    }
}


/// Generation is deterministic: any two objects that meet the generator's
/// contract for one program agree on every section, table and field, and
/// serialize to byte-identical containers.
pub proof fn lemma_generate_deterministic(
    p: crate::ast::Program,
    o1: AuraObject,
    o2: AuraObject,
)
    requires
        crate::codegen::gen_program(p) matches Ok(st) && o1.text@ == st.text && o1.data@
            == st.data && o1.bss_size == st.bss_size && relocs_view(o1.relocations@)
            == st.relocations && syms_view(o1.symbols@) == st.symbols && o1.entry_point
            == st.entry_point,
        crate::codegen::gen_program(p) matches Ok(st) && o2.text@ == st.text && o2.data@
            == st.data && o2.bss_size == st.bss_size && relocs_view(o2.relocations@)
            == st.relocations && syms_view(o2.symbols@) == st.symbols && o2.entry_point
            == st.entry_point,
    ensures
        o1.text@ == o2.text@,
        o1.data@ == o2.data@,
        o1.bss_size == o2.bss_size,
        o1.entry_point == o2.entry_point,
        relocs_view(o1.relocations@) == relocs_view(o2.relocations@),
        syms_view(o1.symbols@) == syms_view(o2.symbols@),
        container_bytes_spec(o1) == container_bytes_spec(o2),
{
    lemma_relocs_view(o1.relocations@);
    lemma_relocs_view(o2.relocations@);
    lemma_syms_view(o1.symbols@);
    lemma_syms_view(o2.symbols@);
    assert(container_bytes_spec(o1) =~= container_bytes_spec(o2));
}

} // verus!
