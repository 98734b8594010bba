//! The code generator: walks a type-checked program in definition order and
//! emits x86-64 machine bytes into a text section, literal and constant bytes
//! into a data section, an uninitialized-byte counter, and the symbol and
//! relocation tables of the container.
//!
//! The generator is specified by the spec functions `gen_expr`, `gen_stmt`,
//! `gen_item` and `gen_program` over the mathematical state [`Cg`]; the
//! executable [`generate`] entry point is proved to produce exactly the bytes
//! they describe. Local variables live in data-section slots of eight bytes,
//! addressed from the fixed data-segment base; a data or bss section that
//! would outgrow [`DATA_CAPACITY`] is rejected, so every computed absolute
//! address fits its word.

use vstd::bytes::{spec_u16_to_le_bytes, spec_u32_to_le_bytes, spec_u64_to_le_bytes};
use vstd::prelude::*;

use crate::ast::{
    ConstDecl, ConstStmt, Expr, Function, FunctionAttribute, IntSuffix, Item, LetStmt, Literal,
    Program, Stmt, Type, VarDecl,
};
use crate::typecheck::{dec_chars, dec_string};

verus! {

/// A failure of code generation, as a one-line message.
#[derive(Debug)]
pub struct CodegenError {
    pub message: String,
}

/// The mathematical value of a generation failure.
#[verifier::ext_equal]
pub struct CgErr {
    pub message: Seq<char>,
}

impl View for CodegenError {
    type V = CgErr;

    open spec fn view(&self) -> CgErr {
        CgErr { message: self.message@ }
    }
}

/// The generator's output: machine bytes, constant bytes, the uninitialized
/// size, and the relocation and symbol tables of the container.
#[derive(Debug)]
pub struct AuraObject {
    pub entry_point: u64,
    pub text: Vec<u8>,
    pub data: Vec<u8>,
    pub bss_size: usize,
    pub relocations: Vec<Relocation>,
    pub symbols: Vec<Symbol>,
}

/// An unresolved symbol reference at a byte offset in the text section.
#[derive(Debug)]
pub struct Relocation {
    pub offset: usize,
    pub symbol: String,
    pub kind: RelocationKind,
}

#[derive(Debug, Clone, Copy, PartialEq, Eq, Structural)]
pub enum RelocationKind {
    Absolute64,
    Relative32,
    Absolute32,
}

/// A named, sized region of the text section (a function) or of the data
/// section (a constant), exported in the container's symbol table.
#[derive(Debug)]
pub struct Symbol {
    pub name: String,
    pub offset: u64,
    pub size: u64,
    pub kind: SymbolKind,
}

#[derive(Debug, Clone, Copy, PartialEq, Eq, Structural)]
pub enum SymbolKind {
    Function,
    Data,
    Object,
}

/// The mathematical value of a relocation record.
#[verifier::ext_equal]
pub struct RelocationV {
    pub offset: usize,
    pub symbol: Seq<char>,
    pub kind: RelocationKind,
}

impl View for Relocation {
    type V = RelocationV;

    open spec fn view(&self) -> RelocationV {
        RelocationV { offset: self.offset, symbol: self.symbol@, kind: self.kind }
    }
}

/// The mathematical value of a symbol record.
#[verifier::ext_equal]
pub struct SymbolV {
    pub name: Seq<char>,
    pub offset: u64,
    pub size: u64,
    pub kind: SymbolKind,
}

impl View for Symbol {
    type V = SymbolV;

    open spec fn view(&self) -> SymbolV {
        SymbolV { name: self.name@, offset: self.offset, size: self.size, kind: self.kind }
    }
}

pub open spec fn relocs_view(s: Seq<Relocation>) -> Seq<RelocationV>
    decreases s,
{
    if s.len() == 0 {
        Seq::empty()
    } else {
        relocs_view(s.drop_last()).push(s.last()@)
    }
}

pub proof fn lemma_relocs_view(s: Seq<Relocation>)
    ensures
        relocs_view(s).len() == s.len(),
        forall|i: int| 0 <= i < s.len() ==> #[trigger] relocs_view(s)[i] == s[i]@,
    decreases s,
{
    if s.len() > 0 {
        lemma_relocs_view(s.drop_last());
    }
}

pub proof fn lemma_relocs_view_push(s: Seq<Relocation>, x: Relocation)
    ensures
        relocs_view(s.push(x)) == relocs_view(s).push(x@),
{
    assert(s.push(x).drop_last() =~= s);
    assert(s.push(x).last() == x);
}

pub open spec fn syms_view(s: Seq<Symbol>) -> Seq<SymbolV>
    decreases s,
{
    if s.len() == 0 {
        Seq::empty()
    } else {
        syms_view(s.drop_last()).push(s.last()@)
    }
}

pub proof fn lemma_syms_view(s: Seq<Symbol>)
    ensures
        syms_view(s).len() == s.len(),
        forall|i: int| 0 <= i < s.len() ==> #[trigger] syms_view(s)[i] == s[i]@,
    decreases s,
{
    if s.len() > 0 {
        lemma_syms_view(s.drop_last());
    }
}

pub proof fn lemma_syms_view_push(s: Seq<Symbol>, x: Symbol)
    ensures
        syms_view(s.push(x)) == syms_view(s).push(x@),
{
    assert(s.push(x).drop_last() =~= s);
    assert(s.push(x).last() == x);
}

pub open spec fn vars_view(s: Seq<(String, u64)>) -> Seq<(Seq<char>, u64)>
    decreases s,
{
    if s.len() == 0 {
        Seq::empty()
    } else {
        vars_view(s.drop_last()).push((s.last().0@, s.last().1))
    }
}

pub proof fn lemma_vars_view(s: Seq<(String, u64)>)
    ensures
        vars_view(s).len() == s.len(),
        forall|i: int| 0 <= i < s.len() ==> #[trigger] vars_view(s)[i] == (s[i].0@, s[i].1),
    decreases s,
{
    if s.len() > 0 {
        lemma_vars_view(s.drop_last());
    }
}

pub proof fn lemma_vars_view_push(s: Seq<(String, u64)>, x: (String, u64))
    ensures
        vars_view(s.push(x)) == vars_view(s).push((x.0@, x.1)),
{
    assert(s.push(x).drop_last() =~= s);
    assert(s.push(x).last() == x);
}

/// The largest data or bss section the generator will emit. Every data
/// offset then fits comfortably under the fixed segment base arithmetic.
pub const DATA_CAPACITY: usize = 0xFFFF_FFFF;

/// The fixed base address the generator assumes for the data segment.
pub const DATA_SEGMENT_BASE: u64 = 0x0100_0000;

/// The mathematical state of one generation run.
#[verifier::ext_equal]
pub struct Cg {
    pub text: Seq<u8>,
    pub data: Seq<u8>,
    pub bss_size: nat,
    pub relocations: Seq<RelocationV>,
    pub symbols: Seq<SymbolV>,
    pub entry_point: u64,
    pub entry_point_name: Option<Seq<char>>,
    pub variables: Seq<(Seq<char>, u64)>,
}

/// The bounds the generator maintains, so that every absolute data address
/// and every size computation fits its machine word.
pub open spec fn cg_wf(st: Cg) -> bool {
    &&& st.data.len() <= DATA_CAPACITY
    &&& st.bss_size <= DATA_CAPACITY
    &&& forall|i: int|
        0 <= i < st.symbols.len() && (#[trigger] st.symbols[i]).kind == SymbolKind::Data
            ==> st.symbols[i].offset <= DATA_CAPACITY as u64
    &&& forall|i: int| 0 <= i < st.variables.len() ==> (#[trigger] st.variables[i]).1
        <= DATA_CAPACITY as u64
}

/// The absolute address of a data-section offset.
pub open spec fn data_address(offset: u64) -> u64 {
    (DATA_SEGMENT_BASE + offset) as u64
}

// ---------------------------------------------------------------------------
// Instruction encodings, as byte sequences.
// ---------------------------------------------------------------------------

pub open spec fn mov_rax_imm_bytes(v: u64) -> Seq<u8> {
    seq![0x48u8, 0xb8u8] + spec_u64_to_le_bytes(v)
}

pub open spec fn mov_rdi_imm_bytes(v: u64) -> Seq<u8> {
    seq![0x48u8, 0xbfu8] + spec_u64_to_le_bytes(v)
}

pub open spec fn mov_rsi_imm_bytes(v: u64) -> Seq<u8> {
    seq![0x48u8, 0xbeu8] + spec_u64_to_le_bytes(v)
}

pub open spec fn mov_rdx_imm_bytes(v: u64) -> Seq<u8> {
    seq![0x48u8, 0xbau8] + spec_u64_to_le_bytes(v)
}

pub open spec fn mov_r10_imm_bytes(v: u64) -> Seq<u8> {
    seq![0x49u8, 0xbau8] + spec_u64_to_le_bytes(v)
}

pub open spec fn xor_rax_rax_bytes() -> Seq<u8> {
    seq![0x48u8, 0x31u8, 0xc0u8]
}

pub open spec fn ret_bytes() -> Seq<u8> {
    seq![0xc3u8]
}

pub open spec fn syscall_bytes() -> Seq<u8> {
    seq![0x0fu8, 0x05u8]
}

/// `mov rax, [rax]`, issued after the absolute address was loaded into `rax`.
pub open spec fn mov_rax_from_mem_bytes(addr: u64) -> Seq<u8> {
    mov_rax_imm_bytes(addr) + seq![0x48u8, 0x8bu8, 0x00u8]
}

/// `mov [r10], rax`.
pub open spec fn mov_rax_to_r10_bytes() -> Seq<u8> {
    seq![0x49u8, 0x89u8, 0x02u8]
}

/// `mov rax, [r10]` in its register-form encoding.
pub open spec fn mov_rax_from_r10_bytes() -> Seq<u8> {
    seq![0x49u8, 0x8bu8, 0xc2u8]
}

/// `mov rdi, rax`.
pub open spec fn mov_rdi_rax_bytes() -> Seq<u8> {
    seq![0x48u8, 0x89u8, 0xc7u8]
}

/// A width-aware immediate move into the accumulator: `mov al, imm8` up to
/// eight bits, `mov ax, imm16` up to sixteen, `mov eax, imm32` up to
/// thirty-two, else `mov rax, imm64`.
pub open spec fn imm_bytes(v: u64, bits: u8) -> Seq<u8> {
    if 1 <= bits && bits <= 8 {
        seq![0xb0u8, v as u8]
    } else if 9 <= bits && bits <= 16 {
        seq![0x66u8, 0xb8u8] + spec_u16_to_le_bytes(v as u16)
    } else if 17 <= bits && bits <= 32 {
        seq![0xb8u8] + spec_u32_to_le_bytes(v as u32)
    } else {
        seq![0x48u8, 0xb8u8] + spec_u64_to_le_bytes(v)
    }
}

/// The bit mask of a width: all ones at and above sixty-four bits.
pub open spec fn mask_spec(bits: u8) -> u64 {
    if bits >= 64 {
        0xFFFF_FFFF_FFFF_FFFFu64
    } else {
        ((1u64 << bits) - 1) as u64
    }
}

/// `and rax, imm32` with the low thirty-two bits of the width's mask; no
/// instruction at sixty-four bits and beyond, where the mask is the identity.
pub open spec fn mask_rax_bytes(bits: u8) -> Seq<u8> {
    if bits < 64 {
        seq![0x48u8, 0x25u8] + spec_u32_to_le_bytes(mask_spec(bits) as u32)
    } else {
        Seq::empty()
    }
}

/// The conversion sequence a cast to `t` lowers to: sign- or zero-extension
/// for the one- and two-byte integers, nothing for the four- and eight-byte
/// ones, a mask for a bit-precise width, and nothing for any other type.
pub open spec fn cast_bytes(t: Type) -> Seq<u8> {
    match t {
        Type::I8 => seq![0x0fu8, 0xbeu8, 0xc0u8],
        Type::U8 => seq![0x0fu8, 0xb6u8, 0xc0u8],
        Type::I16 => seq![0x0fu8, 0xbfu8, 0xc0u8],
        Type::U16 => seq![0x0fu8, 0xb7u8, 0xc0u8],
        Type::I32 | Type::U32 => Seq::empty(),
        Type::I64 | Type::U64 => Seq::empty(),
        Type::BitInt(bits, _) => mask_rax_bytes(bits),
        _ => Seq::empty(),
    }
}

/// The bytes of a call through one of the two allocator intrinsics resident
/// in `r14` and `r15`; any other symbol is an indirect `call [rip+disp32]`
/// with a 32-bit relative relocation at the displacement.
pub open spec fn call_external_spec(st: Cg, symbol: Seq<char>) -> Cg {
    if symbol == "__aura_alloc"@ {
        Cg { text: st.text + seq![0x41u8, 0xffu8, 0xd6u8], ..st }
    } else if symbol == "__aura_free"@ {
        Cg { text: st.text + seq![0x41u8, 0xffu8, 0xd7u8], ..st }
    } else {
        Cg {
            text: st.text + seq![0xffu8, 0x15u8] + seq![0u8, 0u8, 0u8, 0u8],
            relocations: st.relocations.push(
                RelocationV {
                    offset: (st.text.len() + 2) as usize,
                    symbol: symbol,
                    kind: RelocationKind::Relative32,
                },
            ),
            ..st
        }
    }
}

// ---------------------------------------------------------------------------
// Bit-precise integer widths.
// ---------------------------------------------------------------------------

/// A sized integer: a bit width of at least one, and a signedness.
#[derive(Debug, Clone, Copy)]
pub struct IntType {
    pub bits: u8,
    pub signed: bool,
}

/// The width a literal suffix selects; an unsuffixed literal has none, and
/// the pointer-width suffixes are sixty-four bit, `usize` unsigned and
/// `isize` signed.
pub open spec fn suffix_int_type(suffix: IntSuffix) -> Option<IntType> {
    match suffix {
        IntSuffix::I8 => Some(IntType { bits: 8, signed: true }),
        IntSuffix::I16 => Some(IntType { bits: 16, signed: true }),
        IntSuffix::I32 => Some(IntType { bits: 32, signed: true }),
        IntSuffix::I64 => Some(IntType { bits: 64, signed: true }),
        IntSuffix::U8 => Some(IntType { bits: 8, signed: false }),
        IntSuffix::U16 => Some(IntType { bits: 16, signed: false }),
        IntSuffix::U32 => Some(IntType { bits: 32, signed: false }),
        IntSuffix::U64 => Some(IntType { bits: 64, signed: false }),
        IntSuffix::Usize => Some(IntType { bits: 64, signed: false }),
        IntSuffix::Isize => Some(IntType { bits: 64, signed: true }),
        IntSuffix::Unsuffixed => None,
    }
}

/// The width a declared type selects, for the sized integer types and the
/// bit-precise ones; a zero-width descriptor selects none, since the source
/// language starts its widths at one.
pub open spec fn aura_int_type(t: Type) -> Option<IntType> {
    match t {
        Type::I8 => Some(IntType { bits: 8, signed: true }),
        Type::I16 => Some(IntType { bits: 16, signed: true }),
        Type::I32 => Some(IntType { bits: 32, signed: true }),
        Type::I64 => Some(IntType { bits: 64, signed: true }),
        Type::U8 => Some(IntType { bits: 8, signed: false }),
        Type::U16 => Some(IntType { bits: 16, signed: false }),
        Type::U32 => Some(IntType { bits: 32, signed: false }),
        Type::U64 => Some(IntType { bits: 64, signed: false }),
        Type::BitInt(bits, signed) => if bits == 0 {
            None
        } else {
            Some(IntType { bits: bits, signed: signed })
        },
        _ => None,
    }
}

/// Whether `val` lies in the representable range of the width: two's
/// complement for a signed width, `[0, 2^bits - 1]` for an unsigned one. At
/// sixty-four bits and beyond every word is representable, but an unsigned
/// width still refuses negative values.
pub open spec fn fits_spec(val: i64, it: IntType) -> bool {
    if it.bits == 0 {
        val == 0
    } else if it.bits >= 64 {
        it.signed || val >= 0
    } else if it.signed {
        -((1u64 << (it.bits - 1)) as int) <= val && val <= (1u64 << (it.bits - 1)) - 1
    } else {
        0 <= val && val <= (1u64 << it.bits) - 1
    }
}

// ---------------------------------------------------------------------------
// The generation rules.
// ---------------------------------------------------------------------------

/// The first symbol of data kind under `name`, if any.
pub open spec fn find_data_symbol(syms: Seq<SymbolV>, name: Seq<char>) -> Option<SymbolV>
    decreases syms.len(),
{
    if syms.len() == 0 {
        None
    } else if syms[0].name == name && syms[0].kind == SymbolKind::Data {
        Some(syms[0])
    } else {
        find_data_symbol(syms.drop_first(), name)
    }
}

/// The youngest local-variable slot bound to `name`, if any.
pub open spec fn lookup_var(vars: Seq<(Seq<char>, u64)>, name: Seq<char>) -> Option<u64>
    decreases vars.len(),
{
    if vars.len() == 0 {
        None
    } else if vars.last().0 == name {
        Some(vars.last().1)
    } else {
        lookup_var(vars.drop_last(), name)
    }
}

/// The symbol table with the size of the first function symbol under `name`
/// replaced; a data symbol that happens to share the name is left alone.
pub open spec fn update_first_symbol_size(syms: Seq<SymbolV>, name: Seq<char>, size: u64) -> Seq<
    SymbolV,
>
    decreases syms.len(),
{
    if syms.len() == 0 {
        syms
    } else if syms[0].name == name && syms[0].kind == SymbolKind::Function {
        seq![SymbolV { size, ..syms[0] }] + syms.drop_first()
    } else {
        seq![syms[0]] + update_first_symbol_size(syms.drop_first(), name, size)
    }
}

pub open spec fn data_capacity_error() -> CgErr {
    CgErr { message: "data section exceeds capacity"@ }
}

pub open spec fn bss_capacity_error() -> CgErr {
    CgErr { message: "bss section exceeds capacity"@ }
}

/// The decimal rendering of a literal's value, sign included.
pub open spec fn dec_i64_chars(v: i64) -> Seq<char> {
    if v < 0 {
        "-"@ + dec_chars((-(v as int)) as nat)
    } else {
        dec_chars(v as nat)
    }
}

pub open spec fn does_not_fit_error(v: i64) -> CgErr {
    CgErr { message: "Integer literal "@ + dec_i64_chars(v) + " does not fit in type"@ }
}

/// A top-level or local constant: an integer initializer places its eight
/// little-endian bytes in the data section, a string initializer places its
/// bytes and one terminating NUL; either contributes one data symbol. Any
/// other initializer contributes nothing.
pub open spec fn gen_const_data(st: Cg, name: Seq<char>, value: Expr) -> Result<Cg, CgErr> {
    match value {
        Expr::Literal(Literal::Int(v, _)) => if st.data.len() + 8 > DATA_CAPACITY {
            Err(data_capacity_error())
        } else {
            Ok(
                Cg {
                    data: st.data + spec_u64_to_le_bytes(v as u64),
                    symbols: st.symbols.push(
                        SymbolV {
                            name: name,
                            offset: st.data.len() as u64,
                            size: 8,
                            kind: SymbolKind::Data,
                        },
                    ),
                    ..st
                },
            )
        },
        Expr::Literal(Literal::String(bytes)) => if st.data.len() + bytes@.len() + 1
            > DATA_CAPACITY {
            Err(data_capacity_error())
        } else {
            Ok(
                Cg {
                    data: st.data + bytes@ + seq![0u8],
                    symbols: st.symbols.push(
                        SymbolV {
                            name: name,
                            offset: st.data.len() as u64,
                            size: bytes@.len() as u64,
                            kind: SymbolKind::Data,
                        },
                    ),
                    ..st
                },
            )
        },
        _ => Ok(st),
    }
}

/// A top-level `var` reserves eight uninitialized bytes.
pub open spec fn gen_var_item(st: Cg) -> Result<Cg, CgErr> {
    if st.bss_size + 8 > DATA_CAPACITY {
        Err(bss_capacity_error())
    } else {
        Ok(Cg { bss_size: (st.bss_size + 8) as nat, ..st })
    }
}

/// The value computed into `rax` ahead of a `ret`: zero is the zeroing
/// idiom, any other integer literal a full-width immediate, a data symbol an
/// absolute load, and everything else zero.
pub open spec fn gen_return(st: Cg, e: Expr) -> Cg {
    match e {
        Expr::Literal(Literal::Int(v, _)) => if v == 0 {
            Cg { text: st.text + xor_rax_rax_bytes(), ..st }
        } else {
            Cg { text: st.text + mov_rax_imm_bytes(v as u64), ..st }
        },
        Expr::Identifier(name) => match find_data_symbol(st.symbols, name@) {
            Some(sym) => Cg { text: st.text + mov_rax_from_mem_bytes(sym.offset), ..st },
            None => Cg { text: st.text + xor_rax_rax_bytes(), ..st },
        },
        _ => Cg { text: st.text + xor_rax_rax_bytes(), ..st },
    }
}

/// A `let` binding: an integer-literal initializer is checked against the
/// declared width if one names a sized integer, masked, and stored directly
/// in a fresh eight-byte data slot; an identifier initializer is loaded
/// through `r10` from its slot and stored to a fresh slot; any other
/// initializer is computed into `rax` and stored likewise.
pub open spec fn gen_let(st: Cg, l: LetStmt) -> Result<Cg, CgErr>
    decreases l,
{
    match *l.value {
        Expr::Literal(Literal::Int(v, _)) => {
            let declared = match l.ty {
                Some(t) => aura_int_type(*t),
                None => None,
            };
            match declared {
                Some(it) => if !fits_spec(v, it) {
                    Err(does_not_fit_error(v))
                } else {
                    if st.data.len() + 8 > DATA_CAPACITY {
                        Err(data_capacity_error())
                    } else {
                        Ok(
                            Cg {
                                data: st.data + spec_u64_to_le_bytes(
                                    (v as u64) & mask_spec(it.bits),
                                ),
                                variables: st.variables.push((l.name@, st.data.len() as u64)),
                                ..st
                            },
                        )
                    }
                },
                None => if st.data.len() + 8 > DATA_CAPACITY {
                    Err(data_capacity_error())
                } else {
                    Ok(
                        Cg {
                            data: st.data + spec_u64_to_le_bytes(v as u64),
                            variables: st.variables.push((l.name@, st.data.len() as u64)),
                            ..st
                        },
                    )
                },
            }
        },
        Expr::Identifier(name) => match lookup_var(st.variables, name@) {
            Some(offset) => if st.data.len() + 8 > DATA_CAPACITY {
                Err(data_capacity_error())
            } else {
                let loaded = st.text + mov_r10_imm_bytes(data_address(offset))
                    + mov_rax_from_r10_bytes();
                Ok(
                    Cg {
                        text: loaded + mov_r10_imm_bytes(data_address(st.data.len() as u64))
                            + mov_rax_to_r10_bytes(),
                        data: st.data + spec_u64_to_le_bytes(0),
                        variables: st.variables.push((l.name@, st.data.len() as u64)),
                        ..st
                    },
                )
            },
            None => Err(CgErr { message: "Undefined variable: "@ + name@ }),
        },
        _ => match gen_expr(st, *l.value) {
            Ok((_, st1)) => if st1.data.len() + 8 > DATA_CAPACITY {
                Err(data_capacity_error())
            } else {
                Ok(
                    Cg {
                        text: st1.text + mov_r10_imm_bytes(data_address(st1.data.len() as u64))
                            + mov_rax_to_r10_bytes(),
                        data: st1.data + spec_u64_to_le_bytes(0),
                        variables: st1.variables.push((l.name@, st1.data.len() as u64)),
                        ..st1
                    },
                )
            },
            Err(er) => Err(er),
        },
    }
}

/// The `write` syscall: an optional integer-literal file descriptor (one by
/// default), then a payload that must be a string literal (placed in data)
/// or a data symbol; lowers to the Linux `write` sequence.
pub open spec fn gen_write_syscall(st: Cg, args: Seq<Expr>) -> Result<Cg, CgErr> {
    if args.len() == 0 {
        Err(CgErr { message: "write syscall requires at least one argument"@ })
    } else {
        let fd: u64 = if args.len() > 1 {
            match args[0] {
                Expr::Literal(Literal::Int(v, _)) => v as u64,
                _ => 1u64,
            }
        } else {
            1u64
        };
        let payload = if args.len() > 1 {
            args[1]
        } else {
            args[0]
        };
        match payload {
            Expr::Literal(Literal::String(bytes)) => if st.data.len() + bytes@.len()
                > DATA_CAPACITY {
                Err(data_capacity_error())
            } else {
                Ok(
                    Cg {
                        text: st.text + mov_rdi_imm_bytes(fd) + mov_rsi_imm_bytes(
                            data_address(st.data.len() as u64),
                        ) + mov_rdx_imm_bytes(bytes@.len() as u64) + mov_rax_imm_bytes(1)
                            + syscall_bytes(),
                        data: st.data + bytes@,
                        ..st
                    },
                )
            },
            Expr::Identifier(name) => match find_data_symbol(st.symbols, name@) {
                Some(sym) => Ok(
                    Cg {
                        text: st.text + mov_rdi_imm_bytes(fd) + mov_rsi_imm_bytes(
                            data_address(sym.offset),
                        ) + mov_rdx_imm_bytes(sym.size) + mov_rax_imm_bytes(1) + syscall_bytes(),
                        ..st
                    },
                ),
                None => Err(CgErr { message: "Unknown identifier: "@ + name@ }),
            },
            _ => Err(
                CgErr {
                    message: "write syscall argument must be a string literal or identifier"@,
                },
            ),
        }
    }
}

/// An expression's emission, together with the literal value it leaves for
/// an enclosing consumer (zero where none applies).
pub open spec fn gen_expr(st: Cg, e: Expr) -> Result<(u64, Cg), CgErr>
    decreases e,
{
    match e {
        Expr::Literal(Literal::Int(v, suffix)) => match suffix_int_type(suffix) {
            Some(it) => if !fits_spec(v, it) {
                Err(does_not_fit_error(v))
            } else {
                let masked = (v as u64) & mask_spec(it.bits);
                Ok((masked, Cg { text: st.text + imm_bytes(masked, it.bits), ..st }))
            },
            None => Ok(((v as u64), st)),
        },
        Expr::Identifier(name) => match find_data_symbol(st.symbols, name@) {
            Some(sym) => Ok((0, Cg { text: st.text + mov_rax_from_mem_bytes(sym.offset), ..st })),
            None => match lookup_var(st.variables, name@) {
                Some(offset) => Ok(
                    (
                        0,
                        Cg {
                            text: st.text + mov_r10_imm_bytes(data_address(offset))
                                + mov_rax_from_r10_bytes(),
                            ..st
                        },
                    ),
                ),
                None => Ok((0, st)),
            },
        },
        Expr::Syscall(name, args) => if name@ == "write"@ {
            match gen_write_syscall(st, args@) {
                Ok(st1) => Ok((0, st1)),
                Err(er) => Err(er),
            }
        } else {
            Err(CgErr { message: "Unknown syscall method: "@ + name@ })
        },
        Expr::Alloc(_ty, count) => match gen_expr(st, *count) {
            Ok((size, st1)) => Ok(
                (
                    0,
                    Cg {
                        text: st1.text + mov_rdi_imm_bytes(size) + seq![0x41u8, 0xffu8, 0xd6u8],
                        ..st1
                    },
                ),
            ),
            Err(er) => Err(er),
        },
        Expr::Free(ptr, size) => match gen_expr(st, *ptr) {
            Ok((_, st1)) => {
                let st2 = Cg { text: st1.text + mov_rdi_rax_bytes(), ..st1 };
                match gen_expr(st2, *size) {
                    Ok((size_val, st3)) => Ok(
                        (
                            0,
                            Cg {
                                text: st3.text + mov_rsi_imm_bytes(size_val) + seq![
                                    0x41u8,
                                    0xffu8,
                                    0xd7u8,
                                ],
                                ..st3
                            },
                        ),
                    ),
                    Err(er) => Err(er),
                }
            },
            Err(er) => Err(er),
        },
        Expr::Cast(e1, t) => match gen_expr(st, *e1) {
            Ok((_, st1)) => Ok((0, Cg { text: st1.text + cast_bytes(t), ..st1 })),
            Err(er) => Err(er),
        },
        _ => Ok((0, st)),
    }
}

/// A statement's emission: returns compute into `rax` and `ret`, constants
/// and lets place data, expressions emit their code, blocks emit in order,
/// and the remaining statement forms emit nothing.
pub open spec fn gen_stmt(st: Cg, s: Stmt) -> Result<Cg, CgErr>
    decreases s,
{
    match s {
        Stmt::Return(r) => match r {
            Some(e) => Ok(Cg { text: gen_return(st, e).text + ret_bytes(), ..gen_return(st, e) }),
            None => Ok(Cg { text: st.text + xor_rax_rax_bytes() + ret_bytes(), ..st }),
        },
        Stmt::Const(c) => gen_const_data(st, c.name@, *c.value),
        Stmt::Let(l) => gen_let(st, l),
        Stmt::Expr(e) => match gen_expr(st, e) {
            Ok((_, st1)) => Ok(st1),
            Err(er) => Err(er),
        },
        Stmt::Block(stmts) => gen_stmts(st, stmts@),
        _ => Ok(st),
    }
}

pub open spec fn gen_stmts(st: Cg, ss: Seq<Stmt>) -> Result<Cg, CgErr>
    decreases ss,
{
    if ss.len() == 0 {
        Ok(st)
    } else {
        match gen_stmt(st, ss[0]) {
            Ok(st1) => gen_stmts(st1, ss.drop_first()),
            Err(er) => Err(er),
        }
    }
}

/// A function: contributes its symbol at the current text offset, records
/// the entry point when it carries the chosen name, emits its body, and
/// patches its symbol's size to the bytes emitted.
pub open spec fn gen_function(st: Cg, f: Function) -> Result<Cg, CgErr>
    decreases f,
{
    let func_start = st.text.len();
    let st1 = Cg {
        symbols: st.symbols.push(
            SymbolV {
                name: f.name@,
                offset: func_start as u64,
                size: 0,
                kind: SymbolKind::Function,
            },
        ),
        ..st
    };
    let st2 = if st.entry_point_name == Some(f.name@) {
        Cg { entry_point: func_start as u64, ..st1 }
    } else {
        st1
    };
    match gen_stmts(st2, f.body@) {
        Ok(st3) => Ok(
            Cg {
                symbols: update_first_symbol_size(
                    st3.symbols,
                    f.name@,
                    (st3.text.len() - func_start) as u64,
                ),
                ..st3
            },
        ),
        Err(er) => Err(er),
    }
}

pub open spec fn gen_item(st: Cg, item: Item) -> Result<Cg, CgErr>
    decreases item,
{
    match item {
        Item::Function(f) => gen_function(st, f),
        Item::Const(c) => gen_const_data(st, c.name@, *c.value),
        Item::Var(_) => gen_var_item(st),
        _ => Ok(st),
    }
}

pub open spec fn gen_items(st: Cg, items: Seq<Item>) -> Result<Cg, CgErr>
    decreases items,
{
    if items.len() == 0 {
        Ok(st)
    } else {
        match gen_item(st, items[0]) {
            Ok(st1) => gen_items(st1, items.drop_first()),
            Err(er) => Err(er),
        }
    }
}

/// The entry-point scan over one function's attributes: `Entry(Some(n))`
/// chooses `n`, `Entry(None)` chooses the function's own name, and the last
/// word wins.
pub open spec fn scan_attrs(
    cur: Option<Seq<char>>,
    fname: Seq<char>,
    attrs: Seq<FunctionAttribute>,
) -> Option<Seq<char>>
    decreases attrs,
{
    if attrs.len() == 0 {
        cur
    } else {
        let prev = scan_attrs(cur, fname, attrs.drop_last());
        match attrs.last() {
            FunctionAttribute::Entry(opt) => match opt {
                Some(n) => Some(n@),
                None => Some(fname),
            },
            _ => prev,
        }
    }
}

/// The entry-point scan over all items.
pub open spec fn scan_items(cur: Option<Seq<char>>, items: Seq<Item>) -> Option<Seq<char>>
    decreases items,
{
    if items.len() == 0 {
        cur
    } else {
        let prev = scan_items(cur, items.drop_last());
        match items.last() {
            Item::Function(f) => scan_attrs(prev, f.name@, f.attrs@),
            _ => prev,
        }
    }
}

/// Whether a function named `name` exists among the items.
pub open spec fn entry_exists(items: Seq<Item>, name: Seq<char>) -> bool {
    exists|i: int|
        0 <= i < items.len() && ((#[trigger] items[i]) matches Item::Function(f) && f.name@
            == name)
}

pub open spec fn init_cg(entry: Option<Seq<char>>) -> Cg {
    Cg {
        text: Seq::empty(),
        data: Seq::empty(),
        bss_size: 0,
        relocations: Seq::empty(),
        symbols: Seq::empty(),
        entry_point: 0,
        entry_point_name: entry,
        variables: Seq::empty(),
    }
}

/// What the generator produces for a whole program: the entry point is
/// chosen by scanning the attributes, must exist if chosen, and the items
/// are then emitted in definition order.
pub open spec fn gen_program(p: Program) -> Result<Cg, CgErr> {
    match scan_items(None, p.items@) {
        Some(n) => if !entry_exists(p.items@, n) {
            Err(
                CgErr { message: "Entry point function '"@ + n + "' does not exist"@ },
            )
        } else {
            gen_items(init_cg(Some(n)), p.items@)
        },
        None => gen_items(init_cg(None), p.items@),
    }
}


// ---------------------------------------------------------------------------
// Emission only ever appends to the text section.
// ---------------------------------------------------------------------------

pub proof fn lemma_gen_expr_text(st: Cg, e: Expr)
    ensures
        gen_expr(st, e) matches Ok(p) ==> p.1.text.len() >= st.text.len(),
    decreases e,
{
    match e {
        Expr::Alloc(_ty, count) => {
            lemma_gen_expr_text(st, *count);
        },
        Expr::Free(ptr, size) => {
            lemma_gen_expr_text(st, *ptr);
            if let Ok((_, st1)) = gen_expr(st, *ptr) {
                let st2 = Cg { text: st1.text + mov_rdi_rax_bytes(), ..st1 };
                lemma_gen_expr_text(st2, *size);
            }
        },
        Expr::Cast(e1, _t) => {
            lemma_gen_expr_text(st, *e1);
        },
        _ => {},
    }
}

pub proof fn lemma_gen_stmt_text(st: Cg, s: Stmt)
    ensures
        gen_stmt(st, s) matches Ok(st1) ==> st1.text.len() >= st.text.len(),
    decreases s,
{
    match s {
        Stmt::Let(l) => {
            lemma_gen_expr_text(st, *l.value);
        },
        Stmt::Expr(e) => {
            lemma_gen_expr_text(st, e);
        },
        Stmt::Block(stmts) => {
            lemma_gen_stmts_text(st, stmts@);
        },
        _ => {},
    }
}

pub proof fn lemma_gen_stmts_text(st: Cg, ss: Seq<Stmt>)
    ensures
        gen_stmts(st, ss) matches Ok(st1) ==> st1.text.len() >= st.text.len(),
    decreases ss,
{
    if ss.len() > 0 {
        lemma_gen_stmt_text(st, ss[0]);
        if let Ok(st1) = gen_stmt(st, ss[0]) {
            lemma_gen_stmts_text(st1, ss.drop_first());
        }
    }
}

/// A looked-up variable slot obeys the bound all slots obey.
pub proof fn lemma_lookup_var_bounded(vars: Seq<(Seq<char>, u64)>, name: Seq<char>, bound: u64)
    requires
        forall|i: int| 0 <= i < vars.len() ==> (#[trigger] vars[i]).1 <= bound,
    ensures
        lookup_var(vars, name) matches Some(o) ==> o <= bound,
    decreases vars.len(),
{
    if vars.len() > 0 && vars.last().0 != name {
        lemma_lookup_var_bounded(vars.drop_last(), name, bound);
    }
}

/// A found data symbol obeys the bound all data symbols obey.
pub proof fn lemma_find_data_symbol_bounded(syms: Seq<SymbolV>, name: Seq<char>, bound: u64)
    requires
        forall|i: int|
            0 <= i < syms.len() && (#[trigger] syms[i]).kind == SymbolKind::Data ==> syms[i].offset
                <= bound,
    ensures
        find_data_symbol(syms, name) matches Some(sym) ==> sym.offset <= bound,
    decreases syms.len(),
{
    if syms.len() > 0 && !(syms[0].name == name && syms[0].kind == SymbolKind::Data) {
        lemma_find_data_symbol_bounded(syms.drop_first(), name, bound);
    }
}

/// Replacing the first function symbol's size hits the first such index.
pub proof fn lemma_update_first_at(syms: Seq<SymbolV>, name: Seq<char>, size: u64, i: int)
    requires
        0 <= i < syms.len(),
        syms[i].name == name && syms[i].kind == SymbolKind::Function,
        forall|k: int|
            0 <= k < i ==> !((#[trigger] syms[k]).name == name && syms[k].kind
                == SymbolKind::Function),
    ensures
        update_first_symbol_size(syms, name, size) == syms.update(i, SymbolV { size, ..syms[i] }),
    decreases i,
{
    if i == 0 {
        assert(seq![SymbolV { size, ..syms[0] }] + syms.drop_first() =~= syms.update(
            0,
            SymbolV { size, ..syms[0] },
        ));
    } else {
        lemma_update_first_at(syms.drop_first(), name, size, i - 1);
        assert(seq![syms[0]] + syms.drop_first().update(
            i - 1,
            SymbolV { size, ..syms.drop_first()[i - 1] },
        ) =~= syms.update(i, SymbolV { size, ..syms[i] }));
    }
}

/// With no function symbol under the name, the table is unchanged.
pub proof fn lemma_update_first_none(syms: Seq<SymbolV>, name: Seq<char>, size: u64)
    requires
        forall|k: int|
            0 <= k < syms.len() ==> !((#[trigger] syms[k]).name == name && syms[k].kind
                == SymbolKind::Function),
    ensures
        update_first_symbol_size(syms, name, size) == syms,
    decreases syms.len(),
{
    if syms.len() > 0 {
        lemma_update_first_none(syms.drop_first(), name, size);
        assert(seq![syms[0]] + syms.drop_first() =~= syms);
    }
}

// ---------------------------------------------------------------------------
// The executable generator.
// ---------------------------------------------------------------------------

/// Appends the bytes of `src` to `dst`.
pub(crate) fn append_bytes(dst: &mut Vec<u8>, src: &Vec<u8>)
    ensures
        final(dst)@ == old(dst)@ + src@,
{
    let mut i: usize = 0;
    proof {
        assert(old(dst)@ + src@.take(0) =~= old(dst)@);
    }
    while i < src.len()
        invariant
            i <= src.len(),
            dst@ == old(dst)@ + src@.take(i as int),
        decreases src.len() - i,
    {
        dst.push(src[i]);
        proof {
            assert(old(dst)@ + src@.take(i + 1) =~= (old(dst)@ + src@.take(i as int)).push(
                src@[i as int],
            ));
        }
        i = i + 1;
    }
    proof {
        assert(old(dst)@ + src@.take(src@.len() as int) =~= old(dst)@ + src@);
    }
}

impl IntType {
    /// The width a literal suffix selects.
    fn from_suffix(suffix: &IntSuffix) -> (r: Option<IntType>)
        ensures
            r == suffix_int_type(*suffix),
            r matches Some(it) ==> 1 <= it.bits <= 64,
    {
        match suffix {
            IntSuffix::I8 => Some(IntType { bits: 8, signed: true }),
            IntSuffix::I16 => Some(IntType { bits: 16, signed: true }),
            IntSuffix::I32 => Some(IntType { bits: 32, signed: true }),
            IntSuffix::I64 => Some(IntType { bits: 64, signed: true }),
            IntSuffix::U8 => Some(IntType { bits: 8, signed: false }),
            IntSuffix::U16 => Some(IntType { bits: 16, signed: false }),
            IntSuffix::U32 => Some(IntType { bits: 32, signed: false }),
            IntSuffix::U64 => Some(IntType { bits: 64, signed: false }),
            IntSuffix::Usize => Some(IntType { bits: 64, signed: false }),
            IntSuffix::Isize => Some(IntType { bits: 64, signed: true }),
            IntSuffix::Unsuffixed => None,
        }
    }

    /// The width a declared type selects.
    fn from_aura_type(ty: &Type) -> (r: Option<IntType>)
        ensures
            r == aura_int_type(*ty),
            r matches Some(it) ==> it.bits >= 1,
    {
        match ty {
            Type::I8 => Some(IntType { bits: 8, signed: true }),
            Type::I16 => Some(IntType { bits: 16, signed: true }),
            Type::I32 => Some(IntType { bits: 32, signed: true }),
            Type::I64 => Some(IntType { bits: 64, signed: true }),
            Type::U8 => Some(IntType { bits: 8, signed: false }),
            Type::U16 => Some(IntType { bits: 16, signed: false }),
            Type::U32 => Some(IntType { bits: 32, signed: false }),
            Type::U64 => Some(IntType { bits: 64, signed: false }),
            Type::BitInt(bits, signed) => {
                if *bits == 0 {
                    None
                } else {
                    Some(IntType { bits: *bits, signed: *signed })
                }
            },
            _ => None,
        }
    }

    /// The mask that keeps a value to this width.
    fn mask(&self) -> (r: u64)
        ensures
            r == mask_spec(self.bits),
    {
        if self.bits >= 64 {
            0xFFFF_FFFF_FFFF_FFFFu64
        } else {
            let bits = self.bits;
            proof {
                assert(bits < 64 ==> (1u64 << bits) >= 1) by (bit_vector);
            }
            (1u64 << bits) - 1
        }
    }

    /// Whether `val` lies in the representable range of this width.
    fn fits(&self, val: i64) -> (r: bool)
        ensures
            r == fits_spec(val, *self),
    {
        if self.bits == 0 {
            val == 0
        } else if self.bits >= 64 {
            self.signed || val >= 0
        } else if self.signed {
            let k = (self.bits - 1) as u64;
            proof {
                assert(k <= 62 ==> (1u64 << k) <= 0x4000_0000_0000_0000u64) by (bit_vector);
            }
            let m = 1u64 << k;
            let min = -(m as i64);
            let max = (m as i64) - 1;
            val >= min && val <= max
        } else {
            let bits = self.bits;
            proof {
                assert(bits < 64 ==> (1u64 << bits) >= 1) by (bit_vector);
            }
            let m = (1u64 << bits) - 1;
            val >= 0 && (val as u64) <= m
        }
    }
}

/// Renders a signed value in decimal, sign included.
fn dec_i64_string(val: i64) -> (s: String)
    ensures
        s@ == dec_i64_chars(val),
{
    if val < 0 {
        let magnitude: u64 = if val == i64::MIN {
            0x8000_0000_0000_0000u64
        } else {
            (-val) as u64
        };
        let mut s = String::from_str("-");
        let d = dec_string(magnitude);
        s.append(d.as_str());
        s
    } else {
        dec_string(val as u64)
    }
}

fn cg_concat2(a: &str, b: &str) -> (r: String)
    ensures
        r@ == a@ + b@,
{
    let mut s = String::from_str(a);
    s.append(b);
    s
}

fn cg_concat3(a: &str, b: &str, c: &str) -> (r: String)
    ensures
        r@ == a@ + b@ + c@,
{
    let mut s = String::from_str(a);
    s.append(b);
    s.append(c);
    s
}

/// The owned state of one generation run.
struct CodeGenerator {
    text: Vec<u8>,
    data: Vec<u8>,
    bss_size: usize,
    relocations: Vec<Relocation>,
    symbols: Vec<Symbol>,
    entry_point: u64,
    entry_point_name: Option<String>,
    variables: Vec<(String, u64)>,
}

pub open spec fn opt_name_view(o: Option<String>) -> Option<Seq<char>> {
    match o {
        Some(n) => Some(n@),
        None => None,
    }
}

impl View for CodeGenerator {
    type V = Cg;

    closed spec fn view(&self) -> Cg {
        Cg {
            text: self.text@,
            data: self.data@,
            bss_size: self.bss_size as nat,
            relocations: relocs_view(self.relocations@),
            symbols: syms_view(self.symbols@),
            entry_point: self.entry_point,
            entry_point_name: opt_name_view(self.entry_point_name),
            variables: vars_view(self.variables@),
        }
    }
}

/// The absolute address of a bounded data offset.
fn data_address_exec(offset: u64) -> (r: u64)
    requires
        offset <= DATA_CAPACITY as u64,
    ensures
        r == data_address(offset),
{
    DATA_SEGMENT_BASE + offset
}

impl CodeGenerator {
    fn new(entry_point_name: Option<String>) -> (r: Self)
        ensures
            r@ == init_cg(opt_name_view(entry_point_name)),
            cg_wf(r@),
    {
        let r = CodeGenerator {
            text: Vec::new(),
            data: Vec::new(),
            bss_size: 0,
            relocations: Vec::new(),
            symbols: Vec::new(),
            entry_point: 0,
            entry_point_name,
            variables: Vec::new(),
        };
        proof {
            assert(r@ =~= init_cg(opt_name_view(r.entry_point_name)));
        }
        r
    }

    fn emit_u64_le(&mut self, val: u64)
        ensures
            final(self)@ == (Cg { text: old(self)@.text + spec_u64_to_le_bytes(val), ..old(
                self,
            )@ }),
    {
        let mut b = vstd::bytes::u64_to_le_bytes(val);
        self.text.append(&mut b);
        proof {
            assert(self@ =~= (Cg { text: old(self)@.text + spec_u64_to_le_bytes(val), ..old(
                self,
            )@ }));
        }
    }

    fn mov_rax_immediate(&mut self, val: u64)
        ensures
            final(self)@ == (Cg { text: old(self)@.text + mov_rax_imm_bytes(val), ..old(self)@ }),
    {
        self.text.push(0x48);
        self.text.push(0xb8);
        self.emit_u64_le(val);
        proof {
            assert(self@.text =~= old(self)@.text + mov_rax_imm_bytes(val));
            assert(self@ =~= (Cg { text: old(self)@.text + mov_rax_imm_bytes(val), ..old(
                self,
            )@ }));
        }
    }

    fn mov_rax_from_mem(&mut self, addr: u64)
        ensures
            final(self)@ == (Cg { text: old(self)@.text + mov_rax_from_mem_bytes(addr), ..old(
                self,
            )@ }),
    {
        self.mov_rax_immediate(addr);
        self.text.push(0x48);
        self.text.push(0x8b);
        self.text.push(0x00);
        proof {
            assert(self@.text =~= old(self)@.text + mov_rax_from_mem_bytes(addr));
            assert(self@ =~= (Cg { text: old(self)@.text + mov_rax_from_mem_bytes(addr), ..old(
                self,
            )@ }));
        }
    }

    fn xor_rax_rax(&mut self)
        ensures
            final(self)@ == (Cg { text: old(self)@.text + xor_rax_rax_bytes(), ..old(self)@ }),
    {
        self.text.push(0x48);
        self.text.push(0x31);
        self.text.push(0xc0);
        proof {
            assert(self@.text =~= old(self)@.text + xor_rax_rax_bytes());
            assert(self@ =~= (Cg { text: old(self)@.text + xor_rax_rax_bytes(), ..old(self)@ }));
        }
    }

    fn ret(&mut self)
        ensures
            final(self)@ == (Cg { text: old(self)@.text + ret_bytes(), ..old(self)@ }),
    {
        self.text.push(0xc3);
        proof {
            assert(self@.text =~= old(self)@.text + ret_bytes());
            assert(self@ =~= (Cg { text: old(self)@.text + ret_bytes(), ..old(self)@ }));
        }
    }

    fn syscall(&mut self)
        ensures
            final(self)@ == (Cg { text: old(self)@.text + syscall_bytes(), ..old(self)@ }),
    {
        self.text.push(0x0f);
        self.text.push(0x05);
        proof {
            assert(self@.text =~= old(self)@.text + syscall_bytes());
            assert(self@ =~= (Cg { text: old(self)@.text + syscall_bytes(), ..old(self)@ }));
        }
    }

    fn mov_rdi_immediate(&mut self, val: u64)
        ensures
            final(self)@ == (Cg { text: old(self)@.text + mov_rdi_imm_bytes(val), ..old(self)@ }),
    {
        self.text.push(0x48);
        self.text.push(0xbf);
        self.emit_u64_le(val);
        proof {
            assert(self@.text =~= old(self)@.text + mov_rdi_imm_bytes(val));
            assert(self@ =~= (Cg { text: old(self)@.text + mov_rdi_imm_bytes(val), ..old(
                self,
            )@ }));
        }
    }

    fn mov_rsi_immediate(&mut self, val: u64)
        ensures
            final(self)@ == (Cg { text: old(self)@.text + mov_rsi_imm_bytes(val), ..old(self)@ }),
    {
        self.text.push(0x48);
        self.text.push(0xbe);
        self.emit_u64_le(val);
        proof {
            assert(self@.text =~= old(self)@.text + mov_rsi_imm_bytes(val));
            assert(self@ =~= (Cg { text: old(self)@.text + mov_rsi_imm_bytes(val), ..old(
                self,
            )@ }));
        }
    }

    fn mov_rdx_immediate(&mut self, val: u64)
        ensures
            final(self)@ == (Cg { text: old(self)@.text + mov_rdx_imm_bytes(val), ..old(self)@ }),
    {
        self.text.push(0x48);
        self.text.push(0xba);
        self.emit_u64_le(val);
        proof {
            assert(self@.text =~= old(self)@.text + mov_rdx_imm_bytes(val));
            assert(self@ =~= (Cg { text: old(self)@.text + mov_rdx_imm_bytes(val), ..old(
                self,
            )@ }));
        }
    }

    fn mov_r10_immediate(&mut self, val: u64)
        ensures
            final(self)@ == (Cg { text: old(self)@.text + mov_r10_imm_bytes(val), ..old(self)@ }),
    {
        self.text.push(0x49);
        self.text.push(0xba);
        self.emit_u64_le(val);
        proof {
            assert(self@.text =~= old(self)@.text + mov_r10_imm_bytes(val));
            assert(self@ =~= (Cg { text: old(self)@.text + mov_r10_imm_bytes(val), ..old(
                self,
            )@ }));
        }
    }

    fn mov_rax_to_r10_mem(&mut self)
        ensures
            final(self)@ == (Cg { text: old(self)@.text + mov_rax_to_r10_bytes(), ..old(self)@ }),
    {
        self.text.push(0x49);
        self.text.push(0x89);
        self.text.push(0x02);
        proof {
            assert(self@.text =~= old(self)@.text + mov_rax_to_r10_bytes());
            assert(self@ =~= (Cg { text: old(self)@.text + mov_rax_to_r10_bytes(), ..old(
                self,
            )@ }));
        }
    }

    fn mov_rax_from_r10(&mut self)
        ensures
            final(self)@ == (Cg { text: old(self)@.text + mov_rax_from_r10_bytes(), ..old(
                self,
            )@ }),
    {
        self.text.push(0x49);
        self.text.push(0x8b);
        self.text.push(0xc2);
        proof {
            assert(self@.text =~= old(self)@.text + mov_rax_from_r10_bytes());
            assert(self@ =~= (Cg { text: old(self)@.text + mov_rax_from_r10_bytes(), ..old(
                self,
            )@ }));
        }
    }

    fn mov_rdi_rax(&mut self)
        ensures
            final(self)@ == (Cg { text: old(self)@.text + mov_rdi_rax_bytes(), ..old(self)@ }),
    {
        self.text.push(0x48);
        self.text.push(0x89);
        self.text.push(0xc7);
        proof {
            assert(self@.text =~= old(self)@.text + mov_rdi_rax_bytes());
            assert(self@ =~= (Cg { text: old(self)@.text + mov_rdi_rax_bytes(), ..old(self)@ }));
        }
    }

    /// A width-aware immediate move into the accumulator.
    fn emit_width_immediate(&mut self, val: u64, bits: u8)
        ensures
            final(self)@ == (Cg { text: old(self)@.text + imm_bytes(val, bits), ..old(self)@ }),
    {
        if 1 <= bits && bits <= 8 {
            self.text.push(0xb0);
            self.text.push(#[verifier::truncate] (val as u8));
            proof {
                assert(self@.text =~= old(self)@.text + imm_bytes(val, bits));
            }
        } else if 9 <= bits && bits <= 16 {
            self.text.push(0x66);
            self.text.push(0xb8);
            let mut b = vstd::bytes::u16_to_le_bytes(#[verifier::truncate] (val as u16));
            self.text.append(&mut b);
            proof {
                assert(self@.text =~= old(self)@.text + imm_bytes(val, bits));
            }
        } else if 17 <= bits && bits <= 32 {
            self.text.push(0xb8);
            let mut b = vstd::bytes::u32_to_le_bytes(#[verifier::truncate] (val as u32));
            self.text.append(&mut b);
            proof {
                assert(self@.text =~= old(self)@.text + imm_bytes(val, bits));
            }
        } else {
            self.text.push(0x48);
            self.text.push(0xb8);
            self.emit_u64_le(val);
            proof {
                assert(self@.text =~= old(self)@.text + imm_bytes(val, bits));
            }
        }
        proof {
            assert(self@ =~= (Cg { text: old(self)@.text + imm_bytes(val, bits), ..old(self)@ }));
        }
    }

    /// A call through the allocator intrinsics in `r14` and `r15`, or an
    /// indirect call with a 32-bit relative relocation for any other symbol.
    fn call_external(&mut self, symbol: &String)
        ensures
            final(self)@ == call_external_spec(old(self)@, symbol@),
    {
        let alloc_name = String::from_str("__aura_alloc");
        let free_name = String::from_str("__aura_free");
        if symbol.eq(&alloc_name) {
            self.text.push(0x41);
            self.text.push(0xff);
            self.text.push(0xd6);
            proof {
                assert(self@.text =~= old(self)@.text + seq![0x41u8, 0xffu8, 0xd6u8]);
                assert(self@ =~= call_external_spec(old(self)@, symbol@));
            }
        } else if symbol.eq(&free_name) {
            self.text.push(0x41);
            self.text.push(0xff);
            self.text.push(0xd7);
            proof {
                assert(self@.text =~= old(self)@.text + seq![0x41u8, 0xffu8, 0xd7u8]);
                assert(self@ =~= call_external_spec(old(self)@, symbol@));
            }
        } else {
            self.text.push(0xff);
            self.text.push(0x15);
            let ghost before = self.relocations@;
            self.relocations.push(
                Relocation {
                    offset: self.text.len(),
                    symbol: symbol.clone(),
                    kind: RelocationKind::Relative32,
                },
            );
            self.text.push(0);
            self.text.push(0);
            self.text.push(0);
            self.text.push(0);
            proof {
                lemma_relocs_view_push(before, self.relocations@.last());
                assert(self.relocations@ =~= before.push(self.relocations@.last()));
                assert(self@.text =~= old(self)@.text + seq![0xffu8, 0x15u8] + seq![
                    0u8,
                    0u8,
                    0u8,
                    0u8,
                ]);
                assert(self@ =~= call_external_spec(old(self)@, symbol@));
            }
        }
    }

    /// `and rax, imm32` with the low thirty-two bits of the width's mask.
    fn mask_rax(&mut self, bits: u8)
        ensures
            final(self)@ == (Cg { text: old(self)@.text + mask_rax_bytes(bits), ..old(self)@ }),
    {
        if bits < 64 {
            proof {
                assert(bits < 64 ==> (1u64 << bits) >= 1) by (bit_vector);
            }
            let mask = (1u64 << bits) - 1;
            self.text.push(0x48);
            self.text.push(0x25);
            let mut b = vstd::bytes::u32_to_le_bytes(#[verifier::truncate] (mask as u32));
            self.text.append(&mut b);
            proof {
                assert(self@.text =~= old(self)@.text + mask_rax_bytes(bits));
            }
        }
        proof {
            assert(self@ =~= (Cg { text: old(self)@.text + mask_rax_bytes(bits), ..old(self)@ }));
        }
    }

    /// The conversion sequence of an explicit cast, per the target type.
    fn generate_cast_conversion(&mut self, target_type: &Type)
        ensures
            final(self)@ == (Cg { text: old(self)@.text + cast_bytes(*target_type), ..old(
                self,
            )@ }),
    {
        match target_type {
            Type::I8 => {
                self.text.push(0x0f);
                self.text.push(0xbe);
                self.text.push(0xc0);
            },
            Type::U8 => {
                self.text.push(0x0f);
                self.text.push(0xb6);
                self.text.push(0xc0);
            },
            Type::I16 => {
                self.text.push(0x0f);
                self.text.push(0xbf);
                self.text.push(0xc0);
            },
            Type::U16 => {
                self.text.push(0x0f);
                self.text.push(0xb7);
                self.text.push(0xc0);
            },
            Type::I32 | Type::U32 => {},
            Type::I64 | Type::U64 => {},
            Type::BitInt(bits, _) => {
                self.mask_rax(*bits);
            },
            _ => {},
        }
        proof {
            assert(self@.text =~= old(self)@.text + cast_bytes(*target_type));
            assert(self@ =~= (Cg { text: old(self)@.text + cast_bytes(*target_type), ..old(
                self,
            )@ }));
        }
    }

    /// The first data symbol under `name`: its offset and size.
    fn find_data_symbol(&self, name: &String) -> (r: Option<(u64, u64)>)
        ensures
            (match r {
                Some(p) => find_data_symbol(self@.symbols, name@) matches Some(sym) && sym.offset
                    == p.0 && sym.size == p.1,
                None => find_data_symbol(self@.symbols, name@) is None,
            }),
    {
        proof {
            lemma_syms_view(self.symbols@);
        }
        let ghost sv = syms_view(self.symbols@);
        let mut i: usize = 0;
        proof {
            assert(sv.skip(0) =~= sv);
        }
        while i < self.symbols.len()
            invariant
                i <= self.symbols.len(),
                sv == syms_view(self.symbols@),
                sv.len() == self.symbols@.len(),
                forall|j: int| 0 <= j < self.symbols@.len() ==> #[trigger] sv[j]
                    == self.symbols@[j]@,
                find_data_symbol(sv, name@) == find_data_symbol(sv.skip(i as int), name@),
            decreases self.symbols.len() - i,
        {
            proof {
                assert(sv.skip(i as int)[0] == sv[i as int]);
                assert(sv.skip(i as int).drop_first() =~= sv.skip(i + 1));
            }
            let is_data = self.symbols[i].kind == SymbolKind::Data;
            if self.symbols[i].name.eq(name) && is_data {
                return Some((self.symbols[i].offset, self.symbols[i].size));
            }
            i = i + 1;
        }
        proof {
            assert(sv.skip(i as int) =~= Seq::<SymbolV>::empty());
        }
        None
    }

    /// The youngest local slot bound to `name`.
    fn lookup_variable_offset(&self, name: &String) -> (r: Option<u64>)
        ensures
            (match r {
                Some(o) => lookup_var(self@.variables, name@) == Some(o),
                None => lookup_var(self@.variables, name@) is None,
            }),
    {
        proof {
            lemma_vars_view(self.variables@);
        }
        let ghost vv = vars_view(self.variables@);
        let mut i: usize = self.variables.len();
        proof {
            assert(vv.take(i as int) =~= vv);
        }
        while i > 0
            invariant
                i <= self.variables.len(),
                vv == vars_view(self.variables@),
                vv.len() == self.variables@.len(),
                forall|j: int| 0 <= j < self.variables@.len() ==> #[trigger] vv[j] == (
                    self.variables@[j].0@,
                    self.variables@[j].1,
                ),
                lookup_var(vv, name@) == lookup_var(vv.take(i as int), name@),
            decreases i,
        {
            i = i - 1;
            proof {
                assert(vv.take(i + 1).last() == vv[i as int]);
                assert(vv.take(i + 1).drop_last() =~= vv.take(i as int));
            }
            if self.variables[i].0.eq(name) {
                return Some(self.variables[i].1);
            }
        }
        proof {
            assert(vv.take(0) =~= Seq::<(Seq<char>, u64)>::empty());
        }
        None
    }

    /// Records that the youngest slot under `name` begins at `offset`.
    fn bind_variable(&mut self, name: String, offset: u64)
        ensures
            final(self)@ == (Cg {
                variables: old(self)@.variables.push((name@, offset)),
                ..old(self)@
            }),
    {
        let ghost before = self.variables@;
        let ghost gname = name@;
        self.variables.push((name, offset));
        proof {
            lemma_vars_view_push(before, self.variables@.last());
            assert(self.variables@ =~= before.push(self.variables@.last()));
            assert(self@ =~= (Cg {
                variables: old(self)@.variables.push((gname, offset)),
                ..old(self)@
            }));
        }
    }
}


impl CodeGenerator {
    /// Replaces the size of the first function symbol under `name`, if any.
    fn set_first_symbol_size(&mut self, name: &String, size: u64)
        ensures
            final(self)@ == (Cg {
                symbols: update_first_symbol_size(old(self)@.symbols, name@, size),
                ..old(self)@
            }),
            final(self)@.symbols.len() == old(self)@.symbols.len(),
            forall|j: int| 0 <= j < old(self)@.symbols.len() ==> {
                &&& (#[trigger] final(self)@.symbols[j]).offset == old(self)@.symbols[j].offset
                &&& final(self)@.symbols[j].kind == old(self)@.symbols[j].kind
            },
    {
        proof {
            lemma_syms_view(self.symbols@);
        }
        let ghost sv = syms_view(self.symbols@);
        let mut i: usize = 0;
        while i < self.symbols.len()
            invariant
                i <= self.symbols.len(),
                sv == syms_view(self.symbols@),
                sv == old(self)@.symbols,
                self@ == old(self)@,
                sv.len() == self.symbols@.len(),
                forall|j: int| 0 <= j < self.symbols@.len() ==> #[trigger] sv[j]
                    == self.symbols@[j]@,
                forall|k: int|
                    0 <= k < i ==> !((#[trigger] sv[k]).name == name@ && sv[k].kind
                        == SymbolKind::Function),
            decreases self.symbols.len() - i,
        {
            let is_function = self.symbols[i].kind == SymbolKind::Function;
            if self.symbols[i].name.eq(name) && is_function {
                let ghost vec_before = self.symbols@;
                self.symbols[i].size = size;
                proof {
                    lemma_syms_view(self.symbols@);
                    assert(self.symbols@ =~= vec_before.update(i as int, self.symbols@[i as int]));
                    assert(syms_view(self.symbols@) =~= sv.update(
                        i as int,
                        SymbolV { size, ..sv[i as int] },
                    ));
                    lemma_update_first_at(sv, name@, size, i as int);
                    assert(self@ =~= (Cg {
                        symbols: update_first_symbol_size(old(self)@.symbols, name@, size),
                        ..old(self)@
                    }));
                }
                return ;
            }
            i = i + 1;
        }
        proof {
            lemma_update_first_none(sv, name@, size);
            assert(self@ =~= (Cg {
                symbols: update_first_symbol_size(old(self)@.symbols, name@, size),
                ..old(self)@
            }));
        }
    }

    /// The data bytes and symbol of a constant declaration's initializer.
    #[verifier::spinoff_prover]
    fn generate_const_data(&mut self, name: &String, value: &Expr) -> (r: Result<
        (),
        CodegenError,
    >)
        requires
            cg_wf(old(self)@),
        ensures
            cg_wf(final(self)@),
            (match r {
                Ok(_) => gen_const_data(old(self)@, name@, *value) matches Ok(st) && st
                    == final(self)@,
                Err(er) => gen_const_data(old(self)@, name@, *value) matches Err(se) && se
                    == er@,
            }),
    {
        match value {
            Expr::Literal(Literal::Int(v, _)) => {
                if self.data.len() > DATA_CAPACITY - 8 {
                    return Err(
                        CodegenError {
                            message: String::from_str("data section exceeds capacity"),
                        },
                    );
                }
                let offset = self.data.len() as u64;
                let mut b = vstd::bytes::u64_to_le_bytes(#[verifier::truncate] (*v as u64));
                self.data.append(&mut b);
                let ghost syms_before = self.symbols@;
                self.symbols.push(
                    Symbol { name: name.clone(), offset, size: 8, kind: SymbolKind::Data },
                );
                proof {
                    lemma_syms_view_push(syms_before, self.symbols@.last());
                    assert(self.symbols@ =~= syms_before.push(self.symbols@.last()));
                    assert(gen_const_data(old(self)@, name@, *value) matches Ok(st) && st
                        =~= self@);
                }
                Ok(())
            },
            Expr::Literal(Literal::String(bytes)) => {
                if bytes.len() >= DATA_CAPACITY || self.data.len() > DATA_CAPACITY - 1
                    - bytes.len() {
                    return Err(
                        CodegenError {
                            message: String::from_str("data section exceeds capacity"),
                        },
                    );
                }
                let offset = self.data.len() as u64;
                let size = bytes.len() as u64;
                append_bytes(&mut self.data, bytes);
                self.data.push(0);
                let ghost syms_before = self.symbols@;
                self.symbols.push(
                    Symbol { name: name.clone(), offset, size, kind: SymbolKind::Data },
                );
                proof {
                    lemma_syms_view_push(syms_before, self.symbols@.last());
                    assert(self.symbols@ =~= syms_before.push(self.symbols@.last()));
                    assert(self@.data =~= old(self)@.data + bytes@ + seq![0u8]);
                    assert(gen_const_data(old(self)@, name@, *value) matches Ok(st) && st
                        =~= self@);
                }
                Ok(())
            },
            _ => Ok(()),
        }
    }

    /// A top-level `var` reserves eight uninitialized bytes.
    fn generate_var_item(&mut self) -> (r: Result<(), CodegenError>)
        requires
            cg_wf(old(self)@),
        ensures
            cg_wf(final(self)@),
            (match r {
                Ok(_) => gen_var_item(old(self)@) matches Ok(st) && st == final(self)@,
                Err(er) => gen_var_item(old(self)@) matches Err(se) && se == er@,
            }),
    {
        if self.bss_size > DATA_CAPACITY - 8 {
            return Err(
                CodegenError { message: String::from_str("bss section exceeds capacity") },
            );
        }
        self.bss_size = self.bss_size + 8;
        proof {
            assert(gen_var_item(old(self)@) matches Ok(st) && st =~= self@);
        }
        Ok(())
    }

    /// Computes a returned expression into `rax`.
    #[verifier::spinoff_prover]
    fn generate_return(&mut self, expr: &Expr)
        ensures
            final(self)@ == gen_return(old(self)@, *expr),
    {
        match expr {
            Expr::Literal(Literal::Int(v, _)) => {
                if *v == 0 {
                    self.xor_rax_rax();
                } else {
                    self.mov_rax_immediate(#[verifier::truncate] (*v as u64));
                }
            },
            Expr::Identifier(name) => {
                match self.find_data_symbol(name) {
                    Some(p) => {
                        self.mov_rax_from_mem(p.0);
                    },
                    None => {
                        self.xor_rax_rax();
                    },
                }
            },
            _ => {
                self.xor_rax_rax();
            },
        }
    }

    /// A `let` binding's data slot, bounds check and store sequence.
    #[verifier::spinoff_prover]
    #[verifier::rlimit(60)]
    fn generate_let(&mut self, l: &LetStmt) -> (r: Result<(), CodegenError>)
        requires
            cg_wf(old(self)@),
        ensures
            cg_wf(final(self)@),
            (match r {
                Ok(_) => gen_let(old(self)@, *l) matches Ok(st) && st == final(self)@,
                Err(er) => gen_let(old(self)@, *l) matches Err(se) && se == er@,
            }),
        decreases l, 1int,
    {
        match &*l.value {
            Expr::Literal(Literal::Int(v, _)) => {
                let declared = match &l.ty {
                    Some(t) => IntType::from_aura_type(&**t),
                    None => None,
                };
                match declared {
                    Some(it) => {
                        if !it.fits(*v) {
                            let d = dec_i64_string(*v);
                            return Err(
                                CodegenError {
                                    message: cg_concat3(
                                        "Integer literal ",
                                        d.as_str(),
                                        " does not fit in type",
                                    ),
                                },
                            );
                        }
                        if self.data.len() > DATA_CAPACITY - 8 {
                            return Err(
                                CodegenError {
                                    message: String::from_str("data section exceeds capacity"),
                                },
                            );
                        }
                        let offset = self.data.len() as u64;
                        let stored = (#[verifier::truncate] (*v as u64)) & it.mask();
                        let mut b = vstd::bytes::u64_to_le_bytes(stored);
                        self.data.append(&mut b);
                        self.bind_variable(l.name.clone(), offset);
                        proof {
                            assert(gen_let(old(self)@, *l) matches Ok(st) && st =~= self@);
                        }
                        Ok(())
                    },
                    None => {
                        if self.data.len() > DATA_CAPACITY - 8 {
                            return Err(
                                CodegenError {
                                    message: String::from_str("data section exceeds capacity"),
                                },
                            );
                        }
                        let offset = self.data.len() as u64;
                        let mut b = vstd::bytes::u64_to_le_bytes(
                            #[verifier::truncate] (*v as u64),
                        );
                        self.data.append(&mut b);
                        self.bind_variable(l.name.clone(), offset);
                        proof {
                            assert(gen_let(old(self)@, *l) matches Ok(st) && st =~= self@);
                        }
                        Ok(())
                    },
                }
            },
            Expr::Identifier(name) => {
                match self.lookup_variable_offset(name) {
                    Some(offset) => {
                        if self.data.len() > DATA_CAPACITY - 8 {
                            return Err(
                                CodegenError {
                                    message: String::from_str("data section exceeds capacity"),
                                },
                            );
                        }
                        proof {
                            lemma_lookup_var_bounded(
                                self@.variables,
                                name@,
                                DATA_CAPACITY as u64,
                            );
                        }
                        let addr = data_address_exec(offset);
                        self.mov_r10_immediate(addr);
                        self.mov_rax_from_r10();
                        let new_offset = self.data.len() as u64;
                        let mut b = vstd::bytes::u64_to_le_bytes(0);
                        self.data.append(&mut b);
                        let var_addr = data_address_exec(new_offset);
                        self.mov_r10_immediate(var_addr);
                        self.mov_rax_to_r10_mem();
                        self.bind_variable(l.name.clone(), new_offset);
                        proof {
                            assert(gen_let(old(self)@, *l) matches Ok(st) && st =~= self@);
                        }
                        Ok(())
                    },
                    None => Err(
                        CodegenError {
                            message: cg_concat2("Undefined variable: ", name.as_str()),
                        },
                    ),
                }
            },
            _ => {
                match self.generate_expr(&l.value) {
                    Ok(_) => {},
                    Err(er) => {
                        return Err(er);
                    },
                }
                if self.data.len() > DATA_CAPACITY - 8 {
                    return Err(
                        CodegenError {
                            message: String::from_str("data section exceeds capacity"),
                        },
                    );
                }
                let new_offset = self.data.len() as u64;
                let mut b = vstd::bytes::u64_to_le_bytes(0);
                self.data.append(&mut b);
                let var_addr = data_address_exec(new_offset);
                self.mov_r10_immediate(var_addr);
                self.mov_rax_to_r10_mem();
                self.bind_variable(l.name.clone(), new_offset);
                proof {
                    assert(gen_let(old(self)@, *l) matches Ok(st) && st =~= self@);
                }
                Ok(())
            },
        }
    }

    /// The `write` syscall's lowering.
    #[verifier::spinoff_prover]
    #[verifier::rlimit(60)]
    fn generate_write_syscall(&mut self, args: &Vec<Expr>) -> (r: Result<(), CodegenError>)
        requires
            cg_wf(old(self)@),
        ensures
            cg_wf(final(self)@),
            (match r {
                Ok(_) => gen_write_syscall(old(self)@, args@) matches Ok(st) && st
                    == final(self)@,
                Err(er) => gen_write_syscall(old(self)@, args@) matches Err(se) && se == er@,
            }),
    {
        if args.len() == 0 {
            return Err(
                CodegenError {
                    message: String::from_str("write syscall requires at least one argument"),
                },
            );
        }
        let fd: u64 = if args.len() > 1 {
            match &args[0] {
                Expr::Literal(Literal::Int(v, _)) => #[verifier::truncate] (*v as u64),
                _ => 1,
            }
        } else {
            1
        };
        let data_arg_idx: usize = if args.len() > 1 {
            1
        } else {
            0
        };
        match &args[data_arg_idx] {
            Expr::Literal(Literal::String(bytes)) => {
                if bytes.len() > DATA_CAPACITY || self.data.len() > DATA_CAPACITY - bytes.len() {
                    return Err(
                        CodegenError {
                            message: String::from_str("data section exceeds capacity"),
                        },
                    );
                }
                let offset = self.data.len() as u64;
                let len = bytes.len() as u64;
                append_bytes(&mut self.data, bytes);
                let data_addr = data_address_exec(offset);
                self.mov_rdi_immediate(fd);
                self.mov_rsi_immediate(data_addr);
                self.mov_rdx_immediate(len);
                self.mov_rax_immediate(1);
                self.syscall();
                proof {
                    assert(gen_write_syscall(old(self)@, args@) matches Ok(st) && st =~= self@);
                }
                Ok(())
            },
            Expr::Identifier(name) => {
                match self.find_data_symbol(name) {
                    Some(p) => {
                        proof {
                            lemma_find_data_symbol_bounded(
                                self@.symbols,
                                name@,
                                DATA_CAPACITY as u64,
                            );
                        }
                        let data_addr = data_address_exec(p.0);
                        self.mov_rdi_immediate(fd);
                        self.mov_rsi_immediate(data_addr);
                        self.mov_rdx_immediate(p.1);
                        self.mov_rax_immediate(1);
                        self.syscall();
                        proof {
                            assert(gen_write_syscall(old(self)@, args@) matches Ok(st) && st
                                =~= self@);
                        }
                        Ok(())
                    },
                    None => Err(
                        CodegenError {
                            message: cg_concat2("Unknown identifier: ", name.as_str()),
                        },
                    ),
                }
            },
            _ => Err(
                CodegenError {
                    message: String::from_str(
                        "write syscall argument must be a string literal or identifier",
                    ),
                },
            ),
        }
    }

    /// An expression's emission; the returned value is the literal it leaves
    /// for an enclosing consumer.
    #[verifier::spinoff_prover]
    #[verifier::rlimit(80)]
    fn generate_expr(&mut self, expr: &Expr) -> (r: Result<u64, CodegenError>)
        requires
            cg_wf(old(self)@),
        ensures
            cg_wf(final(self)@),
            (match r {
                Ok(x) => gen_expr(old(self)@, *expr) matches Ok(p) && p.0 == x && p.1
                    == final(self)@,
                Err(er) => gen_expr(old(self)@, *expr) matches Err(se) && se == er@,
            }),
            r is Err && *expr is Literal ==> final(self)@ == old(self)@,
        decreases expr,
    {
        match expr {
            Expr::Literal(Literal::Int(v, suffix)) => {
                match IntType::from_suffix(suffix) {
                    Some(it) => {
                        if !it.fits(*v) {
                            let d = dec_i64_string(*v);
                            return Err(
                                CodegenError {
                                    message: cg_concat3(
                                        "Integer literal ",
                                        d.as_str(),
                                        " does not fit in type",
                                    ),
                                },
                            );
                        }
                        let masked = (#[verifier::truncate] (*v as u64)) & it.mask();
                        self.emit_width_immediate(masked, it.bits);
                        Ok(masked)
                    },
                    None => Ok(#[verifier::truncate] (*v as u64)),
                }
            },
            Expr::Identifier(name) => {
                match self.find_data_symbol(name) {
                    Some(p) => {
                        self.mov_rax_from_mem(p.0);
                        Ok(0)
                    },
                    None => {
                        match self.lookup_variable_offset(name) {
                            Some(offset) => {
                                proof {
                                    lemma_lookup_var_bounded(
                                        self@.variables,
                                        name@,
                                        DATA_CAPACITY as u64,
                                    );
                                }
                                let addr = data_address_exec(offset);
                                self.mov_r10_immediate(addr);
                                self.mov_rax_from_r10();
                                Ok(0)
                            },
                            None => Ok(0),
                        }
                    },
                }
            },
            Expr::Syscall(method_name, args) => {
                let write_name = String::from_str("write");
                if method_name.eq(&write_name) {
                    match self.generate_write_syscall(args) {
                        Ok(_) => Ok(0),
                        Err(er) => Err(er),
                    }
                } else {
                    Err(
                        CodegenError {
                            message: cg_concat2("Unknown syscall method: ", method_name.as_str()),
                        },
                    )
                }
            },
            Expr::Alloc(_ty, count) => {
                let size = match self.generate_expr(count) {
                    Ok(x) => x,
                    Err(er) => {
                        return Err(er);
                    },
                };
                let ghost st1 = self@;
                self.mov_rdi_immediate(size);
                let ghost mid = self@;
                self.call_external(&String::from_str("__aura_alloc"));
                proof {
                    assert(mid == (Cg { text: st1.text + mov_rdi_imm_bytes(size), ..st1 }));
                    assert(self@ == call_external_spec(mid, "__aura_alloc"@));
                    assert("__aura_alloc"@ == "__aura_alloc"@);
                    assert(self@ == (Cg { text: mid.text + seq![0x41u8, 0xffu8, 0xd6u8], ..mid }));
                    assert(gen_expr(old(self)@, **count) matches Ok(pp) && pp.0 == size && pp.1
                        == st1);
                    assert(gen_expr(old(self)@, *expr) == Ok::<(u64, Cg), CgErr>(
                        (
                            0,
                            Cg {
                                text: st1.text + mov_rdi_imm_bytes(size) + seq![
                                    0x41u8,
                                    0xffu8,
                                    0xd6u8,
                                ],
                                ..st1
                            },
                        ),
                    ));
                }
                Ok(0)
            },
            Expr::Free(ptr, size) => {
                match self.generate_expr(ptr) {
                    Ok(_) => {},
                    Err(er) => {
                        return Err(er);
                    },
                }
                self.mov_rdi_rax();
                let ghost st2 = self@;
                let size_val = match self.generate_expr(size) {
                    Ok(x) => x,
                    Err(er) => {
                        return Err(er);
                    },
                };
                let ghost st3 = self@;
                self.mov_rsi_immediate(size_val);
                self.call_external(&String::from_str("__aura_free"));
                proof {
                    reveal_strlit("__aura_alloc");
                    reveal_strlit("__aura_free");
                    assert("__aura_free"@.len() == 11 && "__aura_alloc"@.len() == 12);
                    assert("__aura_free"@ != "__aura_alloc"@);
                    assert(self@ == (Cg {
                        text: st3.text + mov_rsi_imm_bytes(size_val) + seq![0x41u8, 0xffu8, 0xd7u8],
                        ..st3
                    }));
                    assert(gen_expr(old(self)@, *expr) == Ok::<(u64, Cg), CgErr>(
                        (
                            0,
                            Cg {
                                text: st3.text + mov_rsi_imm_bytes(size_val) + seq![
                                    0x41u8,
                                    0xffu8,
                                    0xd7u8,
                                ],
                                ..st3
                            },
                        ),
                    ));
                }
                Ok(0)
            },
            Expr::Cast(e1, target_type) => {
                match self.generate_expr(e1) {
                    Ok(_) => {},
                    Err(er) => {
                        return Err(er);
                    },
                }
                self.generate_cast_conversion(target_type);
                Ok(0)
            },
            _ => Ok(0),
        }
    }

    #[verifier::spinoff_prover]
    fn generate_stmt(&mut self, stmt: &Stmt) -> (r: Result<(), CodegenError>)
        requires
            cg_wf(old(self)@),
        ensures
            cg_wf(final(self)@),
            (match r {
                Ok(_) => gen_stmt(old(self)@, *stmt) matches Ok(st) && st == final(self)@,
                Err(er) => gen_stmt(old(self)@, *stmt) matches Err(se) && se == er@,
            }),
        decreases stmt,
    {
        match stmt {
            Stmt::Return(r2) => {
                match r2 {
                    Some(e) => {
                        self.generate_return(e);
                        self.ret();
                    },
                    None => {
                        self.xor_rax_rax();
                        self.ret();
                    },
                }
                Ok(())
            },
            Stmt::Const(c) => self.generate_const_data(&c.name, &c.value),
            Stmt::Let(l) => self.generate_let(l),
            Stmt::Expr(e) => {
                match self.generate_expr(e) {
                    Ok(_) => Ok(()),
                    Err(er) => Err(er),
                }
            },
            Stmt::Block(stmts) => self.generate_stmt_list(stmts),
            _ => Ok(()),
        }
    }

    #[verifier::spinoff_prover]
    fn generate_stmt_list(&mut self, ss: &Vec<Stmt>) -> (r: Result<(), CodegenError>)
        requires
            cg_wf(old(self)@),
        ensures
            cg_wf(final(self)@),
            (match r {
                Ok(_) => gen_stmts(old(self)@, ss@) matches Ok(st) && st == final(self)@,
                Err(er) => gen_stmts(old(self)@, ss@) matches Err(se) && se == er@,
            }),
        decreases ss,
    {
        let ghost c0 = self@;
        let mut i: usize = 0;
        proof {
            assert(ss@.skip(0) =~= ss@);
        }
        while i < ss.len()
            invariant
                i <= ss.len(),
                c0 == old(self)@,
                cg_wf(self@),
                gen_stmts(c0, ss@) == gen_stmts(self@, ss@.skip(i as int)),
            decreases ss.len() - i,
        {
            proof {
                assert(ss@.skip(i as int)[0] == ss@[i as int]);
                assert(ss@.skip(i as int).drop_first() =~= ss@.skip(i + 1));
            }
            match self.generate_stmt(&ss[i]) {
                Ok(_) => {},
                Err(er) => {
                    return Err(er);
                },
            }
            i = i + 1;
        }
        proof {
            assert(ss@.skip(ss@.len() as int) =~= Seq::<Stmt>::empty());
        }
        Ok(())
    }

    /// A function's symbol, entry-point record, body, and size patch.
    #[verifier::spinoff_prover]
    #[verifier::rlimit(60)]
    fn generate_function(&mut self, f: &Function) -> (r: Result<(), CodegenError>)
        requires
            cg_wf(old(self)@),
        ensures
            cg_wf(final(self)@),
            (match r {
                Ok(_) => gen_function(old(self)@, *f) matches Ok(st) && st == final(self)@,
                Err(er) => gen_function(old(self)@, *f) matches Err(se) && se == er@,
            }),
    {
        let func_start = self.text.len();
        let ghost syms_before = self.symbols@;
        self.symbols.push(
            Symbol {
                name: f.name.clone(),
                offset: func_start as u64,
                size: 0,
                kind: SymbolKind::Function,
            },
        );
        proof {
            lemma_syms_view_push(syms_before, self.symbols@.last());
            assert(self.symbols@ =~= syms_before.push(self.symbols@.last()));
        }
        let is_entry = match &self.entry_point_name {
            Some(entry_name) => f.name.eq(entry_name),
            None => false,
        };
        if is_entry {
            self.entry_point = func_start as u64;
        }
        let ghost st2 = self@;
        match self.generate_stmt_list(&f.body) {
            Ok(_) => {},
            Err(er) => {
                return Err(er);
            },
        }
        proof {
            lemma_gen_stmts_text(st2, f.body@);
        }
        let size = (self.text.len() - func_start) as u64;
        self.set_first_symbol_size(&f.name, size);
        proof {
            assert(gen_function(old(self)@, *f) matches Ok(st) && st =~= self@);
        }
        Ok(())
    }

    #[verifier::spinoff_prover]
    fn generate_item(&mut self, item: &Item) -> (r: Result<(), CodegenError>)
        requires
            cg_wf(old(self)@),
        ensures
            cg_wf(final(self)@),
            (match r {
                Ok(_) => gen_item(old(self)@, *item) matches Ok(st) && st == final(self)@,
                Err(er) => gen_item(old(self)@, *item) matches Err(se) && se == er@,
            }),
    {
        match item {
            Item::Function(f) => self.generate_function(f),
            Item::Const(c) => self.generate_const_data(&c.name, &c.value),
            Item::Var(_) => self.generate_var_item(),
            _ => Ok(()),
        }
    }
}

/// Whether a function named `en` stands among the items.
fn entry_function_exists(items: &Vec<Item>, en: &String) -> (r: bool)
    ensures
        r == entry_exists(items@, en@),
{
    let mut j: usize = 0;
    while j < items.len()
        invariant
            j <= items.len(),
            forall|k: int|
                0 <= k < j ==> !((#[trigger] items@[k]) matches Item::Function(f) && f.name@
                    == en@),
        decreases items.len() - j,
    {
        match &items[j] {
            Item::Function(f) => {
                if f.name.eq(en) {
                    proof {
                        assert(0 <= j < items@.len() && ((items@[j as int])
                            matches Item::Function(f2) && f2.name@ == en@));
                    }
                    return true;
                }
            },
            _ => {},
        }
        j = j + 1;
    }
    false
}

/// Emits a type-checked program: scans for the entry-point attribute, checks
/// that the chosen function exists, and emits every item in order.
#[verifier::spinoff_prover]
#[verifier::rlimit(80)]
pub fn generate(typed_ast: &Program) -> (r: Result<AuraObject, CodegenError>)
    ensures
        (match r {
            Ok(obj) => gen_program(*typed_ast) matches Ok(st) && obj.text@ == st.text
                && obj.data@ == st.data && obj.bss_size == st.bss_size && relocs_view(
                obj.relocations@,
            ) == st.relocations && syms_view(obj.symbols@) == st.symbols && obj.entry_point
                == st.entry_point,
            Err(er) => gen_program(*typed_ast) matches Err(se) && se == er@,
        }),
{
    let items = &typed_ast.items;
    let mut entry_name: Option<String> = None;
    let mut i: usize = 0;
    proof {
        assert(items@.take(0) =~= Seq::<Item>::empty());
    }
    while i < items.len()
        invariant
            i <= items.len(),
            opt_name_view(entry_name) == scan_items(None, items@.take(i as int)),
        decreases items.len() - i,
    {
        let ghost outer_prev = opt_name_view(entry_name);
        match &items[i] {
            Item::Function(f) => {
                let mut k: usize = 0;
                proof {
                    assert(f.attrs@.take(0) =~= Seq::<FunctionAttribute>::empty());
                }
                while k < f.attrs.len()
                    invariant
                        k <= f.attrs.len(),
                        opt_name_view(entry_name) == scan_attrs(
                            outer_prev,
                            f.name@,
                            f.attrs@.take(k as int),
                        ),
                    decreases f.attrs.len() - k,
                {
                    proof {
                        assert(f.attrs@.take(k + 1).drop_last() =~= f.attrs@.take(k as int));
                        assert(f.attrs@.take(k + 1).last() == f.attrs@[k as int]);
                    }
                    match &f.attrs[k] {
                        FunctionAttribute::Entry(opt) => {
                            match opt {
                                Some(n) => {
                                    entry_name = Some(n.clone());
                                },
                                None => {
                                    entry_name = Some(f.name.clone());
                                },
                            }
                        },
                        _ => {},
                    }
                    k = k + 1;
                }
                proof {
                    assert(f.attrs@.take(f.attrs@.len() as int) =~= f.attrs@);
                }
            },
            _ => {},
        }
        proof {
            assert(items@.take(i + 1).drop_last() =~= items@.take(i as int));
            assert(items@.take(i + 1).last() == items@[i as int]);
        }
        i = i + 1;
    }
    proof {
        assert(items@.take(items@.len() as int) =~= items@);
    }
    if let Some(en) = &entry_name {
        if !entry_function_exists(items, en) {
            return Err(
                CodegenError {
                    message: cg_concat3(
                        "Entry point function '",
                        en.as_str(),
                        "' does not exist",
                    ),
                },
            );
        }
    }
    let mut codegen = CodeGenerator::new(entry_name);
    let ghost creg = codegen@;
    proof {
        assert(gen_program(*typed_ast) == gen_items(creg, items@));
    }
    let mut j: usize = 0;
    proof {
        assert(items@.skip(0) =~= items@);
    }
    while j < items.len()
        invariant
            j <= items.len(),
            cg_wf(codegen@),
            gen_program(*typed_ast) == gen_items(creg, items@),
            gen_items(creg, items@) == gen_items(codegen@, items@.skip(j as int)),
        decreases items.len() - j,
    {
        proof {
            assert(items@.skip(j as int)[0] == items@[j as int]);
            assert(items@.skip(j as int).drop_first() =~= items@.skip(j + 1));
        }
        match codegen.generate_item(&items[j]) {
            Ok(_) => {},
            Err(er) => {
                return Err(er);
            },
        }
        j = j + 1;
    }
    proof {
        assert(items@.skip(items@.len() as int) =~= Seq::<Item>::empty());
    }
    let CodeGenerator { text, data, bss_size, relocations, symbols, entry_point, .. } = codegen;
    Ok(AuraObject { entry_point, text, data, bss_size, relocations, symbols })
}


/// An integer literal with a sized suffix is accepted exactly when its value
/// fits the width; the emitted code is then one width-aware immediate move
/// whose operand is the value masked to the width, `v & (2^bits - 1)`.
pub proof fn lemma_literal_immediate_masked(st: Cg, v: i64, suffix: IntSuffix, it: IntType)
    requires
        suffix_int_type(suffix) == Some(it),
    ensures
        (gen_expr(st, Expr::Literal(Literal::Int(v, suffix))) is Ok) == fits_spec(v, it),
        fits_spec(v, it) ==> gen_expr(st, Expr::Literal(Literal::Int(v, suffix))) == Ok::<
            (u64, Cg),
            CgErr,
        >(
            (
                (v as u64) & mask_spec(it.bits),
                Cg { text: st.text + imm_bytes((v as u64) & mask_spec(it.bits), it.bits), ..st },
            ),
        ),
{
}

/// An accepted cast lowers to the operand's code followed by exactly the
/// conversion sequence of the target type, and touches nothing else.
pub proof fn lemma_cast_conversion(st: Cg, e: Expr, t: Type)
    ensures
        gen_expr(st, e) matches Ok(p) ==> gen_expr(st, Expr::Cast(Box::new(e), t)) == Ok::<
            (u64, Cg),
            CgErr,
        >((0, Cg { text: p.1.text + cast_bytes(t), ..p.1 })),
        gen_expr(st, e) matches Err(er) ==> gen_expr(st, Expr::Cast(Box::new(e), t)) == Err::<
            (u64, Cg),
            CgErr,
        >(er),
{
}

} // verus!
