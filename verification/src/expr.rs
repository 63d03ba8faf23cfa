//! Instructions, their immediates, and expressions, with the offsets of
//! branch hints relative to the start of the function.
use vstd::prelude::*;
use vstd::std_specs::bits::u64_trailing_zeros;
use vstd::bytes::{spec_u32_to_le_bytes, spec_u64_to_le_bytes, spec_u128_to_le_bytes};
use crate::leb::leb_unsigned;
use crate::encode::{Encode, all_encodable, encode_items, items_encoding, lemma_items_encoding_push};
use crate::types::{FunctionType, HeapType, Id, Index, NameAnnotation, RefType, TypeUse, ValType};

verus! {

/// The type of a block: an index, or an inline signature with no
/// parameters and at most one result.
pub struct BlockType {
    pub label: Option<Id>,
    pub label_name: Option<NameAnnotation>,
    pub ty: TypeUse,
}

/// Whether a block type has an index filled in.
pub open spec fn block_type_indexed(b: BlockType) -> bool {
    b.ty.index matches Some(Index::Num(_))
}

impl Encode for BlockType {
    /// A block type without an index needs an inline type with no
    /// parameters and at most one result.
    open spec fn encodable(&self) -> bool {
        ||| block_type_indexed(*self)
        ||| (self.ty.inline matches Some(ty) && ty.params@.len() == 0 && (
            ty.results@.len() == 0 || (ty.results@.len() == 1 && ty.results@[0].encodable())))
    }

    /// An index is written as a signed LEB128; an empty type as `0x40`; a
    /// single result as that value type.
    open spec fn encoding(&self) -> Seq<u8> {
        match self.ty.index {
            Some(Index::Num(n)) => crate::leb::leb_signed(n as int),
            _ => match self.ty.inline {
                Some(ty) => if ty.results@.len() == 0 {
                    seq![0x40u8]
                } else {
                    ty.results@[0].encoding()
                },
                None => seq![],
            },
        }
    }

    fn encode(&self, e: &mut Vec<u8>) {
        // block types using an index are encoded as an sleb, not a uleb
        if let Some(Index::Num(n)) = &self.ty.index {
            return (*n as i64).encode(e);
        }
        match &self.ty.inline {
            Some(ty) => {
                if ty.params.len() == 0 && ty.results.len() == 0 {
                    return e.push(0x40);
                }
                ty.results[0].encode(e);
            },
            None => {},
        }
    }
}

/// The kind of a `try_table` catch clause.
pub enum TryTableCatchKind {
    Catch(Index),
    CatchRef(Index),
    CatchAll,
    CatchAllRef,
}

/// A catch clause of `try_table`.
pub struct TryTableCatch {
    pub kind: TryTableCatchKind,
    pub label: Index,
}

impl Encode for TryTableCatch {
    open spec fn encodable(&self) -> bool {
        &&& self.label.encodable()
        &&& match self.kind {
            TryTableCatchKind::Catch(t) => t.encodable(),
            TryTableCatchKind::CatchRef(t) => t.encodable(),
            _ => true,
        }
    }

    /// A flag byte (0 to 3), the tag for the two kinds that name one, then
    /// the label.
    open spec fn encoding(&self) -> Seq<u8> {
        (match self.kind {
            TryTableCatchKind::Catch(t) => seq![0u8] + t.encoding(),
            TryTableCatchKind::CatchRef(t) => seq![1u8] + t.encoding(),
            TryTableCatchKind::CatchAll => seq![2u8],
            TryTableCatchKind::CatchAllRef => seq![3u8],
        }) + self.label.encoding()
    }

    fn encode(&self, dst: &mut Vec<u8>) {
        let flag_byte: u8 = match self.kind {
            TryTableCatchKind::Catch(..) => 0,
            TryTableCatchKind::CatchRef(..) => 1,
            TryTableCatchKind::CatchAll => 2,
            TryTableCatchKind::CatchAllRef => 3,
        };
        flag_byte.encode(dst);
        match &self.kind {
            TryTableCatchKind::Catch(tag) | TryTableCatchKind::CatchRef(tag) => {
                tag.encode(dst);
            },
            TryTableCatchKind::CatchAll | TryTableCatchKind::CatchAllRef => {},
        }
        self.label.encode(dst);
    }
}

/// The immediates of `try_table`.
pub struct TryTable {
    pub block: BlockType,
    pub catches: Vec<TryTableCatch>,
}

impl Encode for TryTable {
    open spec fn encodable(&self) -> bool {
        self.block.encodable() && self.catches.encodable()
    }

    open spec fn encoding(&self) -> Seq<u8> {
        self.block.encoding() + self.catches.encoding()
    }

    fn encode(&self, dst: &mut Vec<u8>) {
        self.block.encode(dst);
        self.catches.encode(dst);
    }
}

/// A memory access immediate.
pub struct MemArg {
    pub align: u64,
    pub offset: u64,
    pub memory: Index,
}

impl Encode for MemArg {
    open spec fn encodable(&self) -> bool {
        self.memory.encodable()
    }

    /// The base-2 logarithm of the alignment, with bit 6 set when a memory
    /// other than memory 0 follows; then that memory; then the offset.
    open spec fn encoding(&self) -> Seq<u8> {
        match self.memory {
            Index::Num(0) => leb_unsigned(u64_trailing_zeros(self.align) as nat) + leb_unsigned(
                self.offset as nat,
            ),
            _ => leb_unsigned((u64_trailing_zeros(self.align) | (1u32 << 6u32)) as nat)
                + self.memory.encoding() + leb_unsigned(self.offset as nat),
        }
    }

    fn encode(&self, e: &mut Vec<u8>) {
        match &self.memory {
            Index::Num(0) => {
                self.align.trailing_zeros().encode(e);
                self.offset.encode(e);
            },
            _ => {
                (self.align.trailing_zeros() | (1u32 << 6u32)).encode(e);
                self.memory.encode(e);
                self.offset.encode(e);
            },
        }
    }
}

/// A lane index of a SIMD instruction.
pub struct LaneArg {
    pub lane: u8,
}

impl Encode for LaneArg {
    open spec fn encodable(&self) -> bool {
        true
    }

    open spec fn encoding(&self) -> Seq<u8> {
        seq![self.lane]
    }

    fn encode(&self, e: &mut Vec<u8>) {
        self.lane.encode(e);
    }
}

/// The immediates of a lane load or store.
pub struct LoadOrStoreLane {
    pub memarg: MemArg,
    pub lane: LaneArg,
}

impl Encode for LoadOrStoreLane {
    open spec fn encodable(&self) -> bool {
        self.memarg.encodable()
    }

    open spec fn encoding(&self) -> Seq<u8> {
        self.memarg.encoding() + self.lane.encoding()
    }

    fn encode(&self, e: &mut Vec<u8>) {
        self.memarg.encode(e);
        self.lane.encode(e);
    }
}

/// The immediates of `call_indirect`.
pub struct CallIndirect {
    pub table: Index,
    pub ty: TypeUse,
}

impl Encode for CallIndirect {
    open spec fn encodable(&self) -> bool {
        self.ty.encodable() && self.table.encodable()
    }

    open spec fn encoding(&self) -> Seq<u8> {
        self.ty.encoding() + self.table.encoding()
    }

    fn encode(&self, e: &mut Vec<u8>) {
        self.ty.encode(e);
        self.table.encode(e);
    }
}

/// The immediates of `table.init`.
pub struct TableInit {
    pub table: Index,
    pub elem: Index,
}

impl Encode for TableInit {
    open spec fn encodable(&self) -> bool {
        self.elem.encodable() && self.table.encodable()
    }

    open spec fn encoding(&self) -> Seq<u8> {
        self.elem.encoding() + self.table.encoding()
    }

    fn encode(&self, e: &mut Vec<u8>) {
        self.elem.encode(e);
        self.table.encode(e);
    }
}

/// The immediates of `table.copy`.
pub struct TableCopy {
    pub dst: Index,
    pub src: Index,
}

impl Encode for TableCopy {
    open spec fn encodable(&self) -> bool {
        self.dst.encodable() && self.src.encodable()
    }

    open spec fn encoding(&self) -> Seq<u8> {
        self.dst.encoding() + self.src.encoding()
    }

    fn encode(&self, e: &mut Vec<u8>) {
        self.dst.encode(e);
        self.src.encode(e);
    }
}

/// A table operand.
pub struct TableArg {
    pub dst: Index,
}

impl Encode for TableArg {
    open spec fn encodable(&self) -> bool {
        self.dst.encodable()
    }

    open spec fn encoding(&self) -> Seq<u8> {
        self.dst.encoding()
    }

    fn encode(&self, e: &mut Vec<u8>) {
        self.dst.encode(e);
    }
}

/// A memory operand.
pub struct MemoryArg {
    pub mem: Index,
}

impl Encode for MemoryArg {
    open spec fn encodable(&self) -> bool {
        self.mem.encodable()
    }

    open spec fn encoding(&self) -> Seq<u8> {
        self.mem.encoding()
    }

    fn encode(&self, e: &mut Vec<u8>) {
        self.mem.encode(e);
    }
}

/// The immediates of `memory.init`.
pub struct MemoryInit {
    pub data: Index,
    pub mem: Index,
}

impl Encode for MemoryInit {
    open spec fn encodable(&self) -> bool {
        self.data.encodable() && self.mem.encodable()
    }

    open spec fn encoding(&self) -> Seq<u8> {
        self.data.encoding() + self.mem.encoding()
    }

    fn encode(&self, e: &mut Vec<u8>) {
        self.data.encode(e);
        self.mem.encode(e);
    }
}

/// The immediates of `memory.copy`.
pub struct MemoryCopy {
    pub src: Index,
    pub dst: Index,
}

impl Encode for MemoryCopy {
    open spec fn encodable(&self) -> bool {
        self.dst.encodable() && self.src.encodable()
    }

    open spec fn encoding(&self) -> Seq<u8> {
        self.dst.encoding() + self.src.encoding()
    }

    fn encode(&self, e: &mut Vec<u8>) {
        self.dst.encode(e);
        self.src.encode(e);
    }
}

/// The immediates of `br_table`.
pub struct BrTableIndices {
    pub labels: Vec<Index>,
    pub default: Index,
}

impl Encode for BrTableIndices {
    open spec fn encodable(&self) -> bool {
        self.labels.encodable() && self.default.encodable()
    }

    open spec fn encoding(&self) -> Seq<u8> {
        self.labels.encoding() + self.default.encoding()
    }

    fn encode(&self, e: &mut Vec<u8>) {
        self.labels.encode(e);
        self.default.encode(e);
    }
}

/// The immediates of `cont.bind`.
pub struct ContBind {
    pub src_index: Index,
    pub dst_index: Index,
}

impl Encode for ContBind {
    open spec fn encodable(&self) -> bool {
        self.src_index.encodable() && self.dst_index.encodable()
    }

    open spec fn encoding(&self) -> Seq<u8> {
        self.src_index.encoding() + self.dst_index.encoding()
    }

    fn encode(&self, e: &mut Vec<u8>) {
        self.src_index.encode(e);
        self.dst_index.encode(e);
    }
}

/// The handler table of `resume` and `resume_throw`: pairs of a tag and
/// a label.
pub struct ResumeTableIndices {
    pub targets: Vec<(Index, Index)>,
}

impl Encode for ResumeTableIndices {
    open spec fn encodable(&self) -> bool {
        self.targets.encodable()
    }

    open spec fn encoding(&self) -> Seq<u8> {
        self.targets.encoding()
    }

    fn encode(&self, e: &mut Vec<u8>) {
        self.targets.encode(e);
    }
}

/// The immediates of `resume`.
pub struct Resume {
    pub index: Index,
    pub table: ResumeTableIndices,
}

impl Encode for Resume {
    open spec fn encodable(&self) -> bool {
        self.index.encodable() && self.table.encodable()
    }

    open spec fn encoding(&self) -> Seq<u8> {
        self.index.encoding() + self.table.encoding()
    }

    fn encode(&self, e: &mut Vec<u8>) {
        self.index.encode(e);
        self.table.encode(e);
    }
}

/// The immediates of `resume_throw`.
pub struct ResumeThrow {
    pub type_index: Index,
    pub tag_index: Index,
    pub table: ResumeTableIndices,
}

impl Encode for ResumeThrow {
    open spec fn encodable(&self) -> bool {
        self.type_index.encodable() && self.tag_index.encodable() && self.table.encodable()
    }

    open spec fn encoding(&self) -> Seq<u8> {
        self.type_index.encoding() + self.tag_index.encoding() + self.table.encoding()
    }

    fn encode(&self, e: &mut Vec<u8>) {
        self.type_index.encode(e);
        self.tag_index.encode(e);
        self.table.encode(e);
    }
}

/// Appends all of `bytes`.
fn append_bytes(e: &mut Vec<u8>, bytes: Vec<u8>)
    ensures
        final(e)@ == old(e)@ + bytes@,
{
    let mut bytes = bytes;
    e.append(&mut bytes);
}

/// A 32-bit float, by its bits.
pub struct F32 {
    pub bits: u32,
}

impl Encode for F32 {
    open spec fn encodable(&self) -> bool {
        true
    }

    /// The four bytes of the bits, little-endian.
    open spec fn encoding(&self) -> Seq<u8> {
        spec_u32_to_le_bytes(self.bits)
    }

    fn encode(&self, e: &mut Vec<u8>) {
        append_bytes(e, vstd::bytes::u32_to_le_bytes(self.bits));
    }
}

/// A 64-bit float, by its bits.
pub struct F64 {
    pub bits: u64,
}

impl Encode for F64 {
    open spec fn encodable(&self) -> bool {
        true
    }

    /// The eight bytes of the bits, little-endian.
    open spec fn encoding(&self) -> Seq<u8> {
        spec_u64_to_le_bytes(self.bits)
    }

    fn encode(&self, e: &mut Vec<u8>) {
        append_bytes(e, vstd::bytes::u64_to_le_bytes(self.bits));
    }
}

/// A 128-bit vector constant, by its bits.
pub struct V128Const {
    pub bits: u128,
}

impl Encode for V128Const {
    open spec fn encodable(&self) -> bool {
        true
    }

    /// The sixteen bytes of the bits, little-endian.
    open spec fn encoding(&self) -> Seq<u8> {
        spec_u128_to_le_bytes(self.bits)
    }

    fn encode(&self, dst: &mut Vec<u8>) {
        append_bytes(dst, vstd::bytes::u128_to_le_bytes(self.bits));
    }
}

/// The lane selectors of `i8x16.shuffle`.
pub struct I8x16Shuffle {
    pub lanes: [u8; 16],
}

impl Encode for I8x16Shuffle {
    open spec fn encodable(&self) -> bool {
        true
    }

    /// The sixteen lane selectors, one byte each.
    open spec fn encoding(&self) -> Seq<u8> {
        self.lanes@
    }

    fn encode(&self, dst: &mut Vec<u8>) {
        let ghost start = dst@;
        let mut i: usize = 0;
        while i < 16
            invariant
                i <= 16,
                self.lanes@.len() == 16,
                dst@ == start + self.lanes@.take(i as int),
            decreases 16 - i,
        {
            dst.push(self.lanes[i]);
            i = i + 1;
            assert(dst@ == start + self.lanes@.take(i as int));
        }
        assert(self.lanes@.take(16) == self.lanes@);
    }
}

/// The optional result types of `select`.
pub struct SelectTypes {
    pub tys: Option<Vec<ValType>>,
}

impl Encode for SelectTypes {
    open spec fn encodable(&self) -> bool {
        self.tys matches Some(l) ==> l.encodable()
    }

    /// `0x1c` and the types when they are given, `0x1b` otherwise.
    open spec fn encoding(&self) -> Seq<u8> {
        match self.tys {
            Some(l) => seq![0x1cu8] + l.encoding(),
            None => seq![0x1bu8],
        }
    }

    fn encode(&self, dst: &mut Vec<u8>) {
        match &self.tys {
            Some(list) => {
                dst.push(0x1c);
                list.encode(dst);
            },
            None => dst.push(0x1b),
        }
    }
}

/// A struct and one of its fields.
pub struct StructAccess {
    pub struct_index: Index,
    pub field: Index,
}

impl Encode for StructAccess {
    open spec fn encodable(&self) -> bool {
        self.struct_index.encodable() && self.field.encodable()
    }

    open spec fn encoding(&self) -> Seq<u8> {
        self.struct_index.encoding() + self.field.encoding()
    }

    fn encode(&self, e: &mut Vec<u8>) {
        self.struct_index.encode(e);
        self.field.encode(e);
    }
}

/// The immediate of `array.fill`.
pub struct ArrayFill {
    pub array: Index,
}

impl Encode for ArrayFill {
    open spec fn encodable(&self) -> bool {
        self.array.encodable()
    }

    open spec fn encoding(&self) -> Seq<u8> {
        self.array.encoding()
    }

    fn encode(&self, e: &mut Vec<u8>) {
        self.array.encode(e);
    }
}

/// The immediates of `array.copy`.
pub struct ArrayCopy {
    pub dest_array: Index,
    pub src_array: Index,
}

impl Encode for ArrayCopy {
    open spec fn encodable(&self) -> bool {
        self.dest_array.encodable() && self.src_array.encodable()
    }

    open spec fn encoding(&self) -> Seq<u8> {
        self.dest_array.encoding() + self.src_array.encoding()
    }

    fn encode(&self, e: &mut Vec<u8>) {
        self.dest_array.encode(e);
        self.src_array.encode(e);
    }
}

/// The immediates of `array.init_data` and `array.init_elem`.
pub struct ArrayInit {
    pub array: Index,
    pub segment: Index,
}

impl Encode for ArrayInit {
    open spec fn encodable(&self) -> bool {
        self.array.encodable() && self.segment.encodable()
    }

    open spec fn encoding(&self) -> Seq<u8> {
        self.array.encoding() + self.segment.encoding()
    }

    fn encode(&self, e: &mut Vec<u8>) {
        self.array.encode(e);
        self.segment.encode(e);
    }
}

/// The immediates of `array.new_fixed`.
pub struct ArrayNewFixed {
    pub array: Index,
    pub length: u32,
}

impl Encode for ArrayNewFixed {
    open spec fn encodable(&self) -> bool {
        self.array.encodable()
    }

    open spec fn encoding(&self) -> Seq<u8> {
        self.array.encoding() + leb_unsigned(self.length as nat)
    }

    fn encode(&self, e: &mut Vec<u8>) {
        self.array.encode(e);
        self.length.encode(e);
    }
}

/// The immediates of `array.new_data`.
pub struct ArrayNewData {
    pub array: Index,
    pub data_idx: Index,
}

impl Encode for ArrayNewData {
    open spec fn encodable(&self) -> bool {
        self.array.encodable() && self.data_idx.encodable()
    }

    open spec fn encoding(&self) -> Seq<u8> {
        self.array.encoding() + self.data_idx.encoding()
    }

    fn encode(&self, e: &mut Vec<u8>) {
        self.array.encode(e);
        self.data_idx.encode(e);
    }
}

/// The immediates of `array.new_elem`.
pub struct ArrayNewElem {
    pub array: Index,
    pub elem_idx: Index,
}

impl Encode for ArrayNewElem {
    open spec fn encodable(&self) -> bool {
        self.array.encodable() && self.elem_idx.encodable()
    }

    open spec fn encoding(&self) -> Seq<u8> {
        self.array.encoding() + self.elem_idx.encoding()
    }

    fn encode(&self, e: &mut Vec<u8>) {
        self.array.encode(e);
        self.elem_idx.encode(e);
    }
}

/// `ref.test`.
pub struct RefTest {
    pub ref_type: RefType,
}

impl Encode for RefTest {
    open spec fn encodable(&self) -> bool {
        self.ref_type.heap.encodable()
    }

    /// `0xfb`, then `0x15` for a nullable target type and `0x14` otherwise,
    /// then the heap type.
    open spec fn encoding(&self) -> Seq<u8> {
        seq![0xfbu8, if self.ref_type.nullable { 0x15u8 } else { 0x14u8 }]
            + self.ref_type.heap.encoding()
    }

    fn encode(&self, e: &mut Vec<u8>) {
        e.push(0xfb);
        if self.ref_type.nullable {
            e.push(0x15);
        } else {
            e.push(0x14);
        }
        self.ref_type.heap.encode(e);
    }
}

/// `ref.cast`.
pub struct RefCast {
    pub ref_type: RefType,
}

impl Encode for RefCast {
    open spec fn encodable(&self) -> bool {
        self.ref_type.heap.encodable()
    }

    /// `0xfb`, then `0x17` for a nullable target type and `0x16` otherwise,
    /// then the heap type.
    open spec fn encoding(&self) -> Seq<u8> {
        seq![0xfbu8, if self.ref_type.nullable { 0x17u8 } else { 0x16u8 }]
            + self.ref_type.heap.encoding()
    }

    fn encode(&self, e: &mut Vec<u8>) {
        e.push(0xfb);
        if self.ref_type.nullable {
            e.push(0x17);
        } else {
            e.push(0x16);
        }
        self.ref_type.heap.encode(e);
    }
}

/// The flags byte of `br_on_cast` and `br_on_cast_fail`: bit 0 for a
/// nullable source type, bit 1 for a nullable target type.
pub open spec fn spec_br_on_cast_flags(from_nullable: bool, to_nullable: bool) -> u8 {
    ((if from_nullable { 1int } else { 0int }) + (if to_nullable { 2int } else { 0int })) as u8
}

/// Computes the flags byte of `br_on_cast` and `br_on_cast_fail`.
pub fn br_on_cast_flags(from_nullable: bool, to_nullable: bool) -> (flag: u8)
    ensures
        flag == spec_br_on_cast_flags(from_nullable, to_nullable),
{
    let mut flag: u8 = 0;
    if from_nullable {
        assert(0u8 | (1u8 << 0u8) == 1u8) by (bit_vector);
        flag |= 1 << 0;
    }
    assert(flag == (if from_nullable { 1u8 } else { 0u8 }));
    if to_nullable {
        assert(flag | (1u8 << 1u8) == flag + 2) by (bit_vector)
            requires
                flag <= 1,
        ;
        flag |= 1 << 1;
    }
    flag
}

/// `br_on_cast`.
pub struct BrOnCast {
    pub label: Index,
    pub from_type: RefType,
    pub to_type: RefType,
}

impl Encode for BrOnCast {
    open spec fn encodable(&self) -> bool {
        self.label.encodable() && self.from_type.heap.encodable() && self.to_type.heap.encodable()
    }

    /// `0xfb 0x18`, the flags, the label, then the two heap types.
    open spec fn encoding(&self) -> Seq<u8> {
        seq![0xfbu8, 0x18u8, spec_br_on_cast_flags(self.from_type.nullable, self.to_type.nullable)]
            + self.label.encoding() + self.from_type.heap.encoding() + self.to_type.heap.encoding()
    }

    fn encode(&self, e: &mut Vec<u8>) {
        e.push(0xfb);
        e.push(0x18);
        e.push(br_on_cast_flags(self.from_type.nullable, self.to_type.nullable));
        self.label.encode(e);
        self.from_type.heap.encode(e);
        self.to_type.heap.encode(e);
    }
}

/// `br_on_cast_fail`.
pub struct BrOnCastFail {
    pub label: Index,
    pub from_type: RefType,
    pub to_type: RefType,
}

impl Encode for BrOnCastFail {
    open spec fn encodable(&self) -> bool {
        self.label.encodable() && self.from_type.heap.encodable() && self.to_type.heap.encodable()
    }

    /// `0xfb 0x19`, the flags, the label, then the two heap types.
    open spec fn encoding(&self) -> Seq<u8> {
        seq![0xfbu8, 0x19u8, spec_br_on_cast_flags(self.from_type.nullable, self.to_type.nullable)]
            + self.label.encoding() + self.from_type.heap.encoding() + self.to_type.heap.encoding()
    }

    fn encode(&self, e: &mut Vec<u8>) {
        e.push(0xfb);
        e.push(0x19);
        e.push(br_on_cast_flags(self.from_type.nullable, self.to_type.nullable));
        self.label.encode(e);
        self.from_type.heap.encode(e);
        self.to_type.heap.encode(e);
    }
}

/// An instruction of a function body or constant expression.
pub enum Instruction {
    Unreachable,
    Nop,
    Block(BlockType),
    Loop(BlockType),
    If(BlockType),
    Else(Option<Id>),
    Try(BlockType),
    End(Option<Id>),
    Br(Index),
    BrIf(Index),
    BrTable(BrTableIndices),
    Return,
    Call(Index),
    CallIndirect(CallIndirect),
    ReturnCall(Index),
    Drop,
    Select(SelectTypes),
    TryTable(TryTable),
    LocalGet(Index),
    LocalSet(Index),
    LocalTee(Index),
    GlobalGet(Index),
    GlobalSet(Index),
    TableGet(TableArg),
    TableSet(TableArg),
    I32Load(MemArg),
    I64Load(MemArg),
    I32Store(MemArg),
    I64Store(MemArg),
    MemorySize(MemoryArg),
    MemoryGrow(MemoryArg),
    I32Const(i32),
    I64Const(i64),
    F32Const(F32),
    F64Const(F64),
    I32Eqz,
    I32Add,
    I32Sub,
    I64Add,
    RefNull(HeapType),
    RefIsNull,
    RefFunc(Index),
    ContBind(ContBind),
    Resume(Resume),
    ResumeThrow(ResumeThrow),
    StructNew(Index),
    StructGet(StructAccess),
    StructSet(StructAccess),
    ArrayNewFixed(ArrayNewFixed),
    ArrayNewData(ArrayNewData),
    ArrayNewElem(ArrayNewElem),
    ArrayFill(ArrayFill),
    ArrayCopy(ArrayCopy),
    ArrayInitData(ArrayInit),
    ArrayInitElem(ArrayInit),
    RefTest(RefTest),
    RefCast(RefCast),
    BrOnCast(BrOnCast),
    BrOnCastFail(BrOnCastFail),
    MemoryInit(MemoryInit),
    DataDrop(Index),
    MemoryCopy(MemoryCopy),
    MemoryFill(MemoryArg),
    TableInit(TableInit),
    ElemDrop(Index),
    TableCopy(TableCopy),
    TableGrow(TableArg),
    TableSize(TableArg),
    TableFill(TableArg),
    V128Const(V128Const),
    I8x16Shuffle(I8x16Shuffle),
    I8x16ExtractLaneS(LaneArg),
    V128Load8Lane(LoadOrStoreLane),
}

impl Encode for Instruction {
    open spec fn encodable(&self) -> bool {
        match self {
            Instruction::Block(x) => x.encodable(),
            Instruction::Loop(x) => x.encodable(),
            Instruction::If(x) => x.encodable(),
            Instruction::Else(x) => x.encodable(),
            Instruction::Try(x) => x.encodable(),
            Instruction::End(x) => x.encodable(),
            Instruction::Br(x) => x.encodable(),
            Instruction::BrIf(x) => x.encodable(),
            Instruction::BrTable(x) => x.encodable(),
            Instruction::Call(x) => x.encodable(),
            Instruction::CallIndirect(x) => x.encodable(),
            Instruction::ReturnCall(x) => x.encodable(),
            Instruction::Select(x) => x.encodable(),
            Instruction::TryTable(x) => x.encodable(),
            Instruction::LocalGet(x) => x.encodable(),
            Instruction::LocalSet(x) => x.encodable(),
            Instruction::LocalTee(x) => x.encodable(),
            Instruction::GlobalGet(x) => x.encodable(),
            Instruction::GlobalSet(x) => x.encodable(),
            Instruction::TableGet(x) => x.encodable(),
            Instruction::TableSet(x) => x.encodable(),
            Instruction::I32Load(x) => x.encodable(),
            Instruction::I64Load(x) => x.encodable(),
            Instruction::I32Store(x) => x.encodable(),
            Instruction::I64Store(x) => x.encodable(),
            Instruction::MemorySize(x) => x.encodable(),
            Instruction::MemoryGrow(x) => x.encodable(),
            Instruction::I32Const(x) => x.encodable(),
            Instruction::I64Const(x) => x.encodable(),
            Instruction::F32Const(x) => x.encodable(),
            Instruction::F64Const(x) => x.encodable(),
            Instruction::RefNull(x) => x.encodable(),
            Instruction::RefFunc(x) => x.encodable(),
            Instruction::ContBind(x) => x.encodable(),
            Instruction::Resume(x) => x.encodable(),
            Instruction::ResumeThrow(x) => x.encodable(),
            Instruction::StructNew(x) => x.encodable(),
            Instruction::StructGet(x) => x.encodable(),
            Instruction::StructSet(x) => x.encodable(),
            Instruction::ArrayNewFixed(x) => x.encodable(),
            Instruction::ArrayNewData(x) => x.encodable(),
            Instruction::ArrayNewElem(x) => x.encodable(),
            Instruction::ArrayFill(x) => x.encodable(),
            Instruction::ArrayCopy(x) => x.encodable(),
            Instruction::ArrayInitData(x) => x.encodable(),
            Instruction::ArrayInitElem(x) => x.encodable(),
            Instruction::RefTest(x) => x.encodable(),
            Instruction::RefCast(x) => x.encodable(),
            Instruction::BrOnCast(x) => x.encodable(),
            Instruction::BrOnCastFail(x) => x.encodable(),
            Instruction::MemoryInit(x) => x.encodable(),
            Instruction::DataDrop(x) => x.encodable(),
            Instruction::MemoryCopy(x) => x.encodable(),
            Instruction::MemoryFill(x) => x.encodable(),
            Instruction::TableInit(x) => x.encodable(),
            Instruction::ElemDrop(x) => x.encodable(),
            Instruction::TableCopy(x) => x.encodable(),
            Instruction::TableGrow(x) => x.encodable(),
            Instruction::TableSize(x) => x.encodable(),
            Instruction::TableFill(x) => x.encodable(),
            Instruction::V128Const(x) => x.encodable(),
            Instruction::I8x16Shuffle(x) => x.encodable(),
            Instruction::I8x16ExtractLaneS(x) => x.encodable(),
            Instruction::V128Load8Lane(x) => x.encodable(),
            _ => true,
        }
    }

    /// The opcode, then the immediates.
    open spec fn encoding(&self) -> Seq<u8> {
        match self {
            Instruction::Unreachable => seq![0x00u8],
            Instruction::Nop => seq![0x01u8],
            Instruction::Block(x) => seq![0x02u8] + x.encoding(),
            Instruction::Loop(x) => seq![0x03u8] + x.encoding(),
            Instruction::If(x) => seq![0x04u8] + x.encoding(),
            Instruction::Else(x) => seq![0x05u8] + x.encoding(),
            Instruction::Try(x) => seq![0x06u8] + x.encoding(),
            Instruction::End(x) => seq![0x0bu8] + x.encoding(),
            Instruction::Br(x) => seq![0x0cu8] + x.encoding(),
            Instruction::BrIf(x) => seq![0x0du8] + x.encoding(),
            Instruction::BrTable(x) => seq![0x0eu8] + x.encoding(),
            Instruction::Return => seq![0x0fu8],
            Instruction::Call(x) => seq![0x10u8] + x.encoding(),
            Instruction::CallIndirect(x) => seq![0x11u8] + x.encoding(),
            Instruction::ReturnCall(x) => seq![0x12u8] + x.encoding(),
            Instruction::Drop => seq![0x1au8],
            Instruction::Select(x) => x.encoding(),
            Instruction::TryTable(x) => seq![0x1fu8] + x.encoding(),
            Instruction::LocalGet(x) => seq![0x20u8] + x.encoding(),
            Instruction::LocalSet(x) => seq![0x21u8] + x.encoding(),
            Instruction::LocalTee(x) => seq![0x22u8] + x.encoding(),
            Instruction::GlobalGet(x) => seq![0x23u8] + x.encoding(),
            Instruction::GlobalSet(x) => seq![0x24u8] + x.encoding(),
            Instruction::TableGet(x) => seq![0x25u8] + x.encoding(),
            Instruction::TableSet(x) => seq![0x26u8] + x.encoding(),
            Instruction::I32Load(x) => seq![0x28u8] + x.encoding(),
            Instruction::I64Load(x) => seq![0x29u8] + x.encoding(),
            Instruction::I32Store(x) => seq![0x36u8] + x.encoding(),
            Instruction::I64Store(x) => seq![0x37u8] + x.encoding(),
            Instruction::MemorySize(x) => seq![0x3fu8] + x.encoding(),
            Instruction::MemoryGrow(x) => seq![0x40u8] + x.encoding(),
            Instruction::I32Const(x) => seq![0x41u8] + x.encoding(),
            Instruction::I64Const(x) => seq![0x42u8] + x.encoding(),
            Instruction::F32Const(x) => seq![0x43u8] + x.encoding(),
            Instruction::F64Const(x) => seq![0x44u8] + x.encoding(),
            Instruction::I32Eqz => seq![0x45u8],
            Instruction::I32Add => seq![0x6au8],
            Instruction::I32Sub => seq![0x6bu8],
            Instruction::I64Add => seq![0x7cu8],
            Instruction::RefNull(x) => seq![0xd0u8] + x.encoding(),
            Instruction::RefIsNull => seq![0xd1u8],
            Instruction::RefFunc(x) => seq![0xd2u8] + x.encoding(),
            Instruction::ContBind(x) => seq![0xe1u8] + x.encoding(),
            Instruction::Resume(x) => seq![0xe3u8] + x.encoding(),
            Instruction::ResumeThrow(x) => seq![0xe4u8] + x.encoding(),
            Instruction::StructNew(x) => seq![0xfbu8, 0x00u8] + x.encoding(),
            Instruction::StructGet(x) => seq![0xfbu8, 0x02u8] + x.encoding(),
            Instruction::StructSet(x) => seq![0xfbu8, 0x05u8] + x.encoding(),
            Instruction::ArrayNewFixed(x) => seq![0xfbu8, 0x08u8] + x.encoding(),
            Instruction::ArrayNewData(x) => seq![0xfbu8, 0x09u8] + x.encoding(),
            Instruction::ArrayNewElem(x) => seq![0xfbu8, 0x0au8] + x.encoding(),
            Instruction::ArrayFill(x) => seq![0xfbu8, 0x10u8] + x.encoding(),
            Instruction::ArrayCopy(x) => seq![0xfbu8, 0x11u8] + x.encoding(),
            Instruction::ArrayInitData(x) => seq![0xfbu8, 0x12u8] + x.encoding(),
            Instruction::ArrayInitElem(x) => seq![0xfbu8, 0x13u8] + x.encoding(),
            Instruction::RefTest(x) => x.encoding(),
            Instruction::RefCast(x) => x.encoding(),
            Instruction::BrOnCast(x) => x.encoding(),
            Instruction::BrOnCastFail(x) => x.encoding(),
            Instruction::MemoryInit(x) => seq![0xfcu8, 0x08u8] + x.encoding(),
            Instruction::DataDrop(x) => seq![0xfcu8, 0x09u8] + x.encoding(),
            Instruction::MemoryCopy(x) => seq![0xfcu8, 0x0au8] + x.encoding(),
            Instruction::MemoryFill(x) => seq![0xfcu8, 0x0bu8] + x.encoding(),
            Instruction::TableInit(x) => seq![0xfcu8, 0x0cu8] + x.encoding(),
            Instruction::ElemDrop(x) => seq![0xfcu8, 0x0du8] + x.encoding(),
            Instruction::TableCopy(x) => seq![0xfcu8, 0x0eu8] + x.encoding(),
            Instruction::TableGrow(x) => seq![0xfcu8, 0x0fu8] + x.encoding(),
            Instruction::TableSize(x) => seq![0xfcu8, 0x10u8] + x.encoding(),
            Instruction::TableFill(x) => seq![0xfcu8, 0x11u8] + x.encoding(),
            Instruction::V128Const(x) => seq![0xfdu8, 0x0cu8] + x.encoding(),
            Instruction::I8x16Shuffle(x) => seq![0xfdu8, 0x0du8] + x.encoding(),
            Instruction::I8x16ExtractLaneS(x) => seq![0xfdu8, 0x15u8] + x.encoding(),
            Instruction::V128Load8Lane(x) => seq![0xfdu8, 0x54u8] + x.encoding(),
        }
    }

    fn encode(&self, e: &mut Vec<u8>) {
        match self {
            Instruction::Unreachable => {
                e.push(0x00);
            },
            Instruction::Nop => {
                e.push(0x01);
            },
            Instruction::Block(x) => {
                e.push(0x02);
                x.encode(e);
            },
            Instruction::Loop(x) => {
                e.push(0x03);
                x.encode(e);
            },
            Instruction::If(x) => {
                e.push(0x04);
                x.encode(e);
            },
            Instruction::Else(x) => {
                e.push(0x05);
                x.encode(e);
            },
            Instruction::Try(x) => {
                e.push(0x06);
                x.encode(e);
            },
            Instruction::End(x) => {
                e.push(0x0b);
                x.encode(e);
            },
            Instruction::Br(x) => {
                e.push(0x0c);
                x.encode(e);
            },
            Instruction::BrIf(x) => {
                e.push(0x0d);
                x.encode(e);
            },
            Instruction::BrTable(x) => {
                e.push(0x0e);
                x.encode(e);
            },
            Instruction::Return => {
                e.push(0x0f);
            },
            Instruction::Call(x) => {
                e.push(0x10);
                x.encode(e);
            },
            Instruction::CallIndirect(x) => {
                e.push(0x11);
                x.encode(e);
            },
            Instruction::ReturnCall(x) => {
                e.push(0x12);
                x.encode(e);
            },
            Instruction::Drop => {
                e.push(0x1a);
            },
            Instruction::Select(x) => {
                x.encode(e);
            },
            Instruction::TryTable(x) => {
                e.push(0x1f);
                x.encode(e);
            },
            Instruction::LocalGet(x) => {
                e.push(0x20);
                x.encode(e);
            },
            Instruction::LocalSet(x) => {
                e.push(0x21);
                x.encode(e);
            },
            Instruction::LocalTee(x) => {
                e.push(0x22);
                x.encode(e);
            },
            Instruction::GlobalGet(x) => {
                e.push(0x23);
                x.encode(e);
            },
            Instruction::GlobalSet(x) => {
                e.push(0x24);
                x.encode(e);
            },
            Instruction::TableGet(x) => {
                e.push(0x25);
                x.encode(e);
            },
            Instruction::TableSet(x) => {
                e.push(0x26);
                x.encode(e);
            },
            Instruction::I32Load(x) => {
                e.push(0x28);
                x.encode(e);
            },
            Instruction::I64Load(x) => {
                e.push(0x29);
                x.encode(e);
            },
            Instruction::I32Store(x) => {
                e.push(0x36);
                x.encode(e);
            },
            Instruction::I64Store(x) => {
                e.push(0x37);
                x.encode(e);
            },
            Instruction::MemorySize(x) => {
                e.push(0x3f);
                x.encode(e);
            },
            Instruction::MemoryGrow(x) => {
                e.push(0x40);
                x.encode(e);
            },
            Instruction::I32Const(x) => {
                e.push(0x41);
                x.encode(e);
            },
            Instruction::I64Const(x) => {
                e.push(0x42);
                x.encode(e);
            },
            Instruction::F32Const(x) => {
                e.push(0x43);
                x.encode(e);
            },
            Instruction::F64Const(x) => {
                e.push(0x44);
                x.encode(e);
            },
            Instruction::I32Eqz => {
                e.push(0x45);
            },
            Instruction::I32Add => {
                e.push(0x6a);
            },
            Instruction::I32Sub => {
                e.push(0x6b);
            },
            Instruction::I64Add => {
                e.push(0x7c);
            },
            Instruction::RefNull(x) => {
                e.push(0xd0);
                x.encode(e);
            },
            Instruction::RefIsNull => {
                e.push(0xd1);
            },
            Instruction::RefFunc(x) => {
                e.push(0xd2);
                x.encode(e);
            },
            Instruction::ContBind(x) => {
                e.push(0xe1);
                x.encode(e);
            },
            Instruction::Resume(x) => {
                e.push(0xe3);
                x.encode(e);
            },
            Instruction::ResumeThrow(x) => {
                e.push(0xe4);
                x.encode(e);
            },
            Instruction::StructNew(x) => {
                e.push(0xfb);
                e.push(0x00);
                x.encode(e);
            },
            Instruction::StructGet(x) => {
                e.push(0xfb);
                e.push(0x02);
                x.encode(e);
            },
            Instruction::StructSet(x) => {
                e.push(0xfb);
                e.push(0x05);
                x.encode(e);
            },
            Instruction::ArrayNewFixed(x) => {
                e.push(0xfb);
                e.push(0x08);
                x.encode(e);
            },
            Instruction::ArrayNewData(x) => {
                e.push(0xfb);
                e.push(0x09);
                x.encode(e);
            },
            Instruction::ArrayNewElem(x) => {
                e.push(0xfb);
                e.push(0x0a);
                x.encode(e);
            },
            Instruction::ArrayFill(x) => {
                e.push(0xfb);
                e.push(0x10);
                x.encode(e);
            },
            Instruction::ArrayCopy(x) => {
                e.push(0xfb);
                e.push(0x11);
                x.encode(e);
            },
            Instruction::ArrayInitData(x) => {
                e.push(0xfb);
                e.push(0x12);
                x.encode(e);
            },
            Instruction::ArrayInitElem(x) => {
                e.push(0xfb);
                e.push(0x13);
                x.encode(e);
            },
            Instruction::RefTest(x) => {
                x.encode(e);
            },
            Instruction::RefCast(x) => {
                x.encode(e);
            },
            Instruction::BrOnCast(x) => {
                x.encode(e);
            },
            Instruction::BrOnCastFail(x) => {
                x.encode(e);
            },
            Instruction::MemoryInit(x) => {
                e.push(0xfc);
                e.push(0x08);
                x.encode(e);
            },
            Instruction::DataDrop(x) => {
                e.push(0xfc);
                e.push(0x09);
                x.encode(e);
            },
            Instruction::MemoryCopy(x) => {
                e.push(0xfc);
                e.push(0x0a);
                x.encode(e);
            },
            Instruction::MemoryFill(x) => {
                e.push(0xfc);
                e.push(0x0b);
                x.encode(e);
            },
            Instruction::TableInit(x) => {
                e.push(0xfc);
                e.push(0x0c);
                x.encode(e);
            },
            Instruction::ElemDrop(x) => {
                e.push(0xfc);
                e.push(0x0d);
                x.encode(e);
            },
            Instruction::TableCopy(x) => {
                e.push(0xfc);
                e.push(0x0e);
                x.encode(e);
            },
            Instruction::TableGrow(x) => {
                e.push(0xfc);
                e.push(0x0f);
                x.encode(e);
            },
            Instruction::TableSize(x) => {
                e.push(0xfc);
                e.push(0x10);
                x.encode(e);
            },
            Instruction::TableFill(x) => {
                e.push(0xfc);
                e.push(0x11);
                x.encode(e);
            },
            Instruction::V128Const(x) => {
                e.push(0xfd);
                e.push(0x0c);
                x.encode(e);
            },
            Instruction::I8x16Shuffle(x) => {
                e.push(0xfd);
                e.push(0x0d);
                x.encode(e);
            },
            Instruction::I8x16ExtractLaneS(x) => {
                e.push(0xfd);
                e.push(0x15);
                x.encode(e);
            },
            Instruction::V128Load8Lane(x) => {
                e.push(0xfd);
                e.push(0x54);
                x.encode(e);
            },
        }
    }
}

impl Instruction {
    /// The instructions that refer to data segments by index, which needs
    /// the data count section.
    pub open spec fn spec_needs_data_count(&self) -> bool {
        ||| self is MemoryInit
        ||| self is DataDrop
        ||| self is ArrayNewData
        ||| self is ArrayInitData
    }

    /// Whether the instruction needs the data count section.
    pub fn needs_data_count(&self) -> (r: bool)
        ensures
            r == self.spec_needs_data_count(),
    {
        match self {
            Instruction::MemoryInit(_) | Instruction::DataDrop(_) | Instruction::ArrayNewData(_)
            | Instruction::ArrayInitData(_) => true,
            _ => false,
        }
    }

    /// The block type of an instruction that opens a labelled block.
    pub open spec fn block_type(&self) -> Option<BlockType> {
        match self {
            Instruction::If(b) => Some(*b),
            Instruction::Block(b) => Some(*b),
            Instruction::Loop(b) => Some(*b),
            Instruction::Try(b) => Some(*b),
            Instruction::TryTable(t) => Some(t.block),
            _ => None,
        }
    }
}

/// Each instruction starts with its opcode: one byte for the core
/// instructions (`unreachable` 0x00, `nop` 0x01, `block` 0x02, ..., `call`
/// 0x10, `local.get` 0x20, `i32.add` 0x6a, `ref.null` 0xd0, ...), or a
/// prefix byte (0xfb for the GC instructions, 0xfc for the bulk memory and
/// table instructions, 0xfd for the vector instructions) and then the
/// instruction's number.
pub proof fn lemma_instruction_opcodes(i: Instruction)
    ensures
        i is Unreachable ==> i.encoding()[0] == 0x00u8,
        i is Nop ==> i.encoding()[0] == 0x01u8,
        i is Block ==> i.encoding()[0] == 0x02u8,
        i is Loop ==> i.encoding()[0] == 0x03u8,
        i is If ==> i.encoding()[0] == 0x04u8,
        i is Else ==> i.encoding()[0] == 0x05u8,
        i is Try ==> i.encoding()[0] == 0x06u8,
        i is End ==> i.encoding()[0] == 0x0bu8,
        i is Br ==> i.encoding()[0] == 0x0cu8,
        i is BrIf ==> i.encoding()[0] == 0x0du8,
        i is BrTable ==> i.encoding()[0] == 0x0eu8,
        i is Return ==> i.encoding()[0] == 0x0fu8,
        i is Call ==> i.encoding()[0] == 0x10u8,
        i is CallIndirect ==> i.encoding()[0] == 0x11u8,
        i is ReturnCall ==> i.encoding()[0] == 0x12u8,
        i is Drop ==> i.encoding()[0] == 0x1au8,
        i is TryTable ==> i.encoding()[0] == 0x1fu8,
        i is LocalGet ==> i.encoding()[0] == 0x20u8,
        i is LocalSet ==> i.encoding()[0] == 0x21u8,
        i is LocalTee ==> i.encoding()[0] == 0x22u8,
        i is GlobalGet ==> i.encoding()[0] == 0x23u8,
        i is GlobalSet ==> i.encoding()[0] == 0x24u8,
        i is TableGet ==> i.encoding()[0] == 0x25u8,
        i is TableSet ==> i.encoding()[0] == 0x26u8,
        i is I32Load ==> i.encoding()[0] == 0x28u8,
        i is I64Load ==> i.encoding()[0] == 0x29u8,
        i is I32Store ==> i.encoding()[0] == 0x36u8,
        i is I64Store ==> i.encoding()[0] == 0x37u8,
        i is MemorySize ==> i.encoding()[0] == 0x3fu8,
        i is MemoryGrow ==> i.encoding()[0] == 0x40u8,
        i is I32Const ==> i.encoding()[0] == 0x41u8,
        i is I64Const ==> i.encoding()[0] == 0x42u8,
        i is F32Const ==> i.encoding()[0] == 0x43u8,
        i is F64Const ==> i.encoding()[0] == 0x44u8,
        i is I32Eqz ==> i.encoding()[0] == 0x45u8,
        i is I32Add ==> i.encoding()[0] == 0x6au8,
        i is I32Sub ==> i.encoding()[0] == 0x6bu8,
        i is I64Add ==> i.encoding()[0] == 0x7cu8,
        i is RefNull ==> i.encoding()[0] == 0xd0u8,
        i is RefIsNull ==> i.encoding()[0] == 0xd1u8,
        i is RefFunc ==> i.encoding()[0] == 0xd2u8,
        i is ContBind ==> i.encoding()[0] == 0xe1u8,
        i is Resume ==> i.encoding()[0] == 0xe3u8,
        i is ResumeThrow ==> i.encoding()[0] == 0xe4u8,
        i is StructNew ==> i.encoding()[0] == 0xfbu8 && i.encoding()[1] == 0x00u8,
        i is StructGet ==> i.encoding()[0] == 0xfbu8 && i.encoding()[1] == 0x02u8,
        i is StructSet ==> i.encoding()[0] == 0xfbu8 && i.encoding()[1] == 0x05u8,
        i is ArrayNewFixed ==> i.encoding()[0] == 0xfbu8 && i.encoding()[1] == 0x08u8,
        i is ArrayNewData ==> i.encoding()[0] == 0xfbu8 && i.encoding()[1] == 0x09u8,
        i is ArrayNewElem ==> i.encoding()[0] == 0xfbu8 && i.encoding()[1] == 0x0au8,
        i is ArrayFill ==> i.encoding()[0] == 0xfbu8 && i.encoding()[1] == 0x10u8,
        i is ArrayCopy ==> i.encoding()[0] == 0xfbu8 && i.encoding()[1] == 0x11u8,
        i is ArrayInitData ==> i.encoding()[0] == 0xfbu8 && i.encoding()[1] == 0x12u8,
        i is ArrayInitElem ==> i.encoding()[0] == 0xfbu8 && i.encoding()[1] == 0x13u8,
        i is MemoryInit ==> i.encoding()[0] == 0xfcu8 && i.encoding()[1] == 0x08u8,
        i is DataDrop ==> i.encoding()[0] == 0xfcu8 && i.encoding()[1] == 0x09u8,
        i is MemoryCopy ==> i.encoding()[0] == 0xfcu8 && i.encoding()[1] == 0x0au8,
        i is MemoryFill ==> i.encoding()[0] == 0xfcu8 && i.encoding()[1] == 0x0bu8,
        i is TableInit ==> i.encoding()[0] == 0xfcu8 && i.encoding()[1] == 0x0cu8,
        i is ElemDrop ==> i.encoding()[0] == 0xfcu8 && i.encoding()[1] == 0x0du8,
        i is TableCopy ==> i.encoding()[0] == 0xfcu8 && i.encoding()[1] == 0x0eu8,
        i is TableGrow ==> i.encoding()[0] == 0xfcu8 && i.encoding()[1] == 0x0fu8,
        i is TableSize ==> i.encoding()[0] == 0xfcu8 && i.encoding()[1] == 0x10u8,
        i is TableFill ==> i.encoding()[0] == 0xfcu8 && i.encoding()[1] == 0x11u8,
        i is V128Const ==> i.encoding()[0] == 0xfdu8 && i.encoding()[1] == 0x0cu8,
        i is I8x16Shuffle ==> i.encoding()[0] == 0xfdu8 && i.encoding()[1] == 0x0du8,
        i is I8x16ExtractLaneS ==> i.encoding()[0] == 0xfdu8 && i.encoding()[1] == 0x15u8,
        i is V128Load8Lane ==> i.encoding()[0] == 0xfdu8 && i.encoding()[1] == 0x54u8,
        i matches Instruction::Select(x) ==> i.encoding()[0] == (if x.tys is Some { 0x1cu8 } else {
            0x1bu8
        }),
        i matches Instruction::RefTest(x) ==> i.encoding()[0] == 0xfbu8 && i.encoding()[1] == (
        if x.ref_type.nullable {
            0x15u8
        } else {
            0x14u8
        }),
        i matches Instruction::RefCast(x) ==> i.encoding()[0] == 0xfbu8 && i.encoding()[1] == (
        if x.ref_type.nullable {
            0x17u8
        } else {
            0x16u8
        }),
        i is BrOnCast ==> i.encoding()[0] == 0xfbu8 && i.encoding()[1] == 0x18u8,
        i is BrOnCastFail ==> i.encoding()[0] == 0xfbu8 && i.encoding()[1] == 0x19u8,
{
}

/// A block type that names a type index is written as that index in
/// signed LEB128 (reading back as the index); otherwise an empty type is
/// 0x40 and a single result is its value type.
pub proof fn lemma_block_type_forms(b: BlockType)
    ensures
        b.ty.index matches Some(Index::Num(n)) ==> crate::leb::leb_framed(b.encoding())
            && crate::leb::signed_value(b.encoding()) == n,
        !(b.ty.index matches Some(Index::Num(_))) && (b.ty.inline matches Some(ty)
            && ty.results@.len() == 0) ==> b.encoding() == seq![0x40u8],
        !(b.ty.index matches Some(Index::Num(_))) && (b.ty.inline matches Some(ty)
            && ty.results@.len() == 1) ==> b.encoding() == b.ty.inline.unwrap().results@[0].encoding(),
{
    if let Some(Index::Num(n)) = b.ty.index {
        crate::leb::lemma_leb_signed_reads_back(n as int);
    }
}

/// A branch hint annotation: the hinted instruction's position in the
/// expression and the hint's value.
pub struct InstrBranchHint {
    pub instr_index: usize,
    pub value: u32,
}

/// A sequence of instructions with its branch hints.
pub struct Expression {
    pub instrs: Vec<Instruction>,
    pub branch_hints: Vec<InstrBranchHint>,
}

/// A branch hint as emitted: the byte offset of the hinted instruction
/// from the start of its function body, and the hint's value.
pub struct BranchHint {
    pub branch_func_offset: u32,
    pub branch_hint_value: u32,
}

impl Encode for BranchHint {
    open spec fn encodable(&self) -> bool {
        true
    }

    /// The offset, the size of the value (always 1), then the value.
    open spec fn encoding(&self) -> Seq<u8> {
        leb_unsigned(self.branch_func_offset as nat) + leb_unsigned(1) + leb_unsigned(
            self.branch_hint_value as nat,
        )
    }

    fn encode(&self, e: &mut Vec<u8>) {
        self.branch_func_offset.encode(e);
        1u32.encode(e);
        self.branch_hint_value.encode(e);
    }
}

/// The branch hints that emission keeps, `m` of them: the longest prefix of
/// `hints` whose instruction indices increase strictly and name one of the
/// `n` instructions.
pub open spec fn kept_hints(hints: Seq<InstrBranchHint>, n: int, m: int) -> bool {
    &&& 0 <= m <= hints.len()
    &&& forall|t: int| 0 <= t < m ==> (#[trigger] hints[t]).instr_index < n
    &&& forall|t: int| 0 < t < m ==> hints[t - 1].instr_index < (#[trigger] hints[t]).instr_index
    &&& !(m < hints.len() && hints[m].instr_index < n && (m > 0 ==> hints[m - 1].instr_index
        < hints[m].instr_index))
}

/// The number of hints that emission keeps, counting on from `m`: the
/// length of the longest prefix of `hints` whose instruction indices
/// increase strictly and stay below `n`.
pub open spec fn kept_count(hints: Seq<InstrBranchHint>, n: int, m: int) -> int
    decreases hints.len() - m,
{
    if 0 <= m < hints.len() && hints[m].instr_index < n && (m == 0 || hints[m - 1].instr_index
        < hints[m].instr_index) {
        kept_count(hints, n, m + 1)
    } else {
        m
    }
}

/// `kept_hints` holds of exactly one count, `kept_count(hints, n, 0)`.
pub proof fn lemma_kept_count(hints: Seq<InstrBranchHint>, n: int, m: int, k: int)
    requires
        kept_hints(hints, n, m),
        0 <= k <= m,
    ensures
        kept_count(hints, n, k) == m,
    decreases m - k,
{
    if k < m {
        lemma_kept_count(hints, n, m, k + 1);
    }
}

/// Hint `t` is among those that emission keeps for `n` instructions.
pub open spec fn hint_kept(hints: Seq<InstrBranchHint>, n: int, t: int) -> bool {
    &&& 0 <= t < hints.len()
    &&& forall|u: int| 0 <= u <= t ==> (#[trigger] hints[u]).instr_index < n
    &&& forall|u: int| 0 < u <= t ==> hints[u - 1].instr_index < (#[trigger] hints[u]).instr_index
}

impl Expression {
    /// The offset of every kept hint, counted from `base` bytes before the
    /// expression, fits in 32 bits.
    pub open spec fn hint_offsets_fit(&self, base: int) -> bool {
        forall|t: int|
            hint_kept(self.branch_hints@, self.instrs@.len() as int, t) ==> base
                + self.instr_offset(#[trigger] self.branch_hints@[t].instr_index as int) <= u32::MAX
    }

    /// Every instruction can be emitted.
    pub open spec fn encodable(&self) -> bool {
        all_encodable(self.instrs@)
    }

    /// The instructions, then `end` (`0x0b`).
    pub open spec fn encoding(&self) -> Seq<u8> {
        items_encoding(self.instrs@) + seq![0x0bu8]
    }

    /// The byte offset, from the start of the expression's encoding, of
    /// its `k`th instruction.
    pub open spec fn instr_offset(&self, k: int) -> int {
        items_encoding(self.instrs@.take(k)).len() as int
    }

    /// A hint's offset points at its instruction: the bytes of the
    /// expression's encoding at `instr_offset(k)` are those of instruction
    /// `k`.
    pub proof fn lemma_instr_at_offset(&self, k: int)
        requires
            0 <= k < self.instrs@.len(),
        ensures
            self.instr_offset(k) + self.instrs@[k].encoding().len() <= self.encoding().len(),
            self.encoding().subrange(
                self.instr_offset(k),
                self.instr_offset(k) + self.instrs@[k].encoding().len(),
            ) == self.instrs@[k].encoding(),
    {
        crate::encode::lemma_item_at_offset(self.instrs@, k);
        let whole = items_encoding(self.instrs@);
        let off = self.instr_offset(k);
        let len = self.instrs@[k].encoding().len() as int;
        assert(self.encoding().subrange(off, off + len) =~= whole.subrange(off, off + len));
    }

    /// Encodes the expression and returns its branch hints, each with the
    /// offset of its instruction counted from `relative_start` in `e`.
    pub fn encode(&self, e: &mut Vec<u8>, relative_start: usize) -> (hints: Vec<BranchHint>)
        requires
            self.encodable(),
            relative_start <= old(e)@.len(),
            self.hint_offsets_fit(old(e)@.len() - relative_start),
        ensures
            final(e)@ == old(e)@ + self.encoding(),
            kept_hints(self.branch_hints@, self.instrs@.len() as int, hints@.len() as int),
            forall|t: int|
                0 <= t < hints@.len() ==> {
                    &&& (#[trigger] hints@[t]).branch_hint_value == self.branch_hints@[t].value
                    &&& hints@[t].branch_func_offset == old(e)@.len() - relative_start
                        + self.instr_offset(self.branch_hints@[t].instr_index as int)
                },
    {
        let mut hints: Vec<BranchHint> = Vec::new();
        let mut next: usize = 0;
        let ghost start = e@;
        let ghost instrs = self.instrs@;
        let ghost bh = self.branch_hints@;
        let mut i: usize = 0;
        while i < self.instrs.len()
            invariant
                i <= instrs.len(),
                instrs == self.instrs@,
                bh == self.branch_hints@,
                all_encodable(instrs),
                relative_start <= start.len(),
                self.hint_offsets_fit(start.len() - relative_start),
                e@ == start + items_encoding(instrs.take(i as int)),
                kept_hints(bh, i as int, next as int),
                hints@.len() == next,
                forall|t: int|
                    0 <= t < hints@.len() ==> {
                        &&& (#[trigger] hints@[t]).branch_hint_value == bh[t].value
                        &&& hints@[t].branch_func_offset == start.len() - relative_start
                            + self.instr_offset(bh[t].instr_index as int)
                    },
            decreases instrs.len() - i,
        {
            if next < self.branch_hints.len() && self.branch_hints[next].instr_index == i {
                proof {
                    assert(hint_kept(bh, instrs.len() as int, next as int));
                    assert(bh[next as int].instr_index == i);
                }
                let offset = e.len() - relative_start;
                let hint = BranchHint {
                    branch_func_offset: offset as u32,
                    branch_hint_value: self.branch_hints[next].value,
                };
                hints.push(hint);
                next = next + 1;
            }
            proof {
                lemma_items_encoding_push(instrs.take(i as int), instrs[i as int]);
                assert(instrs.take(i as int).push(instrs[i as int]) == instrs.take(i + 1));
                assert(instrs[i as int].encodable());
            }
            self.instrs[i].encode(e);
            i = i + 1;
        }
        assert(instrs.take(i as int) == instrs);
        e.push(0x0b);
        hints
    }
}

} // verus!
