//! The items of a module: imports, functions and their locals, tables,
//! memories, globals, exports, element and data segments, and tags.
use vstd::prelude::*;
use crate::leb::{leb_signed, leb_unsigned, write_unsigned};
use crate::encode::{Encode, all_encodable, items_encoding, lemma_items_encoding_push, list_encoding};
use crate::types::{
    same_val_type, HeapType, Id, Index, NameAnnotation, RefType, TypeUse, ValType, name_encoding,
};
use crate::expr::{BranchHint, Expression, kept_count, kept_hints, lemma_kept_count};

verus! {

/// The size limits of a table or a 32-bit memory.
pub struct Limits {
    pub min: u32,
    pub max: Option<u32>,
}

impl Encode for Limits {
    open spec fn encodable(&self) -> bool {
        true
    }

    /// `0x01`, the minimum and the maximum; or `0x00` and the minimum.
    open spec fn encoding(&self) -> Seq<u8> {
        match self.max {
            Some(max) => seq![0x01u8] + leb_unsigned(self.min as nat) + leb_unsigned(max as nat),
            None => seq![0x00u8] + leb_unsigned(self.min as nat),
        }
    }

    fn encode(&self, e: &mut Vec<u8>) {
        match self.max {
            Some(max) => {
                e.push(0x01);
                self.min.encode(e);
                max.encode(e);
            },
            None => {
                e.push(0x00);
                self.min.encode(e);
            },
        }
    }
}

/// The size limits of a 64-bit memory.
pub struct Limits64 {
    pub min: u64,
    pub max: Option<u64>,
}

/// A table type.
pub struct TableType {
    pub limits: Limits,
    pub elem: RefType,
}

impl Encode for TableType {
    open spec fn encodable(&self) -> bool {
        self.elem.encodable()
    }

    /// The element type, then the limits.
    open spec fn encoding(&self) -> Seq<u8> {
        self.elem.encoding() + self.limits.encoding()
    }

    fn encode(&self, e: &mut Vec<u8>) {
        self.elem.encode(e);
        self.limits.encode(e);
    }
}

/// A memory type.
pub enum MemoryType {
    B32 { limits: Limits, shared: bool, page_size_log2: Option<u32> },
    B64 { limits: Limits64, shared: bool, page_size_log2: Option<u32> },
}

/// The flags byte of a memory type: bit 0 for a maximum, bit 1 for a
/// shared memory, bit 2 for a 64-bit memory, bit 3 for a custom page size.
pub open spec fn memory_flags(has_max: bool, shared: bool, is64: bool, has_page_size: bool) -> u8 {
    ((if has_max { 1int } else { 0int }) + (if shared { 2int } else { 0int }) + (if is64 {
        4int
    } else {
        0int
    }) + (if has_page_size { 8int } else { 0int })) as u8
}

/// The bytes of an optional value: its LEB128, or nothing.
pub open spec fn optional_leb(v: Option<u64>) -> Seq<u8> {
    match v {
        Some(x) => leb_unsigned(x as nat),
        None => seq![],
    }
}

/// An optional `u32` as an optional `u64`.
pub open spec fn widen(v: Option<u32>) -> Option<u64> {
    match v {
        Some(x) => Some(x as u64),
        None => None,
    }
}

impl Encode for MemoryType {
    open spec fn encodable(&self) -> bool {
        true
    }

    /// The flags, the minimum, the maximum if any, the page size if any.
    open spec fn encoding(&self) -> Seq<u8> {
        match self {
            MemoryType::B32 { limits, shared, page_size_log2 } => seq![
                memory_flags(limits.max is Some, *shared, false, page_size_log2 is Some),
            ] + leb_unsigned(limits.min as nat) + optional_leb(widen(limits.max)) + optional_leb(
                widen(*page_size_log2),
            ),
            MemoryType::B64 { limits, shared, page_size_log2 } => seq![
                memory_flags(limits.max is Some, *shared, true, page_size_log2 is Some),
            ] + leb_unsigned(limits.min as nat) + optional_leb(limits.max) + optional_leb(
                widen(*page_size_log2),
            ),
        }
    }

    fn encode(&self, e: &mut Vec<u8>) {
        match self {
            MemoryType::B32 { limits, shared, page_size_log2 } => {
                let flag_max = limits.max.is_some() as u8;
                let flag_shared = *shared as u8;
                let flag_page_size = page_size_log2.is_some() as u8;
                let flags = flag_max | (flag_shared << 1u8) | (flag_page_size << 3u8);
                assert(flags == flag_max + 2 * flag_shared + 8 * flag_page_size) by (bit_vector)
                    requires
                        flag_max <= 1,
                        flag_shared <= 1,
                        flag_page_size <= 1,
                        flags == flag_max | (flag_shared << 1u8) | (flag_page_size << 3u8),
                ;
                e.push(flags);
                limits.min.encode(e);
                if let Some(max) = limits.max {
                    max.encode(e);
                }
                if let Some(p) = page_size_log2 {
                    p.encode(e);
                }
            },
            MemoryType::B64 { limits, shared, page_size_log2 } => {
                let flag_max = limits.max.is_some();
                let flag_shared = *shared;
                let flag_mem64 = true;
                let flag_page_size = page_size_log2.is_some();
                let a = flag_max as u8;
                let b = flag_shared as u8;
                let c = flag_mem64 as u8;
                let d = flag_page_size as u8;
                let flags = (a << 0u8) | (b << 1u8) | (c << 2u8) | (d << 3u8);
                assert(flags == a + 2 * b + 4 * c + 8 * d) by (bit_vector)
                    requires
                        a <= 1,
                        b <= 1,
                        c <= 1,
                        d <= 1,
                        flags == (a << 0u8) | (b << 1u8) | (c << 2u8) | (d << 3u8),
                ;
                e.push(flags);
                limits.min.encode(e);
                if let Some(max) = limits.max {
                    max.encode(e);
                }
                if let Some(p) = page_size_log2 {
                    p.encode(e);
                }
            },
        }
    }
}

/// A global type.
pub struct GlobalType {
    pub ty: ValType,
    pub mutable: bool,
    pub shared: bool,
}

/// The flags byte of a global type: bit 0 for mutable, bit 1 for shared.
pub open spec fn global_flags(mutable: bool, shared: bool) -> u8 {
    ((if mutable { 1int } else { 0int }) + (if shared { 2int } else { 0int })) as u8
}

impl Encode for GlobalType {
    open spec fn encodable(&self) -> bool {
        self.ty.encodable()
    }

    /// The value type, then the flags.
    open spec fn encoding(&self) -> Seq<u8> {
        self.ty.encoding() + seq![global_flags(self.mutable, self.shared)]
    }

    fn encode(&self, e: &mut Vec<u8>) {
        self.ty.encode(e);
        let mut flags: u8 = 0;
        if self.mutable {
            assert(0u8 | 0b01u8 == 1u8) by (bit_vector);
            flags |= 0b01;
        }
        if self.shared {
            assert(flags | 0b10u8 == flags + 2) by (bit_vector)
                requires
                    flags <= 1,
            ;
            flags |= 0b10;
        }
        e.push(flags);
    }
}

proof fn lemma_flag_bits(a: bool, b: bool, c: bool, d: bool)
    ensures
        ({
            let v = memory_flags(a, b, c, d);
            &&& (v & 1u8 == 1u8) == a
            &&& (v & 2u8 == 2u8) == b
            &&& (v & 4u8 == 4u8) == c
            &&& (v & 8u8 == 8u8) == d
            &&& v < 16
        }),
{
    let a1: u8 = if a { 1 } else { 0 };
    let b1: u8 = if b { 1 } else { 0 };
    let c1: u8 = if c { 1 } else { 0 };
    let d1: u8 = if d { 1 } else { 0 };
    let v = memory_flags(a, b, c, d);
    assert(v == a1 + 2 * b1 + 4 * c1 + 8 * d1);
    assert(v & 1u8 == a1 && v & 2u8 == 2 * b1 && v & 4u8 == 4 * c1 && v & 8u8 == 8 * d1 && v < 16)
        by (bit_vector)
        requires
            a1 <= 1,
            b1 <= 1,
            c1 <= 1,
            d1 <= 1,
            v == a1 + 2 * b1 + 4 * c1 + 8 * d1,
    ;
}

/// A memory type starts with its flags byte: bit 0 is set exactly when
/// there is a maximum, bit 1 when the memory is shared, bit 2 when it is
/// 64-bit, bit 3 when it has a custom page size, and no other bit is set.
/// A global type ends with its flags byte: bit 0 set exactly when it is
/// mutable, bit 1 when it is shared. Limits start with 0x01 when there is a
/// maximum and 0x00 otherwise.
pub proof fn lemma_type_flags(m: MemoryType, g: GlobalType, l: Limits)
    ensures
        ({
            let v = m.encoding()[0];
            let (has_max, shared, is64, has_page) = match m {
                MemoryType::B32 { limits, shared, page_size_log2 } => (
                    limits.max is Some,
                    shared,
                    false,
                    page_size_log2 is Some,
                ),
                MemoryType::B64 { limits, shared, page_size_log2 } => (
                    limits.max is Some,
                    shared,
                    true,
                    page_size_log2 is Some,
                ),
            };
            &&& (v & 1u8 == 1u8) == has_max
            &&& (v & 2u8 == 2u8) == shared
            &&& (v & 4u8 == 4u8) == is64
            &&& (v & 8u8 == 8u8) == has_page
            &&& v < 16
        }),
        ({
            let v = g.encoding()[g.encoding().len() - 1];
            &&& (v & 1u8 == 1u8) == g.mutable
            &&& (v & 2u8 == 2u8) == g.shared
            &&& v < 4
        }),
        l.encoding()[0] == (if l.max is Some { 0x01u8 } else { 0x00u8 }),
{
    match m {
        MemoryType::B32 { limits, shared, page_size_log2 } => {
            lemma_flag_bits(limits.max is Some, shared, false, page_size_log2 is Some);
        },
        MemoryType::B64 { limits, shared, page_size_log2 } => {
            lemma_flag_bits(limits.max is Some, shared, true, page_size_log2 is Some);
        },
    }
    let gv = global_flags(g.mutable, g.shared);
    assert(g.encoding()[g.encoding().len() - 1] == gv);
    lemma_flag_bits(g.mutable, g.shared, false, false);
    assert(gv == memory_flags(g.mutable, g.shared, false, false));
}

/// The type of a tag.
pub enum TagType {
    Exception(TypeUse),
}

impl Encode for TagType {
    open spec fn encodable(&self) -> bool {
        match self {
            TagType::Exception(ty) => ty.encodable(),
        }
    }

    /// `0x00` (an exception), then the function type.
    open spec fn encoding(&self) -> Seq<u8> {
        match self {
            TagType::Exception(ty) => seq![0x00u8] + ty.encoding(),
        }
    }

    fn encode(&self, e: &mut Vec<u8>) {
        match self {
            TagType::Exception(ty) => {
                e.push(0x00);
                ty.encode(e);
            },
        }
    }
}

/// What an import or an exported item type describes.
pub enum ItemKind {
    Func(TypeUse),
    Table(TableType),
    Memory(MemoryType),
    Global(GlobalType),
    Tag(TagType),
}

/// The signature of an imported item.
pub struct ItemSig {
    pub id: Option<Id>,
    pub name: Option<NameAnnotation>,
    pub kind: ItemKind,
}

impl Encode for ItemSig {
    open spec fn encodable(&self) -> bool {
        match self.kind {
            ItemKind::Func(f) => f.encodable(),
            ItemKind::Table(f) => f.encodable(),
            ItemKind::Memory(f) => f.encodable(),
            ItemKind::Global(f) => f.encodable(),
            ItemKind::Tag(f) => f.encodable(),
        }
    }

    /// A kind byte (0 to 4), then the type.
    open spec fn encoding(&self) -> Seq<u8> {
        match self.kind {
            ItemKind::Func(f) => seq![0x00u8] + f.encoding(),
            ItemKind::Table(f) => seq![0x01u8] + f.encoding(),
            ItemKind::Memory(f) => seq![0x02u8] + f.encoding(),
            ItemKind::Global(f) => seq![0x03u8] + f.encoding(),
            ItemKind::Tag(f) => seq![0x04u8] + f.encoding(),
        }
    }

    fn encode(&self, e: &mut Vec<u8>) {
        match &self.kind {
            ItemKind::Func(f) => {
                e.push(0x00);
                f.encode(e);
            },
            ItemKind::Table(f) => {
                e.push(0x01);
                f.encode(e);
            },
            ItemKind::Memory(f) => {
                e.push(0x02);
                f.encode(e);
            },
            ItemKind::Global(f) => {
                e.push(0x03);
                f.encode(e);
            },
            ItemKind::Tag(f) => {
                e.push(0x04);
                f.encode(e);
            },
        }
    }
}

/// An import.
pub struct Import {
    pub module: String,
    pub field: String,
    pub item: ItemSig,
}

impl Encode for Import {
    open spec fn encodable(&self) -> bool {
        self.module.encodable() && self.field.encodable() && self.item.encodable()
    }

    /// The module name, the field name, then the item's signature.
    open spec fn encoding(&self) -> Seq<u8> {
        self.module.encoding() + self.field.encoding() + self.item.encoding()
    }

    fn encode(&self, e: &mut Vec<u8>) {
        self.module.encode(e);
        self.field.encode(e);
        self.item.encode(e);
    }
}

/// The name and type of an export of a module type.
pub struct ExportType {
    pub name: String,
    pub item: ItemSig,
}

impl Encode for ExportType {
    open spec fn encodable(&self) -> bool {
        self.name.encodable() && self.item.encodable()
    }

    open spec fn encoding(&self) -> Seq<u8> {
        self.name.encoding() + self.item.encoding()
    }

    fn encode(&self, e: &mut Vec<u8>) {
        self.name.encode(e);
        self.item.encode(e);
    }
}

/// Export names written on an item's definition; they are moved to the
/// export section before emission.
pub struct InlineExport {
    pub names: Vec<String>,
}

/// An import written on an item's definition; it is moved to the import
/// section before emission.
pub struct InlineImport {
    pub module: String,
    pub field: String,
}

/// Appends a constant expression (an initializer or an offset). Its branch
/// hints, which emission drops, are counted from its own start.
fn encode_const_expr(x: &Expression, e: &mut Vec<u8>)
    requires
        x.encodable(),
        x.hint_offsets_fit(0),
    ensures
        final(e)@ == old(e)@ + x.encoding(),
{
    let start = e.len();
    let _hints = x.encode(e, start);
}

/// A constant expression can be emitted.
pub open spec fn const_expr_encodable(x: Expression) -> bool {
    x.encodable() && x.hint_offsets_fit(0)
}

/// How a table is defined.
pub enum TableKind {
    Import { import: InlineImport, ty: TableType },
    Normal { ty: TableType, init_expr: Option<Expression> },
    Inline { elem: RefType, payload: ElemPayload },
}

/// A table.
pub struct Table {
    pub id: Option<Id>,
    pub name: Option<NameAnnotation>,
    pub exports: InlineExport,
    pub kind: TableKind,
}

impl Encode for Table {
    /// Only tables with their exports moved out and in normal form are
    /// emitted.
    open spec fn encodable(&self) -> bool {
        &&& self.exports.names@.len() == 0
        &&& match self.kind {
            TableKind::Normal { ty, init_expr } => ty.encodable() && (init_expr matches Some(x)
                ==> const_expr_encodable(x)),
            _ => false,
        }
    }

    /// The table type; with an initializer, `0x40 0x00`, the table type and
    /// the initializer.
    open spec fn encoding(&self) -> Seq<u8> {
        match self.kind {
            TableKind::Normal { ty, init_expr: None } => ty.encoding(),
            TableKind::Normal { ty, init_expr: Some(x) } => seq![0x40u8, 0x00u8] + ty.encoding()
                + x.encoding(),
            _ => seq![],
        }
    }

    fn encode(&self, e: &mut Vec<u8>) {
        match &self.kind {
            TableKind::Normal { ty, init_expr: None } => ty.encode(e),
            TableKind::Normal { ty, init_expr: Some(init_expr) } => {
                e.push(0x40);
                e.push(0x00);
                ty.encode(e);
                encode_const_expr(init_expr, e);
            },
            _ => {},
        }
    }
}

/// How a memory is defined.
pub enum MemoryKind {
    Import { import: InlineImport, ty: MemoryType },
    Normal(MemoryType),
    Inline { is64: bool, data: Vec<DataVal> },
}

/// A memory.
pub struct Memory {
    pub id: Option<Id>,
    pub name: Option<NameAnnotation>,
    pub exports: InlineExport,
    pub kind: MemoryKind,
}

impl Encode for Memory {
    /// Only memories with their exports moved out and in normal form are
    /// emitted.
    open spec fn encodable(&self) -> bool {
        self.exports.names@.len() == 0 && self.kind is Normal
    }

    open spec fn encoding(&self) -> Seq<u8> {
        match self.kind {
            MemoryKind::Normal(t) => t.encoding(),
            _ => seq![],
        }
    }

    fn encode(&self, e: &mut Vec<u8>) {
        match &self.kind {
            MemoryKind::Normal(t) => t.encode(e),
            _ => {},
        }
    }
}

/// How a global is defined.
pub enum GlobalKind {
    Import(InlineImport),
    Inline(Expression),
}

/// A global.
pub struct Global {
    pub id: Option<Id>,
    pub name: Option<NameAnnotation>,
    pub exports: InlineExport,
    pub ty: GlobalType,
    pub kind: GlobalKind,
}

impl Encode for Global {
    /// Only defined globals with their exports moved out are emitted.
    open spec fn encodable(&self) -> bool {
        &&& self.exports.names@.len() == 0
        &&& self.ty.encodable()
        &&& match self.kind {
            GlobalKind::Inline(x) => const_expr_encodable(x),
            _ => false,
        }
    }

    /// The global type, then the initializer.
    open spec fn encoding(&self) -> Seq<u8> {
        self.ty.encoding() + match self.kind {
            GlobalKind::Inline(x) => x.encoding(),
            _ => seq![],
        }
    }

    fn encode(&self, e: &mut Vec<u8>) {
        self.ty.encode(e);
        match &self.kind {
            GlobalKind::Inline(expr) => {
                encode_const_expr(expr, e);
            },
            _ => {},
        }
    }
}

/// What an export refers to.
pub enum ExportKind {
    Func,
    Table,
    Memory,
    Global,
    Tag,
}

impl Encode for ExportKind {
    open spec fn encodable(&self) -> bool {
        true
    }

    open spec fn encoding(&self) -> Seq<u8> {
        match self {
            ExportKind::Func => seq![0x00u8],
            ExportKind::Table => seq![0x01u8],
            ExportKind::Memory => seq![0x02u8],
            ExportKind::Global => seq![0x03u8],
            ExportKind::Tag => seq![0x04u8],
        }
    }

    fn encode(&self, e: &mut Vec<u8>) {
        match self {
            ExportKind::Func => e.push(0x00),
            ExportKind::Table => e.push(0x01),
            ExportKind::Memory => e.push(0x02),
            ExportKind::Global => e.push(0x03),
            ExportKind::Tag => e.push(0x04),
        }
    }
}

/// An export.
pub struct Export {
    pub name: String,
    pub kind: ExportKind,
    pub item: Index,
}

impl Encode for Export {
    open spec fn encodable(&self) -> bool {
        self.name.encodable() && self.item.encodable()
    }

    /// The name, the kind, then the index of the item.
    open spec fn encoding(&self) -> Seq<u8> {
        self.name.encoding() + self.kind.encoding() + self.item.encoding()
    }

    fn encode(&self, e: &mut Vec<u8>) {
        self.name.encode(e);
        self.kind.encode(e);
        self.item.encode(e);
    }
}

/// An export's kind byte is fixed per kind: func 0x00, table 0x01, memory
/// 0x02, global 0x03, tag 0x04. It is the byte that an import of the same
/// kind of item starts its descriptor with, and in an export it follows the
/// name.
pub proof fn lemma_export_kind_codes()
    ensures
        ExportKind::Func.encoding() == seq![0x00u8],
        ExportKind::Table.encoding() == seq![0x01u8],
        ExportKind::Memory.encoding() == seq![0x02u8],
        ExportKind::Global.encoding() == seq![0x03u8],
        ExportKind::Tag.encoding() == seq![0x04u8],
        forall|s: ItemSig|
            #![trigger s.encoding()]
            {
                &&& s.kind is Func ==> s.encoding()[0] == 0x00 && s.encoding()[0]
                    == ExportKind::Func.encoding()[0]
                &&& s.kind is Table ==> s.encoding()[0] == 0x01 && s.encoding()[0]
                    == ExportKind::Table.encoding()[0]
                &&& s.kind is Memory ==> s.encoding()[0] == 0x02 && s.encoding()[0]
                    == ExportKind::Memory.encoding()[0]
                &&& s.kind is Global ==> s.encoding()[0] == 0x03 && s.encoding()[0]
                    == ExportKind::Global.encoding()[0]
                &&& s.kind is Tag ==> s.encoding()[0] == 0x04 && s.encoding()[0]
                    == ExportKind::Tag.encoding()[0]
            },
        forall|x: Export|
            #![trigger x.encoding()]
            x.encoding()[x.name.encoding().len() as int] == x.kind.encoding()[0]
                && x.kind.encoding().len() == 1,
{
    assert forall|x: Export| #![trigger x.encoding()]
        x.encoding()[x.name.encoding().len() as int] == x.kind.encoding()[0]
            && x.kind.encoding().len() == 1 by {
        let a = x.name.encoding();
        assert(x.encoding() == a + x.kind.encoding() + x.item.encoding());
        assert((a + x.kind.encoding())[a.len() as int] == x.kind.encoding()[0]);
    }
}

/// The kind of an element segment.
pub enum ElemKind {
    Passive,
    Declared,
    Active { table: Index, offset: Expression },
}

/// The contents of an element segment.
pub enum ElemPayload {
    Indices(Vec<Index>),
    Exprs { ty: RefType, exprs: Vec<Expression> },
}

/// The concatenation of the encodings of the expressions of `s`.
pub open spec fn exprs_encoding(s: Seq<Expression>) -> Seq<u8>
    decreases s.len(),
{
    if s.len() == 0 {
        seq![]
    } else {
        exprs_encoding(s.drop_last()) + s.last().encoding()
    }
}

impl Encode for ElemPayload {
    open spec fn encodable(&self) -> bool {
        match self {
            ElemPayload::Indices(v) => v.encodable(),
            ElemPayload::Exprs { ty, exprs } => exprs@.len() <= u32::MAX && forall|i: int|
                0 <= i < exprs@.len() ==> const_expr_encodable(#[trigger] exprs@[i]),
        }
    }

    /// The indices as a list, or the number of expressions and then each.
    open spec fn encoding(&self) -> Seq<u8> {
        match self {
            ElemPayload::Indices(v) => v.encoding(),
            ElemPayload::Exprs { ty, exprs } => leb_unsigned(exprs@.len()) + exprs_encoding(exprs@),
        }
    }

    fn encode(&self, e: &mut Vec<u8>) {
        match self {
            ElemPayload::Indices(v) => v.encode(e),
            ElemPayload::Exprs { exprs, ty: _ } => {
                exprs.len().encode(e);
                let ghost mid = e@;
                let mut i: usize = 0;
                while i < exprs.len()
                    invariant
                        i <= exprs@.len(),
                        forall|j: int|
                            0 <= j < exprs@.len() ==> const_expr_encodable(#[trigger] exprs@[j]),
                        e@ == mid + exprs_encoding(exprs@.take(i as int)),
                    decreases exprs@.len() - i,
                {
                    assert(exprs@.take(i + 1).drop_last() == exprs@.take(i as int));
                    assert(const_expr_encodable(exprs@[i as int]));
                    encode_const_expr(&exprs[i], e);
                    i = i + 1;
                }
                assert(exprs@.take(i as int) == exprs@);
            },
        }
    }
}

/// An element segment.
pub struct Elem {
    pub id: Option<Id>,
    pub name: Option<NameAnnotation>,
    pub kind: ElemKind,
    pub payload: ElemPayload,
}

/// Whether a reference type is `funcref` (`(ref null func)`).
pub open spec fn is_funcref(ty: RefType) -> bool {
    ty.nullable && ty.heap is Func
}

/// The bytes before an element segment's contents: the flags (0 to 7),
/// then, as the flags say, the table, the offset, and the element kind
/// (`0x00`) or element type.
pub open spec fn elem_header(kind: ElemKind, payload: ElemPayload) -> Seq<u8> {
    match payload {
        ElemPayload::Indices(_) => match kind {
            ElemKind::Active { table, offset } => if table == Index::Num(0) {
                seq![0x00u8] + offset.encoding()
            } else {
                seq![0x02u8] + table.encoding() + offset.encoding() + seq![0x00u8]
            },
            ElemKind::Passive => seq![0x01u8, 0x00u8],
            ElemKind::Declared => seq![0x03u8, 0x00u8],
        },
        ElemPayload::Exprs { ty, exprs } => match kind {
            ElemKind::Active { table, offset } => if table == Index::Num(0) && is_funcref(ty) {
                seq![0x04u8] + offset.encoding()
            } else {
                seq![0x06u8] + table.encoding() + offset.encoding() + ty.encoding()
            },
            ElemKind::Passive => seq![0x05u8] + ty.encoding(),
            ElemKind::Declared => seq![0x07u8] + ty.encoding(),
        },
    }
}

proof fn lemma_small_bits(v: u8)
    requires
        v < 8,
    ensures
        (v & 1u8 == 1u8) == (v % 2 == 1),
        (v & 2u8 == 2u8) == ((v / 2) % 2 == 1),
        (v & 4u8 == 4u8) == (v >= 4),
{
    assert((v & 1u8 == 1u8) == (v % 2 == 1) && (v & 2u8 == 2u8) == ((v / 2) % 2 == 1) && (v & 4u8
        == 4u8) == (v >= 4)) by (bit_vector)
        requires
            v < 8,
    ;
}

/// An element segment starts with its flags (0 to 7): bit 0 is set exactly
/// when the segment is not active (passive or declared), bit 1 when it is
/// declared or names its table explicitly, bit 2 when its contents are
/// expressions. An active segment names its table explicitly unless the
/// table is 0 and, for expressions, the element type is `funcref`.
pub proof fn lemma_elem_flags(x: Elem)
    ensures
        ({
            let v = x.encoding()[0];
            let explicit = match x.kind {
                ElemKind::Active { table, .. } => match x.payload {
                    ElemPayload::Indices(_) => table != Index::Num(0),
                    ElemPayload::Exprs { ty, .. } => !(table == Index::Num(0) && ty.nullable
                        && ty.heap is Func),
                },
                _ => false,
            };
            &&& v < 8
            &&& (v & 1u8 == 1u8) == !(x.kind is Active)
            &&& (v & 2u8 == 2u8) == (x.kind is Declared || explicit)
            &&& (v & 4u8 == 4u8) == (x.payload is Exprs)
        }),
{
    lemma_small_bits(x.encoding()[0]);
}

impl Encode for Elem {
    open spec fn encodable(&self) -> bool {
        &&& self.payload.encodable()
        &&& (self.kind matches ElemKind::Active { table, offset } ==> table.encodable()
            && const_expr_encodable(offset))
        &&& (self.payload matches ElemPayload::Exprs { ty, exprs } ==> ty.encodable())
    }

    open spec fn encoding(&self) -> Seq<u8> {
        elem_header(self.kind, self.payload) + self.payload.encoding()
    }

    fn encode(&self, e: &mut Vec<u8>) {
        match (&self.kind, &self.payload) {
            (ElemKind::Active { table: Index::Num(0), offset }, ElemPayload::Indices(_)) => {
                e.push(0x00);
                encode_const_expr(offset, e);
            },
            (ElemKind::Passive, ElemPayload::Indices(_)) => {
                e.push(0x01);  // flags
                e.push(0x00);  // extern_kind
            },
            (ElemKind::Active { table, offset }, ElemPayload::Indices(_)) => {
                e.push(0x02);  // flags
                table.encode(e);
                encode_const_expr(offset, e);
                e.push(0x00);  // extern_kind
            },
            (ElemKind::Declared, ElemPayload::Indices(_)) => {
                e.push(0x03);  // flags
                e.push(0x00);  // extern_kind
            },
            (
                ElemKind::Active { table: Index::Num(0), offset },
                ElemPayload::Exprs { ty: RefType { nullable: true, heap: HeapType::Func }, .. },
            ) => {
                e.push(0x04);
                encode_const_expr(offset, e);
            },
            (ElemKind::Passive, ElemPayload::Exprs { ty, .. }) => {
                e.push(0x05);
                ty.encode(e);
            },
            (ElemKind::Active { table, offset }, ElemPayload::Exprs { ty, .. }) => {
                e.push(0x06);
                table.encode(e);
                encode_const_expr(offset, e);
                ty.encode(e);
            },
            (ElemKind::Declared, ElemPayload::Exprs { ty, .. }) => {
                e.push(0x07);  // flags
                ty.encode(e);
            },
        }
        self.payload.encode(e);
    }
}

/// A piece of the contents of a data segment.
pub enum DataVal {
    String(Vec<u8>),
    Integral(Vec<u8>),
}

impl DataVal {
    /// The bytes of this piece.
    pub open spec fn bytes(&self) -> Seq<u8> {
        match self {
            DataVal::String(b) => b@,
            DataVal::Integral(b) => b@,
        }
    }

    /// The number of bytes of this piece.
    pub fn len(&self) -> (n: usize)
        ensures
            n == self.bytes().len(),
    {
        match self {
            DataVal::String(b) => b.len(),
            DataVal::Integral(b) => b.len(),
        }
    }

    /// Appends the bytes of this piece.
    pub fn push_onto(&self, dst: &mut Vec<u8>)
        ensures
            final(dst)@ == old(dst)@ + self.bytes(),
    {
        let b = match self {
            DataVal::String(b) => b,
            DataVal::Integral(b) => b,
        };
        let ghost start = dst@;
        let mut i: usize = 0;
        while i < b.len()
            invariant
                i <= b@.len(),
                dst@ == start + b@.take(i as int),
            decreases b@.len() - i,
        {
            dst.push(b[i]);
            i = i + 1;
            assert(dst@ == start + b@.take(i as int));
        }
        assert(b@.take(i as int) == b@);
    }
}

/// The concatenated bytes of the pieces of `s`.
pub open spec fn data_bytes(s: Seq<DataVal>) -> Seq<u8>
    decreases s.len(),
{
    if s.len() == 0 {
        seq![]
    } else {
        data_bytes(s.drop_last()) + s.last().bytes()
    }
}

proof fn lemma_data_bytes_prefix_len(s: Seq<DataVal>, i: int)
    requires
        0 <= i <= s.len(),
    ensures
        data_bytes(s.take(i)).len() <= data_bytes(s).len(),
    decreases s.len() - i,
{
    if i < s.len() {
        lemma_data_bytes_prefix_len(s, i + 1);
        assert(s.take(i + 1).drop_last() == s.take(i));
    } else {
        assert(s.take(i) == s);
    }
}

/// The kind of a data segment.
pub enum DataKind {
    Passive,
    Active { memory: Index, offset: Expression },
}

/// A data segment.
pub struct Data {
    pub id: Option<Id>,
    pub name: Option<NameAnnotation>,
    pub kind: DataKind,
    pub data: Vec<DataVal>,
}

/// A data segment starts with 0x01 when it is passive, 0x00 when it is
/// active in memory 0, and 0x02 when it is active in another memory.
pub proof fn lemma_data_flags(d: Data)
    ensures
        d.encoding()[0] == (match d.kind {
            DataKind::Passive => 0x01u8,
            DataKind::Active { memory, .. } => if memory == Index::Num(0) {
                0x00u8
            } else {
                0x02u8
            },
        }),
{
}

impl Encode for Data {
    open spec fn encodable(&self) -> bool {
        &&& data_bytes(self.data@).len() <= u32::MAX
        &&& (self.kind matches DataKind::Active { memory, offset } ==> memory.encodable()
            && const_expr_encodable(offset))
    }

    /// `0x01` for a passive segment; `0x00` and the offset for memory 0;
    /// `0x02`, the memory and the offset otherwise. Then the number of bytes
    /// and the bytes.
    open spec fn encoding(&self) -> Seq<u8> {
        (match self.kind {
            DataKind::Passive => seq![0x01u8],
            DataKind::Active { memory, offset } => if memory == Index::Num(0) {
                seq![0x00u8] + offset.encoding()
            } else {
                seq![0x02u8] + memory.encoding() + offset.encoding()
            },
        }) + leb_unsigned(data_bytes(self.data@).len()) + data_bytes(self.data@)
    }

    fn encode(&self, e: &mut Vec<u8>) {
        match &self.kind {
            DataKind::Passive => e.push(0x01),
            DataKind::Active { memory: Index::Num(0), offset } => {
                e.push(0x00);
                encode_const_expr(offset, e);
            },
            DataKind::Active { memory, offset } => {
                e.push(0x02);
                memory.encode(e);
                encode_const_expr(offset, e);
            },
        }
        let mut total: usize = 0;
        let mut i: usize = 0;
        while i < self.data.len()
            invariant
                i <= self.data@.len(),
                data_bytes(self.data@).len() <= u32::MAX,
                total == data_bytes(self.data@.take(i as int)).len(),
            decreases self.data@.len() - i,
        {
            proof {
                assert(self.data@.take(i + 1).drop_last() == self.data@.take(i as int));
                lemma_data_bytes_prefix_len(self.data@, i + 1);
            }
            total = total + self.data[i].len();
            i = i + 1;
        }
        assert(self.data@.take(i as int) == self.data@);
        total.encode(e);
        let ghost mid = e@;
        let mut i: usize = 0;
        while i < self.data.len()
            invariant
                i <= self.data@.len(),
                e@ == mid + data_bytes(self.data@.take(i as int)),
            decreases self.data@.len() - i,
        {
            assert(self.data@.take(i + 1).drop_last() == self.data@.take(i as int));
            self.data[i].push_onto(e);
            i = i + 1;
        }
        assert(self.data@.take(i as int) == self.data@);
    }
}

/// How a tag is defined.
pub enum TagKind {
    Import(InlineImport),
    Inline,
}

/// A tag.
pub struct Tag {
    pub id: Option<Id>,
    pub name: Option<NameAnnotation>,
    pub exports: InlineExport,
    pub ty: TagType,
    pub kind: TagKind,
}

impl Encode for Tag {
    /// Only defined tags are emitted.
    open spec fn encodable(&self) -> bool {
        self.ty.encodable() && self.kind is Inline
    }

    open spec fn encoding(&self) -> Seq<u8> {
        self.ty.encoding()
    }

    fn encode(&self, e: &mut Vec<u8>) {
        self.ty.encode(e);
    }
}

/// A local variable of a function.
pub struct Local {
    pub id: Option<Id>,
    pub name: Option<NameAnnotation>,
    pub ty: ValType,
}

/// The types of a list of locals.
pub open spec fn local_types(locals: Seq<Local>) -> Seq<ValType> {
    locals.map_values(|l: Local| l.ty)
}

/// Run-length compression of a list of types: one `(count, type)` entry per
/// maximal run of equal types, in order.
pub open spec fn compressed_locals(tys: Seq<ValType>) -> Seq<(u32, ValType)>
    decreases tys.len(),
{
    if tys.len() == 0 {
        seq![]
    } else {
        let prev = compressed_locals(tys.drop_last());
        if prev.len() > 0 && prev.last().1 == tys.last() {
            prev.update(prev.len() - 1, ((prev.last().0 + 1) as u32, tys.last()))
        } else {
            prev.push((1u32, tys.last()))
        }
    }
}

/// The types that a list of `(count, type)` entries stands for.
pub open spec fn expand_locals(c: Seq<(u32, ValType)>) -> Seq<ValType>
    decreases c.len(),
{
    if c.len() == 0 {
        seq![]
    } else {
        expand_locals(c.drop_last()) + Seq::new(c.last().0 as nat, |_i: int| c.last().1)
    }
}

/// The locals of a function body: the number of runs, then each run as
/// its length and its type.
pub open spec fn locals_encoding(locals: Seq<Local>) -> Seq<u8> {
    list_encoding(compressed_locals(local_types(locals)))
}

/// The locals can be emitted: their number fits in 32 bits and their types
/// refer to types by number.
pub open spec fn locals_encodable(locals: Seq<Local>) -> bool {
    locals.len() <= u32::MAX && all_encodable(local_types(locals))
}

/// Run-length compression of locals is lossless and maximal: expanding the
/// runs gives back the list of types, every run is nonempty, and two
/// neighbouring runs have different types.
pub proof fn lemma_compressed_locals(tys: Seq<ValType>)
    requires
        tys.len() <= u32::MAX,
    ensures
        expand_locals(compressed_locals(tys)) == tys,
        forall|i: int|
            0 <= i < compressed_locals(tys).len() ==> (#[trigger] compressed_locals(tys)[i]).0
                >= 1,
        forall|i: int|
            0 < i < compressed_locals(tys).len() ==> compressed_locals(tys)[i - 1].1 != (
            #[trigger] compressed_locals(tys)[i]).1,
    decreases tys.len(),
{
    if tys.len() > 0 {
        let init = tys.drop_last();
        lemma_compressed_locals(init);
        let prev = compressed_locals(init);
        let x = tys.last();
        if prev.len() > 0 && prev.last().1 == x {
            let last = prev.last();
            let c = compressed_locals(tys);
            assert(c.drop_last() == prev.drop_last());
            assert(expand_locals(prev) == expand_locals(prev.drop_last()) + Seq::new(
                last.0 as nat,
                |_i: int| last.1,
            ));
            assert(last.0 as nat <= expand_locals(prev).len());
            assert(c.last() == ((last.0 + 1) as u32, x));
            assert(Seq::new((last.0 + 1) as nat, |_i: int| x) == Seq::new(
                last.0 as nat,
                |_i: int| last.1,
            ).push(x));
            assert(expand_locals(c) == expand_locals(prev).push(x));
            assert(init.push(x) == tys);
        } else {
            let c = compressed_locals(tys);
            assert(c.drop_last() == prev);
            assert(Seq::new(1nat, |_i: int| x) == seq![x]);
            assert(expand_locals(c) == expand_locals(prev).push(x));
            assert(init.push(x) == tys);
        }
    }
}

proof fn lemma_compressed_len(tys: Seq<ValType>)
    ensures
        compressed_locals(tys).len() <= tys.len(),
    decreases tys.len(),
{
    if tys.len() > 0 {
        lemma_compressed_len(tys.drop_last());
    }
}

/// The runs of `tys` as entries that borrow their types.
pub open spec fn deref_runs<'a>(s: Seq<(u32, &'a ValType)>) -> Seq<(u32, ValType)> {
    s.map_values(|p: (u32, &'a ValType)| (p.0, *p.1))
}

proof fn lemma_deref_runs_encoding<'a>(s: Seq<(u32, &'a ValType)>)
    ensures
        items_encoding(s) == items_encoding(deref_runs(s)),
    decreases s.len(),
{
    if s.len() > 0 {
        lemma_deref_runs_encoding(s.drop_last());
        assert(deref_runs(s.drop_last()) == deref_runs(s).drop_last());
    }
}

proof fn lemma_expand_len(c: Seq<(u32, ValType)>)
    ensures
        c.len() > 0 ==> c.last().0 <= expand_locals(c).len(),
{
    if c.len() > 0 {
        assert(expand_locals(c) == expand_locals(c.drop_last()) + Seq::new(
            c.last().0 as nat,
            |_i: int| c.last().1,
        ));
    }
}

/// Appends the locals of a function body, with runs of equal types
/// compressed into one entry each.
pub fn encode_locals(locals: &[Local], e: &mut Vec<u8>)
    requires
        locals_encodable(locals@),
    ensures
        final(e)@ == old(e)@ + locals_encoding(locals@),
{
    let ghost tys = local_types(locals@);
    let mut locals_compressed: Vec<(u32, &ValType)> = Vec::new();
    let mut i: usize = 0;
    while i < locals.len()
        invariant
            i <= locals@.len(),
            tys == local_types(locals@),
            locals@.len() <= u32::MAX,
            all_encodable(tys),
            deref_runs(locals_compressed@) == compressed_locals(tys.take(i as int)),
            forall|j: int|
                0 <= j < locals_compressed@.len() ==> (#[trigger] locals_compressed@[j]).1.encodable(),
        decreases locals@.len() - i,
    {
        let ghost before = tys.take(i as int);
        proof {
            assert(tys.take(i + 1).drop_last() == before);
            assert(tys.take(i + 1).last() == tys[i as int]);
            assert(tys[i as int].encodable());
            lemma_compressed_locals(before);
            lemma_expand_len(compressed_locals(before));
        }
        let ty = &locals[i].ty;
        let n = locals_compressed.len();
        if n > 0 && same_val_type(locals_compressed[n - 1].1, ty) {
            let (cnt, prev) = locals_compressed[n - 1];
            proof {
                assert(deref_runs(locals_compressed@)[n - 1] == (cnt, *prev));
            }
            locals_compressed.set(n - 1, (cnt + 1, prev));
            assert(deref_runs(locals_compressed@) == compressed_locals(tys.take(i + 1)));
        } else {
            proof {
                if n > 0 {
                    assert(deref_runs(locals_compressed@)[n - 1].1 == *locals_compressed@[n - 1].1);
                }
            }
            locals_compressed.push((1, ty));
            assert(deref_runs(locals_compressed@) == compressed_locals(tys.take(i + 1)));
        }
        i = i + 1;
    }
    assert(tys.take(i as int) == tys);
    proof {
        lemma_compressed_len(tys);
        lemma_deref_runs_encoding(locals_compressed@);
        assert forall|j: int| 0 <= j < locals_compressed@.len() implies (
        #[trigger] locals_compressed@[j]).encodable() by {}
    }
    locals_compressed.encode(e);
}

/// How a function is defined.
pub enum FuncKind {
    Import(InlineImport),
    Inline { locals: Vec<Local>, expression: Expression },
}

/// A function.
pub struct Func {
    pub id: Option<Id>,
    pub name: Option<NameAnnotation>,
    pub exports: InlineExport,
    pub kind: FuncKind,
    pub ty: TypeUse,
}

impl Func {
    /// The branch hints that emitting the function returns: the kept hints
    /// of its expression, with the offsets of their instructions from the
    /// start of the body.
    pub closed spec fn spec_hints(&self) -> Seq<BranchHint> {
        match self.kind {
            FuncKind::Inline { locals, expression } => Seq::new(
                kept_count(expression.branch_hints@, expression.instrs@.len() as int, 0) as nat,
                |t: int|
                    BranchHint {
                        branch_func_offset: (locals_encoding(locals@).len() + expression.instr_offset(
                            expression.branch_hints@[t].instr_index as int,
                        )) as u32,
                        branch_hint_value: expression.branch_hints@[t].value,
                    },
            ),
            _ => seq![],
        }
    }

    /// The body of the function: its locals, then its expression.
    pub open spec fn body_encoding(&self) -> Seq<u8> {
        match self.kind {
            FuncKind::Inline { locals, expression } => locals_encoding(locals@)
                + expression.encoding(),
            _ => seq![],
        }
    }

    /// Only defined functions with their exports moved out are emitted, and
    /// a body's size and its hints' offsets fit in 32 bits.
    pub open spec fn encodable(&self) -> bool {
        &&& self.exports.names@.len() == 0
        &&& match self.kind {
            FuncKind::Inline { locals, expression } => {
                &&& locals_encodable(locals@)
                &&& expression.encodable()
                &&& expression.hint_offsets_fit(locals_encoding(locals@).len() as int)
                &&& self.body_encoding().len() <= u32::MAX
            },
            _ => false,
        }
    }

    /// Encodes the function body, prefixed with its length, and returns its
    /// branch hints with their offsets from the start of the body.
    pub fn encode(&self, e: &mut Vec<u8>) -> (hints: Vec<BranchHint>)
        requires
            self.encodable(),
        ensures
            final(e)@ == old(e)@ + leb_unsigned(self.body_encoding().len()) + self.body_encoding(),
            hints@ == self.spec_hints(),
            self.kind matches FuncKind::Inline { locals, expression } && {
                &&& kept_hints(
                    expression.branch_hints@,
                    expression.instrs@.len() as int,
                    hints@.len() as int,
                )
                &&& forall|t: int|
                    0 <= t < hints@.len() ==> {
                        &&& (#[trigger] hints@[t]).branch_hint_value
                            == expression.branch_hints@[t].value
                        &&& hints@[t].branch_func_offset == locals_encoding(locals@).len()
                            + expression.instr_offset(
                            expression.branch_hints@[t].instr_index as int,
                        )
                    }
            },
    {
        match &self.kind {
            FuncKind::Inline { expression, locals } => {
                // Encode the function into a temporary vector because functions are
                // prefixed with their length. The temporary vector, when encoded,
                // encodes its length first then the body.
                let mut tmp: Vec<u8> = Vec::new();
                encode_locals(locals.as_slice(), &mut tmp);
                let branch_hints = expression.encode(&mut tmp, 0);
                write_unsigned(e, tmp.len() as u64);
                let ghost mid = e@;
                let mut i: usize = 0;
                while i < tmp.len()
                    invariant
                        i <= tmp@.len(),
                        e@ == mid + tmp@.take(i as int),
                    decreases tmp@.len() - i,
                {
                    e.push(tmp[i]);
                    i = i + 1;
                    assert(e@ == mid + tmp@.take(i as int));
                }
                assert(tmp@.take(i as int) == tmp@);
                proof {
                    lemma_kept_count(
                        expression.branch_hints@,
                        expression.instrs@.len() as int,
                        branch_hints@.len() as int,
                        0,
                    );
                    assert(branch_hints@ =~= self.spec_hints());
                }
                branch_hints
            },
            _ => Vec::new(),
        }
    }
}

} // verus!
