//! Identifiers, indices and the type section: value, reference, heap and
//! storage types, function, struct, array and continuation types, and
//! recursion groups.
use vstd::prelude::*;
use vstd::string::StringSliceAdditionalSpecFns;
use crate::leb::{leb_signed, leb_unsigned, write_signed, write_unsigned};
use crate::encode::{Encode, all_encodable, encode_items, encode_list, items_encoding, list_encoding};

verus! {

/// The encoding of a name: the length of its UTF-8 bytes, then the bytes.
pub open spec fn name_encoding(s: Seq<char>) -> Seq<u8> {
    leb_unsigned(vstd::utf8::encode_utf8(s).len()) + vstd::utf8::encode_utf8(s)
}

/// A name can be emitted when its UTF-8 bytes fit a 32-bit length.
pub open spec fn name_encodable(s: Seq<char>) -> bool {
    vstd::utf8::encode_utf8(s).len() <= u32::MAX
}

/// Appends a name: its byte length, then its UTF-8 bytes.
pub fn encode_name(s: &str, e: &mut Vec<u8>)
    requires
        name_encodable(s@),
    ensures
        final(e)@ == old(e)@ + name_encoding(s@),
{
    let bytes = s.as_bytes();
    write_unsigned(e, bytes.len() as u64);
    let ghost mid = e@;
    let mut i: usize = 0;
    while i < bytes.len()
        invariant
            i <= bytes@.len(),
            e@ == mid + bytes@.take(i as int),
        decreases bytes@.len() - i,
    {
        e.push(bytes[i]);
        i = i + 1;
        assert(e@ == mid + bytes@.take(i as int));
    }
    assert(bytes@.take(i as int) == bytes@);
}

/// A symbolic identifier (`$name`). Identifiers made up by the text parser
/// have a nonzero `gen` and no name of their own in the binary.
pub struct Id {
    pub name: String,
    pub gen: u32,
}

impl Id {
    /// Whether the identifier was made up by the parser rather than written.
    pub fn is_gensym(&self) -> (r: bool)
        ensures
            r == (self.gen != 0),
    {
        self.gen != 0
    }

    /// The identifier's name.
    pub fn name(&self) -> (r: &str)
        ensures
            r@ == self.name@,
    {
        self.name.as_str()
    }
}

/// A name annotation `(@name "...")`.
pub struct NameAnnotation {
    pub name: String,
}

/// A reference to an item: a number, or an identifier not yet resolved.
pub enum Index {
    Num(u32),
    Id(Id),
}

/// Heap types of references.
pub enum HeapType {
    Func,
    Extern,
    Exn,
    Cont,
    Any,
    Eq,
    Struct,
    Array,
    I31,
    NoCont,
    NoFunc,
    NoExtern,
    NoExn,
    NoneType,
    Concrete(Index),
}

/// A reference type.
pub struct RefType {
    pub nullable: bool,
    pub heap: HeapType,
}

/// A value type.
pub enum ValType {
    I32,
    I64,
    F32,
    F64,
    V128,
    Ref(RefType),
}

/// The storage type of a struct field or array element.
pub enum StorageType {
    I8,
    I16,
    Val(ValType),
}

/// A function signature. Parameters keep their identifiers and names.
pub struct FunctionType {
    pub params: Vec<(Option<Id>, Option<NameAnnotation>, ValType)>,
    pub results: Vec<ValType>,
}

/// A field of a struct type.
pub struct StructField {
    pub id: Option<Id>,
    pub mutable: bool,
    pub ty: StorageType,
}

/// A struct type.
pub struct StructType {
    pub fields: Vec<StructField>,
}

/// An array type.
pub struct ArrayType {
    pub mutable: bool,
    pub ty: StorageType,
}

/// A continuation type over a function type index.
pub struct ContinuationType {
    pub idx: Index,
}

/// The definition of a type.
pub enum TypeDef {
    Func(FunctionType),
    Struct(StructType),
    Array(ArrayType),
    Cont(ContinuationType),
}

/// A type definition, with its supertype and finality.
pub struct Type {
    pub id: Option<Id>,
    pub name: Option<NameAnnotation>,
    pub def: TypeDef,
    pub parent: Option<Index>,
    pub final_type: Option<bool>,
}

/// A recursion group of types.
pub struct Rec {
    pub types: Vec<Type>,
}

/// A use of a function type: by index, inline, or both.
pub struct TypeUse {
    pub index: Option<Index>,
    pub inline: Option<FunctionType>,
}

/// An entry of the type section: a single type or a recursion group.
pub enum RecOrType<'a> {
    Type(&'a Type),
    Rec(&'a Rec),
}

impl Encode for Option<Id> {
    open spec fn encodable(&self) -> bool {
        true
    }

    open spec fn encoding(&self) -> Seq<u8> {
        seq![]
    }

    /// Labels and parameter identifiers have no binary form.
    fn encode(&self, _e: &mut Vec<u8>) {
    }
}

impl Encode for String {
    open spec fn encodable(&self) -> bool {
        name_encodable(self@)
    }

    open spec fn encoding(&self) -> Seq<u8> {
        name_encoding(self@)
    }

    fn encode(&self, e: &mut Vec<u8>) {
        encode_name(self.as_str(), e);
    }
}

impl Encode for Id {
    open spec fn encodable(&self) -> bool {
        self.gen == 0 && name_encodable(self.name@)
    }

    open spec fn encoding(&self) -> Seq<u8> {
        name_encoding(self.name@)
    }

    fn encode(&self, e: &mut Vec<u8>) {
        encode_name(self.name(), e);
    }
}

impl Encode for Index {
    open spec fn encodable(&self) -> bool {
        self is Num
    }

    open spec fn encoding(&self) -> Seq<u8> {
        match self {
            Index::Num(n) => leb_unsigned(*n as nat),
            Index::Id(_) => seq![],
        }
    }

    fn encode(&self, e: &mut Vec<u8>) {
        match self {
            Index::Num(n) => n.encode(e),
            Index::Id(_) => {},
        }
    }
}

impl Encode for HeapType {
    open spec fn encodable(&self) -> bool {
        match self {
            HeapType::Concrete(i) => i is Num,
            _ => true,
        }
    }

    open spec fn encoding(&self) -> Seq<u8> {
        match self {
            HeapType::Func => seq![0x70u8],
            HeapType::Extern => seq![0x6fu8],
            HeapType::Exn => seq![0x69u8],
            HeapType::Cont => seq![0x68u8],
            HeapType::Any => seq![0x6eu8],
            HeapType::Eq => seq![0x6du8],
            HeapType::Struct => seq![0x6bu8],
            HeapType::Array => seq![0x6au8],
            HeapType::I31 => seq![0x6cu8],
            HeapType::NoCont => seq![0x75u8],
            HeapType::NoFunc => seq![0x73u8],
            HeapType::NoExtern => seq![0x72u8],
            HeapType::NoExn => seq![0x74u8],
            HeapType::NoneType => seq![0x71u8],
            // A concrete type index is a signed LEB128 of the (unsigned) index.
            HeapType::Concrete(Index::Num(n)) => leb_signed(*n as int),
            HeapType::Concrete(Index::Id(_)) => seq![],
        }
    }

    fn encode(&self, e: &mut Vec<u8>) {
        match self {
            HeapType::Func => e.push(0x70),
            HeapType::Extern => e.push(0x6f),
            HeapType::Exn => e.push(0x69),
            HeapType::Cont => e.push(0x68),
            HeapType::Any => e.push(0x6e),
            HeapType::Eq => e.push(0x6d),
            HeapType::Struct => e.push(0x6b),
            HeapType::Array => e.push(0x6a),
            HeapType::I31 => e.push(0x6c),
            HeapType::NoCont => e.push(0x75),
            HeapType::NoFunc => e.push(0x73),
            HeapType::NoExtern => e.push(0x72),
            HeapType::NoExn => e.push(0x74),
            HeapType::NoneType => e.push(0x71),
            HeapType::Concrete(Index::Num(n)) => write_signed(e, *n as i64),
            HeapType::Concrete(Index::Id(_)) => {},
        }
    }
}

/// The one-byte abbreviation of `(ref null <heap>)`, for the heap types that
/// have one.
pub open spec fn nullable_abbreviation(heap: HeapType) -> Option<u8> {
    match heap {
        HeapType::Func => Some(0x70u8),
        HeapType::Extern => Some(0x6fu8),
        HeapType::Exn => Some(0x69u8),
        HeapType::Eq => Some(0x6du8),
        HeapType::Struct => Some(0x6bu8),
        HeapType::I31 => Some(0x6cu8),
        HeapType::NoFunc => Some(0x73u8),
        HeapType::NoExtern => Some(0x72u8),
        HeapType::NoExn => Some(0x74u8),
        HeapType::NoneType => Some(0x71u8),
        _ => None,
    }
}

/// Each abstract heap type is written as its own one-byte type code: func
/// 0x70, extern 0x6f, exn 0x69, cont 0x68, any 0x6e, eq 0x6d, struct 0x6b,
/// array 0x6a, i31 0x6c, nocont 0x75, nofunc 0x73, noextern 0x72, noexn
/// 0x74, none 0x71. Distinct abstract heap types get distinct bytes, and
/// the one-byte abbreviation of `(ref null ht)` is the code of `ht`.
pub proof fn lemma_heap_type_codes()
    ensures
        HeapType::Func.encoding() == seq![0x70u8],
        HeapType::Extern.encoding() == seq![0x6fu8],
        HeapType::Exn.encoding() == seq![0x69u8],
        HeapType::Cont.encoding() == seq![0x68u8],
        HeapType::Any.encoding() == seq![0x6eu8],
        HeapType::Eq.encoding() == seq![0x6du8],
        HeapType::Struct.encoding() == seq![0x6bu8],
        HeapType::Array.encoding() == seq![0x6au8],
        HeapType::I31.encoding() == seq![0x6cu8],
        HeapType::NoCont.encoding() == seq![0x75u8],
        HeapType::NoFunc.encoding() == seq![0x73u8],
        HeapType::NoExtern.encoding() == seq![0x72u8],
        HeapType::NoExn.encoding() == seq![0x74u8],
        HeapType::NoneType.encoding() == seq![0x71u8],
        forall|a: HeapType, b: HeapType|
            !(a is Concrete) && !(b is Concrete) && a != b ==> #[trigger] a.encoding()
                != #[trigger] b.encoding(),
        forall|h: HeapType|
            #[trigger] nullable_abbreviation(h) is Some ==> h.encoding() == seq![
                nullable_abbreviation(h).unwrap(),
            ],
{
    assert forall|a: HeapType, b: HeapType|
        !(a is Concrete) && !(b is Concrete) && a != b implies #[trigger] a.encoding()
            != #[trigger] b.encoding() by {
        assert(a.encoding()[0] != b.encoding()[0]);
    }
}

impl Encode for RefType {
    open spec fn encodable(&self) -> bool {
        self.heap.encodable()
    }

    open spec fn encoding(&self) -> Seq<u8> {
        if self.nullable {
            match nullable_abbreviation(self.heap) {
                Some(b) => seq![b],
                None => seq![0x63u8] + self.heap.encoding(),
            }
        } else {
            seq![0x64u8] + self.heap.encoding()
        }
    }

    fn encode(&self, e: &mut Vec<u8>) {
        if self.nullable {
            match &self.heap {
                HeapType::Func => e.push(0x70),
                HeapType::Extern => e.push(0x6f),
                HeapType::Exn => e.push(0x69),
                HeapType::Eq => e.push(0x6d),
                HeapType::Struct => e.push(0x6b),
                HeapType::I31 => e.push(0x6c),
                HeapType::NoFunc => e.push(0x73),
                HeapType::NoExtern => e.push(0x72),
                HeapType::NoExn => e.push(0x74),
                HeapType::NoneType => e.push(0x71),
                heap => {
                    e.push(0x63);
                    heap.encode(e);
                },
            }
        } else {
            e.push(0x64);
            self.heap.encode(e);
        }
    }
}

impl Encode for ValType {
    open spec fn encodable(&self) -> bool {
        match self {
            ValType::Ref(r) => r.encodable(),
            _ => true,
        }
    }

    open spec fn encoding(&self) -> Seq<u8> {
        match self {
            ValType::I32 => seq![0x7fu8],
            ValType::I64 => seq![0x7eu8],
            ValType::F32 => seq![0x7du8],
            ValType::F64 => seq![0x7cu8],
            ValType::V128 => seq![0x7bu8],
            ValType::Ref(r) => r.encoding(),
        }
    }

    fn encode(&self, e: &mut Vec<u8>) {
        match self {
            ValType::I32 => e.push(0x7f),
            ValType::I64 => e.push(0x7e),
            ValType::F32 => e.push(0x7d),
            ValType::F64 => e.push(0x7c),
            ValType::V128 => e.push(0x7b),
            ValType::Ref(r) => r.encode(e),
        }
    }
}

/// The number types and the vector type have their one-byte codes (i32
/// 0x7f, i64 0x7e, f32 0x7d, f64 0x7c, v128 0x7b), the packed storage types
/// theirs (i8 0x78, i16 0x77); a reference value type is its reference
/// type, `(ref null ht)` is 0x63 then `ht` unless `ht` has a one-byte
/// abbreviation, and `(ref ht)` is 0x64 then `ht`.
pub proof fn lemma_value_type_codes()
    ensures
        ValType::I32.encoding() == seq![0x7fu8],
        ValType::I64.encoding() == seq![0x7eu8],
        ValType::F32.encoding() == seq![0x7du8],
        ValType::F64.encoding() == seq![0x7cu8],
        ValType::V128.encoding() == seq![0x7bu8],
        StorageType::I8.encoding() == seq![0x78u8],
        StorageType::I16.encoding() == seq![0x77u8],
        forall|v: ValType| #[trigger] StorageType::Val(v).encoding() == v.encoding(),
        forall|r: RefType| #[trigger] ValType::Ref(r).encoding() == r.encoding(),
        forall|h: HeapType|
            #[trigger] (RefType { nullable: false, heap: h }).encoding() == seq![0x64u8]
                + h.encoding(),
        forall|h: HeapType|
            nullable_abbreviation(h) is None ==> #[trigger] (RefType {
                nullable: true,
                heap: h,
            }).encoding() == seq![0x63u8] + h.encoding(),
{
}

impl Encode for StorageType {
    open spec fn encodable(&self) -> bool {
        match self {
            StorageType::Val(v) => v.encodable(),
            _ => true,
        }
    }

    open spec fn encoding(&self) -> Seq<u8> {
        match self {
            StorageType::I8 => seq![0x78u8],
            StorageType::I16 => seq![0x77u8],
            StorageType::Val(v) => v.encoding(),
        }
    }

    fn encode(&self, e: &mut Vec<u8>) {
        match self {
            StorageType::I8 => e.push(0x78),
            StorageType::I16 => e.push(0x77),
            StorageType::Val(v) => v.encode(e),
        }
    }
}

/// Compares two heap types whose indices are numbers.
pub fn same_heap_type(a: &HeapType, b: &HeapType) -> (r: bool)
    requires
        a.encodable(),
        b.encodable(),
    ensures
        r == (*a == *b),
{
    match (a, b) {
        (HeapType::Func, HeapType::Func) => true,
        (HeapType::Extern, HeapType::Extern) => true,
        (HeapType::Exn, HeapType::Exn) => true,
        (HeapType::Cont, HeapType::Cont) => true,
        (HeapType::Any, HeapType::Any) => true,
        (HeapType::Eq, HeapType::Eq) => true,
        (HeapType::Struct, HeapType::Struct) => true,
        (HeapType::Array, HeapType::Array) => true,
        (HeapType::I31, HeapType::I31) => true,
        (HeapType::NoCont, HeapType::NoCont) => true,
        (HeapType::NoFunc, HeapType::NoFunc) => true,
        (HeapType::NoExtern, HeapType::NoExtern) => true,
        (HeapType::NoExn, HeapType::NoExn) => true,
        (HeapType::NoneType, HeapType::NoneType) => true,
        (HeapType::Concrete(Index::Num(x)), HeapType::Concrete(Index::Num(y))) => *x == *y,
        _ => false,
    }
}

/// Compares two value types whose indices are numbers.
pub fn same_val_type(a: &ValType, b: &ValType) -> (r: bool)
    requires
        a.encodable(),
        b.encodable(),
    ensures
        r == (*a == *b),
{
    match (a, b) {
        (ValType::I32, ValType::I32) => true,
        (ValType::I64, ValType::I64) => true,
        (ValType::F32, ValType::F32) => true,
        (ValType::F64, ValType::F64) => true,
        (ValType::V128, ValType::V128) => true,
        (ValType::Ref(x), ValType::Ref(y)) => x.nullable == y.nullable && same_heap_type(
            &x.heap,
            &y.heap,
        ),
        _ => false,
    }
}

/// The value types of a parameter list.
pub open spec fn param_types(params: Seq<(Option<Id>, Option<NameAnnotation>, ValType)>) -> Seq<ValType> {
    params.map_values(|p: (Option<Id>, Option<NameAnnotation>, ValType)| p.2)
}

impl Encode for FunctionType {
    open spec fn encodable(&self) -> bool {
        &&& self.params@.len() <= u32::MAX
        &&& all_encodable(param_types(self.params@))
        &&& self.results.encodable()
    }

    open spec fn encoding(&self) -> Seq<u8> {
        list_encoding(param_types(self.params@)) + self.results.encoding()
    }

    fn encode(&self, e: &mut Vec<u8>) {
        let ghost tys = param_types(self.params@);
        self.params.len().encode(e);
        let ghost mid = e@;
        let mut i: usize = 0;
        while i < self.params.len()
            invariant
                i <= self.params@.len(),
                tys == param_types(self.params@),
                all_encodable(tys),
                e@ == mid + items_encoding(tys.take(i as int)),
            decreases self.params@.len() - i,
        {
            proof {
                crate::encode::lemma_items_encoding_push(tys.take(i as int), tys[i as int]);
                assert(tys.take(i as int).push(tys[i as int]) == tys.take(i + 1));
                assert(tys[i as int].encodable());
            }
            self.params[i].2.encode(e);
            i = i + 1;
        }
        assert(tys.take(i as int) == tys);
        self.results.encode(e);
    }
}

/// The encoding of a mutability flag: a signed LEB128 of 0 or 1.
pub open spec fn mutability_encoding(mutable: bool) -> Seq<u8> {
    leb_signed(if mutable { 1 } else { 0 })
}

impl Encode for StructField {
    open spec fn encodable(&self) -> bool {
        self.ty.encodable()
    }

    open spec fn encoding(&self) -> Seq<u8> {
        self.ty.encoding() + mutability_encoding(self.mutable)
    }

    fn encode(&self, e: &mut Vec<u8>) {
        self.ty.encode(e);
        (self.mutable as i32).encode(e);
    }
}

impl Encode for StructType {
    open spec fn encodable(&self) -> bool {
        self.fields.encodable()
    }

    open spec fn encoding(&self) -> Seq<u8> {
        self.fields.encoding()
    }

    fn encode(&self, e: &mut Vec<u8>) {
        self.fields.len().encode(e);
        encode_items(self.fields.as_slice(), e);
    }
}

impl Encode for ArrayType {
    open spec fn encodable(&self) -> bool {
        self.ty.encodable()
    }

    open spec fn encoding(&self) -> Seq<u8> {
        self.ty.encoding() + mutability_encoding(self.mutable)
    }

    fn encode(&self, e: &mut Vec<u8>) {
        self.ty.encode(e);
        (self.mutable as i32).encode(e);
    }
}

impl Encode for ContinuationType {
    open spec fn encodable(&self) -> bool {
        self.idx.encodable()
    }

    open spec fn encoding(&self) -> Seq<u8> {
        self.idx.encoding()
    }

    fn encode(&self, e: &mut Vec<u8>) {
        self.idx.encode(e);
    }
}

/// The prefix of a subtype: `0x4f 0x01 <parent>` for a final type with a
/// supertype, `0x50 0x01 <parent>` for a non-final one, `0x50 0x00` for
/// `sub` without a supertype, and nothing otherwise.
pub open spec fn subtype_prefix(parent: Option<Index>, final_type: Option<bool>) -> Seq<u8> {
    match parent {
        Some(p) => if final_type == Some(true) {
            seq![0x4fu8, 0x01u8] + p.encoding()
        } else {
            seq![0x50u8, 0x01u8] + p.encoding()
        },
        None => if final_type == Some(false) {
            seq![0x50u8, 0x00u8]
        } else {
            seq![]
        },
    }
}

impl Encode for TypeDef {
    open spec fn encodable(&self) -> bool {
        match self {
            TypeDef::Func(f) => f.encodable(),
            TypeDef::Struct(s) => s.encodable(),
            TypeDef::Array(a) => a.encodable(),
            TypeDef::Cont(c) => c.encodable(),
        }
    }

    open spec fn encoding(&self) -> Seq<u8> {
        match self {
            TypeDef::Func(f) => seq![0x60u8] + f.encoding(),
            TypeDef::Struct(s) => seq![0x5fu8] + s.encoding(),
            TypeDef::Array(a) => seq![0x5eu8] + a.encoding(),
            TypeDef::Cont(c) => seq![0x5du8] + c.encoding(),
        }
    }

    fn encode(&self, e: &mut Vec<u8>) {
        match self {
            TypeDef::Func(func) => {
                e.push(0x60);
                func.encode(e)
            },
            TypeDef::Struct(s) => {
                e.push(0x5f);
                s.encode(e)
            },
            TypeDef::Array(array) => {
                e.push(0x5e);
                array.encode(e)
            },
            TypeDef::Cont(u) => {
                e.push(0x5d);
                u.encode(e)
            },
        }
    }
}

impl Encode for Type {
    open spec fn encodable(&self) -> bool {
        &&& (self.parent matches Some(p) ==> p.encodable())
        &&& self.def.encodable()
    }

    open spec fn encoding(&self) -> Seq<u8> {
        subtype_prefix(self.parent, self.final_type) + self.def.encoding()
    }

    fn encode(&self, e: &mut Vec<u8>) {
        match (&self.parent, self.final_type) {
            (Some(parent), Some(true)) => {
                // Type is final with a supertype
                e.push(0x4f);
                e.push(0x01);
                parent.encode(e);
            },
            (Some(parent), _) => {
                // Type is not final and has a declared supertype
                e.push(0x50);
                e.push(0x01);
                parent.encode(e);
            },
            (None, Some(false)) => {
                // Sub was used without any declared supertype
                e.push(0x50);
                e.push(0x00);
            },
            (None, _) => {},  // No supertype, sub wasn't used
        }
        self.def.encode(e);
    }
}

impl Encode for Rec {
    open spec fn encodable(&self) -> bool {
        self.types.encodable()
    }

    open spec fn encoding(&self) -> Seq<u8> {
        seq![0x4eu8] + self.types.encoding()
    }

    fn encode(&self, e: &mut Vec<u8>) {
        e.push(0x4e);
        self.types.len().encode(e);
        encode_items(self.types.as_slice(), e);
    }
}

impl<'a> Encode for RecOrType<'a> {
    open spec fn encodable(&self) -> bool {
        match self {
            RecOrType::Type(ty) => ty.encodable(),
            RecOrType::Rec(rec) => rec.encodable(),
        }
    }

    open spec fn encoding(&self) -> Seq<u8> {
        match self {
            RecOrType::Type(ty) => ty.encoding(),
            RecOrType::Rec(rec) => rec.encoding(),
        }
    }

    fn encode(&self, e: &mut Vec<u8>) {
        match self {
            RecOrType::Type(ty) => ty.encode(e),
            RecOrType::Rec(rec) => rec.encode(e),
        }
    }
}

impl Encode for TypeUse {
    /// A type use is emitted as its index, which must have been filled in.
    open spec fn encodable(&self) -> bool {
        self.index matches Some(i) && i.encodable()
    }

    open spec fn encoding(&self) -> Seq<u8> {
        match self.index {
            Some(i) => i.encoding(),
            None => seq![],
        }
    }

    fn encode(&self, e: &mut Vec<u8>) {
        match &self.index {
            Some(i) => i.encode(e),
            None => {},
        }
    }
}

} // verus!
