use lib::encode::Encode;
use lib::types::{
    ArrayType, ContinuationType, FunctionType, HeapType, Id, Index, NameAnnotation, Rec, RefType,
    StorageType, StructField, StructType, Type, TypeDef, TypeUse, ValType, same_val_type,
};

fn bytes<T: Encode>(x: &T) -> Vec<u8> {
    let mut e = Vec::new();
    x.encode(&mut e);
    e
}

fn func_type(params: Vec<ValType>, results: Vec<ValType>) -> FunctionType {
    FunctionType {
        params: params.into_iter().map(|t| (None, None, t)).collect(),
        results,
    }
}

#[test]
fn value_types() {
    assert_eq!(bytes(&ValType::I32), vec![0x7f]);
    assert_eq!(bytes(&ValType::I64), vec![0x7e]);
    assert_eq!(bytes(&ValType::F32), vec![0x7d]);
    assert_eq!(bytes(&ValType::F64), vec![0x7c]);
    assert_eq!(bytes(&ValType::V128), vec![0x7b]);
    assert_eq!(bytes(&StorageType::I8), vec![0x78]);
    assert_eq!(bytes(&StorageType::I16), vec![0x77]);
}

#[test]
fn reference_type_abbreviations() {
    let r = |nullable, heap| RefType { nullable, heap };
    assert_eq!(bytes(&r(true, HeapType::Func)), vec![0x70]);
    assert_eq!(bytes(&r(true, HeapType::Extern)), vec![0x6f]);
    assert_eq!(bytes(&r(true, HeapType::Exn)), vec![0x69]);
    assert_eq!(bytes(&r(true, HeapType::Eq)), vec![0x6d]);
    assert_eq!(bytes(&r(true, HeapType::Struct)), vec![0x6b]);
    assert_eq!(bytes(&r(true, HeapType::I31)), vec![0x6c]);
    assert_eq!(bytes(&r(true, HeapType::NoFunc)), vec![0x73]);
    assert_eq!(bytes(&r(true, HeapType::NoExtern)), vec![0x72]);
    assert_eq!(bytes(&r(true, HeapType::NoExn)), vec![0x74]);
    assert_eq!(bytes(&r(true, HeapType::NoneType)), vec![0x71]);
    // Heap types without an abbreviation take the generic forms.
    assert_eq!(bytes(&r(true, HeapType::Any)), vec![0x63, 0x6e]);
    assert_eq!(bytes(&r(true, HeapType::Array)), vec![0x63, 0x6a]);
    assert_eq!(bytes(&r(true, HeapType::Cont)), vec![0x63, 0x68]);
    assert_eq!(bytes(&r(false, HeapType::Func)), vec![0x64, 0x70]);
    assert_eq!(bytes(&r(false, HeapType::NoCont)), vec![0x64, 0x75]);
}

#[test]
fn concrete_heap_type_is_signed_leb128() {
    assert_eq!(bytes(&HeapType::Concrete(Index::Num(3))), vec![0x03]);
    // 64 needs a second byte as a signed LEB128.
    assert_eq!(bytes(&HeapType::Concrete(Index::Num(64))), vec![0xc0, 0x00]);
    let r = RefType { nullable: false, heap: HeapType::Concrete(Index::Num(64)) };
    assert_eq!(bytes(&ValType::Ref(r)), vec![0x64, 0xc0, 0x00]);
}

#[test]
fn function_type() {
    let f = func_type(vec![ValType::I32, ValType::I64], vec![ValType::F32]);
    assert_eq!(bytes(&f), vec![0x02, 0x7f, 0x7e, 0x01, 0x7d]);
    let empty = func_type(vec![], vec![]);
    assert_eq!(bytes(&empty), vec![0x00, 0x00]);
}

#[test]
fn struct_and_array_types() {
    let s = StructType {
        fields: vec![
            StructField { id: None, mutable: true, ty: StorageType::I8 },
            StructField { id: None, mutable: false, ty: StorageType::Val(ValType::I32) },
        ],
    };
    assert_eq!(bytes(&s), vec![0x02, 0x78, 0x01, 0x7f, 0x00]);
    let a = ArrayType { mutable: true, ty: StorageType::I16 };
    assert_eq!(bytes(&a), vec![0x77, 0x01]);
}

fn ty(def: TypeDef, parent: Option<Index>, final_type: Option<bool>) -> Type {
    Type { id: None, name: None, def, parent, final_type }
}

#[test]
fn subtype_prefixes() {
    let def = || TypeDef::Func(func_type(vec![], vec![]));
    assert_eq!(bytes(&ty(def(), None, None)), vec![0x60, 0x00, 0x00]);
    assert_eq!(bytes(&ty(def(), None, Some(true))), vec![0x60, 0x00, 0x00]);
    assert_eq!(bytes(&ty(def(), None, Some(false))), vec![0x50, 0x00, 0x60, 0x00, 0x00]);
    assert_eq!(
        bytes(&ty(def(), Some(Index::Num(2)), Some(true))),
        vec![0x4f, 0x01, 0x02, 0x60, 0x00, 0x00]
    );
    assert_eq!(
        bytes(&ty(def(), Some(Index::Num(2)), Some(false))),
        vec![0x50, 0x01, 0x02, 0x60, 0x00, 0x00]
    );
    assert_eq!(
        bytes(&ty(def(), Some(Index::Num(2)), None)),
        vec![0x50, 0x01, 0x02, 0x60, 0x00, 0x00]
    );
}

#[test]
fn type_definitions_and_rec_groups() {
    let s = ty(TypeDef::Struct(StructType { fields: vec![] }), None, None);
    assert_eq!(bytes(&s), vec![0x5f, 0x00]);
    let a = ty(TypeDef::Array(ArrayType { mutable: false, ty: StorageType::I8 }), None, None);
    assert_eq!(bytes(&a), vec![0x5e, 0x78, 0x00]);
    let c = ty(TypeDef::Cont(ContinuationType { idx: Index::Num(1) }), None, None);
    assert_eq!(bytes(&c), vec![0x5d, 0x01]);
    let rec = Rec { types: vec![s, a] };
    assert_eq!(bytes(&rec), vec![0x4e, 0x02, 0x5f, 0x00, 0x5e, 0x78, 0x00]);
}

#[test]
fn names_and_indices() {
    let id = Id { name: "hé".to_string(), gen: 0 };
    assert!(!id.is_gensym());
    assert_eq!(id.name(), "hé");
    // The length counts UTF-8 bytes, not characters.
    assert_eq!(bytes(&id), vec![0x03, 0x68, 0xc3, 0xa9]);
    assert!(Id { name: "x".to_string(), gen: 5 }.is_gensym());
    assert_eq!(bytes(&Index::Num(300)), vec![0xac, 0x02]);
    let label: Option<Id> = Some(Id { name: "l".to_string(), gen: 0 });
    assert_eq!(bytes(&label), Vec::<u8>::new());
    let use_ = TypeUse { index: Some(Index::Num(7)), inline: None };
    assert_eq!(bytes(&use_), vec![0x07]);
    let _ = NameAnnotation { name: "n".to_string() };
}

#[test]
fn value_type_comparison() {
    let r = |n| ValType::Ref(RefType { nullable: true, heap: HeapType::Concrete(Index::Num(n)) });
    assert!(same_val_type(&ValType::I32, &ValType::I32));
    assert!(!same_val_type(&ValType::I32, &ValType::I64));
    assert!(same_val_type(&r(1), &r(1)));
    assert!(!same_val_type(&r(1), &r(2)));
}
