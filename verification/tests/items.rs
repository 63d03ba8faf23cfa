use lib::custom::{Custom, CustomPlace, CustomPlaceAnchor, Dylink0, Dylink0Subsection, Producers, RawCustomSection};
use lib::encode::Encode;
use lib::expr::{Expression, Instruction};
use lib::items::{
    encode_locals, Data, DataKind, DataVal, Elem, ElemKind, ElemPayload, Export, ExportKind, Func,
    FuncKind, Global, GlobalKind, GlobalType, Import, InlineExport, ItemKind, ItemSig, Limits,
    Limits64, Local, Memory, MemoryKind, MemoryType, Table, TableKind, TableType, Tag, TagKind, TagType,
};
use lib::types::{HeapType, Index, RefType, TypeUse, ValType};

fn bytes<T: Encode>(x: &T) -> Vec<u8> {
    let mut e = Vec::new();
    x.encode(&mut e);
    e
}

fn expr(instrs: Vec<Instruction>) -> Expression {
    Expression { instrs, branch_hints: vec![] }
}

fn offset() -> Expression {
    expr(vec![Instruction::I32Const(0)])
}

fn funcref() -> RefType {
    RefType { nullable: true, heap: HeapType::Func }
}

fn externref() -> RefType {
    RefType { nullable: true, heap: HeapType::Extern }
}

fn no_exports() -> InlineExport {
    InlineExport { names: vec![] }
}

#[test]
fn limits_and_memory_flags() {
    assert_eq!(bytes(&Limits { min: 1, max: Some(2) }), vec![0x01, 0x01, 0x02]);
    assert_eq!(bytes(&Limits { min: 1, max: None }), vec![0x00, 0x01]);
    let m = MemoryType::B32 { limits: Limits { min: 1, max: Some(2) }, shared: true, page_size_log2: None };
    assert_eq!(bytes(&m), vec![0x03, 0x01, 0x02]);
    let m = MemoryType::B32 { limits: Limits { min: 1, max: Some(2) }, shared: true, page_size_log2: Some(16) };
    assert_eq!(bytes(&m), vec![0x0b, 0x01, 0x02, 0x10]);
    let m = MemoryType::B64 { limits: Limits64 { min: 1, max: None }, shared: false, page_size_log2: None };
    assert_eq!(bytes(&m), vec![0x04, 0x01]);
    let m = MemoryType::B64 { limits: Limits64 { min: 0, max: Some(1 << 40) }, shared: false, page_size_log2: Some(0) };
    assert_eq!(bytes(&m), vec![0x0d, 0x00, 0x80, 0x80, 0x80, 0x80, 0x80, 0x20, 0x00]);
}

#[test]
fn global_flags() {
    let g = |mutable, shared| GlobalType { ty: ValType::I32, mutable, shared };
    assert_eq!(bytes(&g(false, false)), vec![0x7f, 0x00]);
    assert_eq!(bytes(&g(true, false)), vec![0x7f, 0x01]);
    assert_eq!(bytes(&g(false, true)), vec![0x7f, 0x02]);
    assert_eq!(bytes(&g(true, true)), vec![0x7f, 0x03]);
}

#[test]
fn imports_and_exports() {
    let i = Import {
        module: "m".to_string(),
        field: "f".to_string(),
        item: ItemSig { id: None, name: None, kind: ItemKind::Func(TypeUse { index: Some(Index::Num(0)), inline: None }) },
    };
    assert_eq!(bytes(&i), vec![0x01, 0x6d, 0x01, 0x66, 0x00, 0x00]);
    let t = ItemSig {
        id: None,
        name: None,
        kind: ItemKind::Table(TableType { limits: Limits { min: 0, max: None }, elem: funcref() }),
    };
    assert_eq!(bytes(&t), vec![0x01, 0x70, 0x00, 0x00]);
    let g = ItemSig { id: None, name: None, kind: ItemKind::Global(GlobalType { ty: ValType::F64, mutable: true, shared: false }) };
    assert_eq!(bytes(&g), vec![0x03, 0x7c, 0x01]);
    let tag = ItemSig { id: None, name: None, kind: ItemKind::Tag(TagType::Exception(TypeUse { index: Some(Index::Num(2)), inline: None })) };
    assert_eq!(bytes(&tag), vec![0x04, 0x00, 0x02]);
    let e = Export { name: "e".to_string(), kind: ExportKind::Memory, item: Index::Num(3) };
    assert_eq!(bytes(&e), vec![0x01, 0x65, 0x02, 0x03]);
}

#[test]
fn tables_memories_globals_tags() {
    let ty = || TableType { limits: Limits { min: 1, max: None }, elem: funcref() };
    let t = Table { id: None, name: None, exports: no_exports(), kind: TableKind::Normal { ty: ty(), init_expr: None } };
    assert_eq!(bytes(&t), vec![0x70, 0x00, 0x01]);
    let t = Table {
        id: None,
        name: None,
        exports: no_exports(),
        kind: TableKind::Normal { ty: ty(), init_expr: Some(expr(vec![Instruction::RefNull(HeapType::Func)])) },
    };
    assert_eq!(bytes(&t), vec![0x40, 0x00, 0x70, 0x00, 0x01, 0xd0, 0x70, 0x0b]);
    let m = Memory {
        id: None,
        name: None,
        exports: no_exports(),
        kind: MemoryKind::Normal(MemoryType::B32 { limits: Limits { min: 1, max: None }, shared: false, page_size_log2: None }),
    };
    assert_eq!(bytes(&m), vec![0x00, 0x01]);
    let g = Global {
        id: None,
        name: None,
        exports: no_exports(),
        ty: GlobalType { ty: ValType::I32, mutable: false, shared: false },
        kind: GlobalKind::Inline(expr(vec![Instruction::I32Const(5)])),
    };
    assert_eq!(bytes(&g), vec![0x7f, 0x00, 0x41, 0x05, 0x0b]);
    let tag = Tag {
        id: None,
        name: None,
        exports: no_exports(),
        ty: TagType::Exception(TypeUse { index: Some(Index::Num(1)), inline: None }),
        kind: TagKind::Inline,
    };
    assert_eq!(bytes(&tag), vec![0x00, 0x01]);
}

fn elem(kind: ElemKind, payload: ElemPayload) -> Vec<u8> {
    bytes(&Elem { id: None, name: None, kind, payload })
}

#[test]
fn element_segment_flags() {
    let active = |t| ElemKind::Active { table: Index::Num(t), offset: offset() };
    let indices = |v: Vec<u32>| ElemPayload::Indices(v.into_iter().map(Index::Num).collect());
    assert_eq!(elem(active(0), indices(vec![1, 2])), vec![0x00, 0x41, 0x00, 0x0b, 0x02, 0x01, 0x02]);
    assert_eq!(elem(ElemKind::Passive, indices(vec![1])), vec![0x01, 0x00, 0x01, 0x01]);
    assert_eq!(elem(active(1), indices(vec![])), vec![0x02, 0x01, 0x41, 0x00, 0x0b, 0x00, 0x00]);
    assert_eq!(elem(ElemKind::Declared, indices(vec![0])), vec![0x03, 0x00, 0x01, 0x00]);
    let exprs = |ty, v: Vec<Expression>| ElemPayload::Exprs { ty, exprs: v };
    assert_eq!(
        elem(active(0), exprs(funcref(), vec![expr(vec![Instruction::RefFunc(Index::Num(0))])])),
        vec![0x04, 0x41, 0x00, 0x0b, 0x01, 0xd2, 0x00, 0x0b]
    );
    assert_eq!(elem(ElemKind::Passive, exprs(externref(), vec![])), vec![0x05, 0x6f, 0x00]);
    assert_eq!(
        elem(active(0), exprs(externref(), vec![])),
        vec![0x06, 0x00, 0x41, 0x00, 0x0b, 0x6f, 0x00]
    );
    assert_eq!(
        elem(active(2), exprs(funcref(), vec![])),
        vec![0x06, 0x02, 0x41, 0x00, 0x0b, 0x70, 0x00]
    );
    assert_eq!(elem(ElemKind::Declared, exprs(funcref(), vec![])), vec![0x07, 0x70, 0x00]);
}

#[test]
fn data_segments() {
    let data = || vec![DataVal::String(b"ab".to_vec()), DataVal::Integral(vec![1])];
    assert_eq!(DataVal::String(b"abc".to_vec()).len(), 3);
    let mut e = vec![9];
    DataVal::Integral(vec![1, 2]).push_onto(&mut e);
    assert_eq!(e, vec![9, 1, 2]);
    let d = Data { id: None, name: None, kind: DataKind::Passive, data: data() };
    assert_eq!(bytes(&d), vec![0x01, 0x03, 0x61, 0x62, 0x01]);
    let d = Data { id: None, name: None, kind: DataKind::Active { memory: Index::Num(0), offset: offset() }, data: data() };
    assert_eq!(bytes(&d), vec![0x00, 0x41, 0x00, 0x0b, 0x03, 0x61, 0x62, 0x01]);
    let d = Data { id: None, name: None, kind: DataKind::Active { memory: Index::Num(2), offset: offset() }, data: vec![] };
    assert_eq!(bytes(&d), vec![0x02, 0x02, 0x41, 0x00, 0x0b, 0x00]);
}

fn local(ty: ValType) -> Local {
    Local { id: None, name: None, ty }
}

#[test]
fn locals_are_run_length_compressed() {
    let mut e = Vec::new();
    encode_locals(&[local(ValType::I32), local(ValType::I32), local(ValType::I64), local(ValType::I32)], &mut e);
    assert_eq!(e, vec![0x03, 0x02, 0x7f, 0x01, 0x7e, 0x01, 0x7f]);
    let mut e = Vec::new();
    encode_locals(&[], &mut e);
    assert_eq!(e, vec![0x00]);
    let r = |n| ValType::Ref(RefType { nullable: true, heap: HeapType::Concrete(Index::Num(n)) });
    let mut e = Vec::new();
    encode_locals(&[local(r(1)), local(r(1)), local(r(2))], &mut e);
    assert_eq!(e, vec![0x02, 0x02, 0x63, 0x01, 0x01, 0x63, 0x02]);
}

#[test]
fn function_body_is_length_prefixed() {
    let f = Func {
        id: None,
        name: None,
        exports: no_exports(),
        kind: FuncKind::Inline {
            locals: vec![local(ValType::I64)],
            expression: expr(vec![Instruction::LocalGet(Index::Num(0)), Instruction::Drop]),
        },
        ty: TypeUse { index: Some(Index::Num(0)), inline: None },
    };
    let mut e = Vec::new();
    let hints = f.encode(&mut e);
    assert!(hints.is_empty());
    assert_eq!(e, vec![0x07, 0x01, 0x01, 0x7e, 0x20, 0x00, 0x1a, 0x0b]);
}

#[test]
fn custom_sections() {
    let raw = Custom::Raw(RawCustomSection {
        place: CustomPlace::Before(CustomPlaceAnchor::Type),
        name: "c".to_string(),
        data: vec![vec![1, 2], vec![3]],
    });
    assert_eq!(raw.name(), "c");
    assert_eq!(raw.place(), CustomPlace::Before(CustomPlaceAnchor::Type));
    assert_eq!(bytes(&raw), vec![1, 2, 3]);
    let p = Custom::Producers(Producers {
        fields: vec![("language".to_string(), vec![("Rust".to_string(), "1.0".to_string())])],
    });
    assert_eq!(p.name(), "producers");
    assert_eq!(p.place(), CustomPlace::AfterLast);
    let mut expected = vec![0x01, 0x08];
    expected.extend(b"language");
    expected.extend([0x01, 0x04]);
    expected.extend(b"Rust");
    expected.push(0x03);
    expected.extend(b"1.0");
    assert_eq!(bytes(&p), expected);
    let d = Custom::Dylink0(Dylink0 {
        subsections: vec![
            Dylink0Subsection::MemInfo { memory_size: 1, memory_align: 2, table_size: 3, table_align: 4 },
            Dylink0Subsection::Needed(vec!["a".to_string()]),
            Dylink0Subsection::ExportInfo(vec![("b".to_string(), 5)]),
            Dylink0Subsection::ImportInfo(vec![("c".to_string(), "d".to_string(), 6)]),
        ],
    });
    assert_eq!(d.name(), "dylink.0");
    assert_eq!(d.place(), CustomPlace::BeforeFirst);
    assert_eq!(
        bytes(&d),
        vec![
            0x01, 0x04, 0x01, 0x02, 0x03, 0x04, 0x02, 0x03, 0x01, 0x01, 0x61, 0x03, 0x04, 0x01, 0x01,
            0x62, 0x05, 0x04, 0x06, 0x01, 0x01, 0x63, 0x01, 0x64, 0x06,
        ]
    );
}
