use lib::custom::{Custom, CustomPlace, CustomPlaceAnchor, Producers, RawCustomSection};
use lib::encode::Encode;
use lib::expr::{BlockType, Expression, InstrBranchHint, Instruction, MemoryInit};
use lib::items::{
    Data, DataKind, DataVal, Func, FuncKind, Import, InlineExport, ItemKind, ItemSig, Local,
};
use lib::module::{encode, Encoder, ModuleField};
use lib::names::{find_names, Names};
use lib::types::{FunctionType, Id, Index, NameAnnotation, Type, TypeDef, TypeUse, ValType};

const HEADER: [u8; 8] = [0x00, 0x61, 0x73, 0x6d, 0x01, 0x00, 0x00, 0x00];

fn id(name: &str) -> Option<Id> {
    Some(Id { name: name.to_string(), gen: 0 })
}

fn empty_func_type() -> FunctionType {
    FunctionType { params: vec![], results: vec![] }
}

fn type_field() -> ModuleField {
    ModuleField::Type(Type {
        id: None,
        name: None,
        def: TypeDef::Func(empty_func_type()),
        parent: None,
        final_type: None,
    })
}

fn func(name: Option<Id>, instrs: Vec<Instruction>, hints: Vec<(usize, u32)>) -> ModuleField {
    ModuleField::Func(Func {
        id: name,
        name: None,
        exports: InlineExport { names: vec![] },
        kind: FuncKind::Inline {
            locals: vec![],
            expression: Expression {
                instrs,
                branch_hints: hints
                    .into_iter()
                    .map(|(instr_index, value)| InstrBranchHint { instr_index, value })
                    .collect(),
            },
        },
        ty: TypeUse { index: Some(Index::Num(0)), inline: Some(empty_func_type()) },
    })
}

fn with_header(rest: &[u8]) -> Vec<u8> {
    let mut v = HEADER.to_vec();
    v.extend_from_slice(rest);
    v
}

const TYPE_SECTION: [u8; 6] = [0x01, 0x04, 0x01, 0x60, 0x00, 0x00];
const FUNC_SECTION: [u8; 4] = [0x03, 0x02, 0x01, 0x00];
const CODE_SECTION: [u8; 6] = [0x0a, 0x04, 0x01, 0x02, 0x00, 0x0b];

#[test]
fn empty_module_is_the_header() {
    assert_eq!(encode(&None, &None, &[]), HEADER.to_vec());
}

#[test]
fn module_with_one_function() {
    let fields = vec![type_field(), func(None, vec![], vec![])];
    let mut expected = Vec::new();
    expected.extend(TYPE_SECTION);
    expected.extend(FUNC_SECTION);
    expected.extend(CODE_SECTION);
    assert_eq!(encode(&None, &None, &fields), with_header(&expected));
}

#[test]
fn named_function_gets_a_name_section() {
    let fields = vec![type_field(), func(id("f"), vec![], vec![])];
    let mut expected = Vec::new();
    expected.extend(TYPE_SECTION);
    expected.extend(FUNC_SECTION);
    expected.extend(CODE_SECTION);
    expected.extend([0x00, 0x0b, 0x04, 0x6e, 0x61, 0x6d, 0x65, 0x01, 0x04, 0x01, 0x00, 0x01, 0x66]);
    assert_eq!(encode(&None, &None, &fields), with_header(&expected));
}

#[test]
fn module_name_and_gensym_ids() {
    // A name made up by the parser is not emitted.
    let gensym = Some(Id { name: "x".to_string(), gen: 3 });
    assert_eq!(encode(&gensym, &None, &[]), HEADER.to_vec());
    // An annotation wins over the identifier.
    let annotation = Some(NameAnnotation { name: "m".to_string() });
    assert_eq!(
        encode(&id("ignored"), &annotation, &[]),
        with_header(&[0x00, 0x09, 0x04, 0x6e, 0x61, 0x6d, 0x65, 0x00, 0x02, 0x01, 0x6d])
    );
}

#[test]
fn custom_sections_go_where_they_are_placed() {
    let raw = |place, name: &str, byte| {
        ModuleField::Custom(Custom::Raw(RawCustomSection { place, name: name.to_string(), data: vec![vec![byte]] }))
    };
    let fields = vec![
        ModuleField::Custom(Custom::Producers(Producers { fields: vec![] })),
        type_field(),
        raw(CustomPlace::After(CustomPlaceAnchor::Type), "a", 1),
        raw(CustomPlace::Before(CustomPlaceAnchor::Type), "b", 2),
        raw(CustomPlace::BeforeFirst, "c", 3),
        raw(CustomPlace::Before(CustomPlaceAnchor::Code), "d", 4),
    ];
    let mut expected = Vec::new();
    expected.extend([0x00, 0x03, 0x01, 0x63, 0x03]);
    expected.extend([0x00, 0x03, 0x01, 0x62, 0x02]);
    expected.extend(TYPE_SECTION);
    expected.extend([0x00, 0x03, 0x01, 0x61, 0x01]);
    // No function: no code section, but its custom sections stay.
    expected.extend([0x00, 0x03, 0x01, 0x64, 0x04]);
    let mut producers = vec![0x00, 0x0b, 0x09];
    producers.extend(b"producers");
    producers.push(0x00);
    expected.extend(producers);
    assert_eq!(encode(&None, &None, &fields), with_header(&expected));
}

#[test]
fn data_count_section_when_a_body_needs_it() {
    let init = Instruction::MemoryInit(MemoryInit { data: Index::Num(0), mem: Index::Num(0) });
    let data = ModuleField::Data(Data {
        id: None,
        name: None,
        kind: DataKind::Passive,
        data: vec![DataVal::Integral(vec![7])],
    });
    let fields = vec![type_field(), func(None, vec![init], vec![]), data];
    let mut expected = Vec::new();
    expected.extend(TYPE_SECTION);
    expected.extend(FUNC_SECTION);
    expected.extend([0x0c, 0x01, 0x01]);
    expected.extend([0x0a, 0x08, 0x01, 0x06, 0x00, 0xfc, 0x08, 0x00, 0x00, 0x0b]);
    expected.extend([0x0b, 0x04, 0x01, 0x01, 0x01, 0x07]);
    assert_eq!(encode(&None, &None, &fields), with_header(&expected));
}

#[test]
fn start_section() {
    let fields = vec![type_field(), func(None, vec![], vec![]), ModuleField::Start(Index::Num(0))];
    let mut expected = Vec::new();
    expected.extend(TYPE_SECTION);
    expected.extend(FUNC_SECTION);
    expected.extend([0x08, 0x01, 0x00]);
    expected.extend(CODE_SECTION);
    assert_eq!(encode(&None, &None, &fields), with_header(&expected));
}

#[test]
fn branch_hint_section_precedes_the_code_section() {
    let import = ModuleField::Import(Import {
        module: "m".to_string(),
        field: "f".to_string(),
        item: ItemSig { id: None, name: None, kind: ItemKind::Func(TypeUse { index: Some(Index::Num(0)), inline: None }) },
    });
    let block = BlockType {
        label: None,
        label_name: None,
        ty: TypeUse { index: None, inline: Some(empty_func_type()) },
    };
    let body = vec![Instruction::I32Const(0), Instruction::If(block), Instruction::End(None)];
    let fields = vec![type_field(), import, func(None, body, vec![(1, 1)])];
    let mut expected = Vec::new();
    expected.extend(TYPE_SECTION);
    expected.extend([0x02, 0x07, 0x01, 0x01, 0x6d, 0x01, 0x66, 0x00, 0x00]);
    expected.extend(FUNC_SECTION);
    let mut hints = vec![0x00, 0x20, 0x19];
    hints.extend(b"metadata.code.branch_hint");
    // One function, index 1 after the import, one hint at offset 3 (after
    // the locals byte and `i32.const 0`), of size 1 and value 1.
    hints.extend([0x01, 0x01, 0x01, 0x03, 0x01, 0x01]);
    expected.extend(hints);
    expected.extend([0x0a, 0x09, 0x01, 0x07, 0x00, 0x41, 0x00, 0x04, 0x40, 0x0b, 0x0b]);
    assert_eq!(encode(&None, &None, &fields), with_header(&expected));
}

#[test]
fn encoder_sections() {
    let customs: Vec<&Custom> = vec![];
    let mut e = Encoder { wasm: vec![], tmp: vec![], customs: &customs };
    e.section(5, &vec![1u32, 300u32]);
    assert_eq!(e.wasm, vec![0x05, 0x04, 0x02, 0x01, 0xac, 0x02]);
    e.section_list(7, CustomPlaceAnchor::Export, &Vec::<u32>::new());
    assert_eq!(e.wasm.len(), 6);
}

#[test]
fn names_of_a_module() {
    let import = ModuleField::Import(Import {
        module: "m".to_string(),
        field: "f".to_string(),
        item: ItemSig {
            id: None,
            name: Some(NameAnnotation { name: "imp".to_string() }),
            kind: ItemKind::Func(TypeUse { index: Some(Index::Num(0)), inline: None }),
        },
    });
    let labelled = BlockType {
        label: id("l"),
        label_name: None,
        ty: TypeUse { index: None, inline: Some(empty_func_type()) },
    };
    let unlabelled = BlockType {
        label: None,
        label_name: None,
        ty: TypeUse { index: None, inline: Some(empty_func_type()) },
    };
    let f = ModuleField::Func(Func {
        id: id("f"),
        name: None,
        exports: InlineExport { names: vec![] },
        kind: FuncKind::Inline {
            locals: vec![Local { id: id("y"), name: None, ty: ValType::I32 }],
            expression: Expression {
                instrs: vec![
                    Instruction::Block(unlabelled),
                    Instruction::End(None),
                    Instruction::Loop(labelled),
                    Instruction::End(None),
                ],
                branch_hints: vec![],
            },
        },
        ty: TypeUse {
            index: Some(Index::Num(0)),
            inline: Some(FunctionType {
                params: vec![(None, None, ValType::I32), (id("x"), None, ValType::I64)],
                results: vec![],
            }),
        },
    });
    let fields = vec![type_field(), f, import];
    let names: Names = find_names(&None, &None, &fields);
    assert!(!names.is_empty());
    assert_eq!(names.module, None);
    // Indices follow field order: the definition comes first here.
    assert_eq!(names.funcs, vec![(0, "f"), (1, "imp")]);
    assert_eq!(names.func_idx, 2);
    assert_eq!(names.type_idx, 1);
    assert_eq!(names.locals, vec![(0, vec![(1, "x"), (2, "y")])]);
    assert_eq!(names.labels, vec![(0, vec![(1, "l")])]);
    assert!(names.types.is_empty());
    let mut e = Vec::new();
    names.encode(&mut e);
    assert_eq!(
        e,
        vec![
            0x01, 0x09, 0x02, 0x00, 0x01, 0x66, 0x01, 0x03, 0x69, 0x6d, 0x70, // funcs
            0x02, 0x09, 0x01, 0x00, 0x02, 0x01, 0x01, 0x78, 0x02, 0x01, 0x79, // locals
            0x03, 0x06, 0x01, 0x00, 0x01, 0x01, 0x01, 0x6c, // labels
        ]
    );
    let only_type = [type_field()];
    let none = find_names(&None, &None, &only_type);
    assert!(none.is_empty());
    let mut e = Vec::new();
    none.encode(&mut e);
    assert!(e.is_empty());
}
