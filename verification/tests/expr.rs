use lib::encode::Encode;
use lib::expr::{
    br_on_cast_flags, BlockType, BrOnCast, BrOnCastFail, BrTableIndices, CallIndirect, Expression,
    F32, F64, I8x16Shuffle, InstrBranchHint, Instruction, LaneArg, LoadOrStoreLane, MemArg,
    MemoryArg, MemoryCopy, MemoryInit, RefCast, RefTest, Resume, ResumeTableIndices, ResumeThrow,
    SelectTypes, StructAccess, TableCopy, TableInit, TryTable, TryTableCatch, TryTableCatchKind,
    V128Const, ArrayNewFixed,
};
use lib::types::{FunctionType, HeapType, Index, RefType, TypeUse, ValType};

fn bytes<T: Encode>(x: &T) -> Vec<u8> {
    let mut e = Vec::new();
    x.encode(&mut e);
    e
}

fn block(results: Vec<ValType>) -> BlockType {
    BlockType {
        label: None,
        label_name: None,
        ty: TypeUse { index: None, inline: Some(FunctionType { params: vec![], results }) },
    }
}

#[test]
fn br_on_cast_flag_bits() {
    assert_eq!(br_on_cast_flags(false, false), 0);
    assert_eq!(br_on_cast_flags(true, false), 1);
    assert_eq!(br_on_cast_flags(false, true), 2);
    assert_eq!(br_on_cast_flags(true, true), 3);
}

#[test]
fn block_types() {
    assert_eq!(bytes(&block(vec![])), vec![0x40]);
    assert_eq!(bytes(&block(vec![ValType::I64])), vec![0x7e]);
    let indexed = BlockType {
        label: None,
        label_name: None,
        ty: TypeUse { index: Some(Index::Num(64)), inline: None },
    };
    // An index is a signed LEB128.
    assert_eq!(bytes(&indexed), vec![0xc0, 0x00]);
}

#[test]
fn memory_arguments() {
    let m0 = MemArg { align: 4, offset: 16, memory: Index::Num(0) };
    assert_eq!(bytes(&m0), vec![0x02, 0x10]);
    let m1 = MemArg { align: 8, offset: 0, memory: Index::Num(1) };
    assert_eq!(bytes(&m1), vec![0x43, 0x01, 0x00]);
    let lane = LoadOrStoreLane { memarg: MemArg { align: 1, offset: 0, memory: Index::Num(0) }, lane: LaneArg { lane: 3 } };
    assert_eq!(bytes(&lane), vec![0x00, 0x00, 0x03]);
}

#[test]
fn reference_instructions() {
    let t = RefTest { ref_type: RefType { nullable: true, heap: HeapType::Any } };
    assert_eq!(bytes(&t), vec![0xfb, 0x15, 0x6e]);
    let t = RefTest { ref_type: RefType { nullable: false, heap: HeapType::Any } };
    assert_eq!(bytes(&t), vec![0xfb, 0x14, 0x6e]);
    let c = RefCast { ref_type: RefType { nullable: true, heap: HeapType::Eq } };
    assert_eq!(bytes(&c), vec![0xfb, 0x17, 0x6d]);
    let c = RefCast { ref_type: RefType { nullable: false, heap: HeapType::Concrete(Index::Num(2)) } };
    assert_eq!(bytes(&c), vec![0xfb, 0x16, 0x02]);
    let b = BrOnCast {
        label: Index::Num(1),
        from_type: RefType { nullable: true, heap: HeapType::Any },
        to_type: RefType { nullable: false, heap: HeapType::I31 },
    };
    assert_eq!(bytes(&b), vec![0xfb, 0x18, 0x01, 0x01, 0x6e, 0x6c]);
    let f = BrOnCastFail {
        label: Index::Num(0),
        from_type: RefType { nullable: false, heap: HeapType::Any },
        to_type: RefType { nullable: true, heap: HeapType::I31 },
    };
    assert_eq!(bytes(&f), vec![0xfb, 0x19, 0x02, 0x00, 0x6e, 0x6c]);
}

#[test]
fn try_table_catches() {
    let t = TryTable {
        block: block(vec![]),
        catches: vec![
            TryTableCatch { kind: TryTableCatchKind::Catch(Index::Num(4)), label: Index::Num(0) },
            TryTableCatch { kind: TryTableCatchKind::CatchRef(Index::Num(5)), label: Index::Num(1) },
            TryTableCatch { kind: TryTableCatchKind::CatchAll, label: Index::Num(2) },
            TryTableCatch { kind: TryTableCatchKind::CatchAllRef, label: Index::Num(3) },
        ],
    };
    assert_eq!(
        bytes(&Instruction::TryTable(t)),
        vec![0x1f, 0x40, 0x04, 0x00, 0x04, 0x00, 0x01, 0x05, 0x01, 0x02, 0x02, 0x03, 0x03]
    );
}

#[test]
fn constants_are_little_endian() {
    assert_eq!(bytes(&Instruction::F32Const(F32 { bits: 0x3f80_0000 })), vec![0x43, 0x00, 0x00, 0x80, 0x3f]);
    assert_eq!(
        bytes(&Instruction::F64Const(F64 { bits: 0x3ff0_0000_0000_0000 })),
        vec![0x44, 0, 0, 0, 0, 0, 0, 0xf0, 0x3f]
    );
    let v = V128Const { bits: 0x0f0e0d0c0b0a09080706050403020100 };
    let mut expected = vec![0xfd, 0x0c];
    expected.extend(0u8..16);
    assert_eq!(bytes(&Instruction::V128Const(v)), expected);
    let s = I8x16Shuffle { lanes: [15, 14, 13, 12, 11, 10, 9, 8, 7, 6, 5, 4, 3, 2, 1, 0] };
    let mut expected = vec![0xfd, 0x0d];
    expected.extend((0u8..16).rev());
    assert_eq!(bytes(&Instruction::I8x16Shuffle(s)), expected);
    assert_eq!(bytes(&Instruction::I32Const(-1)), vec![0x41, 0x7f]);
    assert_eq!(bytes(&Instruction::I64Const(128)), vec![0x42, 0x80, 0x01]);
}

#[test]
fn instructions_with_immediates() {
    let bt = BrTableIndices { labels: vec![Index::Num(0), Index::Num(1)], default: Index::Num(2) };
    assert_eq!(bytes(&Instruction::BrTable(bt)), vec![0x0e, 0x02, 0x00, 0x01, 0x02]);
    let ci = CallIndirect { table: Index::Num(1), ty: TypeUse { index: Some(Index::Num(3)), inline: None } };
    assert_eq!(bytes(&Instruction::CallIndirect(ci)), vec![0x11, 0x03, 0x01]);
    let ti = TableInit { table: Index::Num(1), elem: Index::Num(2) };
    assert_eq!(bytes(&Instruction::TableInit(ti)), vec![0xfc, 0x0c, 0x02, 0x01]);
    let tc = TableCopy { dst: Index::Num(1), src: Index::Num(2) };
    assert_eq!(bytes(&Instruction::TableCopy(tc)), vec![0xfc, 0x0e, 0x01, 0x02]);
    let mi = MemoryInit { data: Index::Num(3), mem: Index::Num(0) };
    assert_eq!(bytes(&Instruction::MemoryInit(mi)), vec![0xfc, 0x08, 0x03, 0x00]);
    let mc = MemoryCopy { src: Index::Num(1), dst: Index::Num(2) };
    assert_eq!(bytes(&Instruction::MemoryCopy(mc)), vec![0xfc, 0x0a, 0x02, 0x01]);
    assert_eq!(bytes(&Instruction::MemoryFill(MemoryArg { mem: Index::Num(0) })), vec![0xfc, 0x0b, 0x00]);
    let sa = StructAccess { struct_index: Index::Num(1), field: Index::Num(2) };
    assert_eq!(bytes(&Instruction::StructGet(sa)), vec![0xfb, 0x02, 0x01, 0x02]);
    let nf = ArrayNewFixed { array: Index::Num(1), length: 3 };
    assert_eq!(bytes(&Instruction::ArrayNewFixed(nf)), vec![0xfb, 0x08, 0x01, 0x03]);
    let r = Resume { index: Index::Num(1), table: ResumeTableIndices { targets: vec![(Index::Num(2), Index::Num(0))] } };
    assert_eq!(bytes(&Instruction::Resume(r)), vec![0xe3, 0x01, 0x01, 0x02, 0x00]);
    let rt = ResumeThrow { type_index: Index::Num(1), tag_index: Index::Num(2), table: ResumeTableIndices { targets: vec![] } };
    assert_eq!(bytes(&Instruction::ResumeThrow(rt)), vec![0xe4, 0x01, 0x02, 0x00]);
    assert_eq!(bytes(&Instruction::Select(SelectTypes { tys: None })), vec![0x1b]);
    assert_eq!(bytes(&Instruction::Select(SelectTypes { tys: Some(vec![ValType::I32]) })), vec![0x1c, 0x01, 0x7f]);
    assert_eq!(bytes(&Instruction::I8x16ExtractLaneS(LaneArg { lane: 7 })), vec![0xfd, 0x15, 0x07]);
    assert_eq!(bytes(&Instruction::Block(block(vec![]))), vec![0x02, 0x40]);
    assert_eq!(bytes(&Instruction::End(None)), vec![0x0b]);
    assert_eq!(bytes(&Instruction::RefNull(HeapType::Func)), vec![0xd0, 0x70]);
}

#[test]
fn data_count_instructions() {
    assert!(Instruction::MemoryInit(MemoryInit { data: Index::Num(0), mem: Index::Num(0) }).needs_data_count());
    assert!(Instruction::DataDrop(Index::Num(0)).needs_data_count());
    assert!(!Instruction::Nop.needs_data_count());
    assert!(!Instruction::MemoryFill(MemoryArg { mem: Index::Num(0) }).needs_data_count());
}

fn hinted_expression(hints: Vec<(usize, u32)>) -> Expression {
    Expression {
        instrs: vec![
            Instruction::I32Const(0),
            Instruction::If(block(vec![])),
            Instruction::Nop,
            Instruction::End(None),
            Instruction::LocalGet(Index::Num(0)),
            Instruction::BrIf(Index::Num(0)),
        ],
        branch_hints: hints
            .into_iter()
            .map(|(instr_index, value)| InstrBranchHint { instr_index, value })
            .collect(),
    }
}

#[test]
fn expression_branch_hint_offsets() {
    let x = hinted_expression(vec![(1, 1), (5, 0)]);
    let mut e = vec![0xaa, 0xbb, 0xcc];
    let hints = x.encode(&mut e, 1);
    assert_eq!(
        e,
        vec![0xaa, 0xbb, 0xcc, 0x41, 0x00, 0x04, 0x40, 0x01, 0x0b, 0x20, 0x00, 0x0d, 0x00, 0x0b]
    );
    assert_eq!(hints.len(), 2);
    // The `if` is 2 bytes after the start of the expression, which starts 2
    // bytes after `relative_start`.
    assert_eq!(hints[0].branch_func_offset, 4);
    assert_eq!(hints[0].branch_hint_value, 1);
    assert_eq!(hints[1].branch_func_offset, 10);
    assert_eq!(hints[1].branch_hint_value, 0);
}

#[test]
fn expression_drops_hints_out_of_order() {
    // A hint that does not follow the previous one stops the rest.
    let x = hinted_expression(vec![(5, 0), (1, 1)]);
    let mut e = Vec::new();
    let hints = x.encode(&mut e, 0);
    assert_eq!(hints.len(), 1);
    assert_eq!(hints[0].branch_func_offset, 8);
    let x = hinted_expression(vec![(9, 0)]);
    let mut e = Vec::new();
    assert_eq!(x.encode(&mut e, 0).len(), 0);
}
