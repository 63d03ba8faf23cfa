//! The name section: the names of the module, of its items, of function
//! locals and of block labels, each with the index it refers to.
use vstd::prelude::*;
use crate::encode::{Encode, bytes_encoding, items_encoding, lemma_bytes_items_encoding};
use crate::leb::leb_unsigned;
use crate::types::name_encodable;
use crate::types::{Id, NameAnnotation, Type, name_encoding};
use crate::items::{Func, FuncKind, ItemKind};
use crate::expr::{Instruction, TryTable};
use crate::module::ModuleField;

verus! {

/// The name of an item: its annotation if it has one, else its identifier
/// unless the parser made that up.
pub open spec fn spec_get_name(id: Option<Id>, name: Option<NameAnnotation>) -> Option<Seq<char>> {
    match name {
        Some(n) => Some(n.name@),
        None => match id {
            Some(i) => if i.gen != 0 {
                None
            } else {
                Some(i.name@)
            },
            None => None,
        },
    }
}

/// The view of an optional borrowed name.
pub open spec fn opt_str_view(s: Option<&str>) -> Option<Seq<char>> {
    match s {
        Some(x) => Some(x@),
        None => None,
    }
}

/// The name of an item, from its annotation or identifier.
pub fn get_name<'a>(id: &'a Option<Id>, name: &'a Option<NameAnnotation>) -> (r: Option<&'a str>)
    ensures
        opt_str_view(r) == spec_get_name(*id, *name),
{
    match name {
        Some(n) => Some(n.name.as_str()),
        None => match id {
            Some(i) => if i.is_gensym() {
                None
            } else {
                Some(i.name())
            },
            None => None,
        },
    }
}

/// The kinds of items that the name section names, each with its own
/// index space.
#[derive(PartialEq, Eq, Structural, Clone, Copy)]
pub enum Name {
    Type,
    Global,
    Func,
    Memory,
    Table,
    Tag,
    Elem,
    Data,
}

/// An item in the order of the index spaces: its kind, its name if it has
/// one, and the function itself for a function defined in the module.
pub struct NameEntry {
    pub kind: Name,
    pub name: Option<Seq<char>>,
    pub func: Option<Func>,
}

/// The index space that an imported item belongs to.
pub open spec fn import_kind(kind: ItemKind) -> Name {
    match kind {
        ItemKind::Func(_) => Name::Func,
        ItemKind::Table(_) => Name::Table,
        ItemKind::Memory(_) => Name::Memory,
        ItemKind::Global(_) => Name::Global,
        ItemKind::Tag(_) => Name::Tag,
    }
}

/// An entry for an item that is not a function defined in the module.
pub open spec fn plain_entry(kind: Name, id: Option<Id>, name: Option<NameAnnotation>) -> NameEntry {
    NameEntry { kind, name: spec_get_name(id, name), func: None }
}

/// The entries of the types of a recursion group.
pub open spec fn rec_entries(types: Seq<Type>) -> Seq<NameEntry> {
    types.map_values(|t: Type| plain_entry(Name::Type, t.id, t.name))
}

/// The entries that a module field adds: one per item it defines or
/// imports, one per type of a recursion group, none for exports, the start
/// function and custom sections.
pub open spec fn field_entries(field: ModuleField) -> Seq<NameEntry> {
    match field {
        ModuleField::Import(i) => seq![plain_entry(import_kind(i.item.kind), i.item.id, i.item.name)],
        ModuleField::Global(g) => seq![plain_entry(Name::Global, g.id, g.name)],
        ModuleField::Table(t) => seq![plain_entry(Name::Table, t.id, t.name)],
        ModuleField::Memory(m) => seq![plain_entry(Name::Memory, m.id, m.name)],
        ModuleField::Tag(t) => seq![plain_entry(Name::Tag, t.id, t.name)],
        ModuleField::Type(t) => seq![plain_entry(Name::Type, t.id, t.name)],
        ModuleField::Rec(r) => rec_entries(r.types@),
        ModuleField::Elem(e) => seq![plain_entry(Name::Elem, e.id, e.name)],
        ModuleField::Data(d) => seq![plain_entry(Name::Data, d.id, d.name)],
        ModuleField::Func(f) => seq![
            NameEntry { kind: Name::Func, name: spec_get_name(f.id, f.name), func: Some(f) },
        ],
        _ => seq![],
    }
}

/// The entries of a list of module fields, in order.
pub open spec fn name_entries(fields: Seq<ModuleField>) -> Seq<NameEntry>
    decreases fields.len(),
{
    if fields.len() == 0 {
        seq![]
    } else {
        name_entries(fields.drop_last()) + field_entries(fields.last())
    }
}

/// The number of entries of kind `k`.
pub open spec fn kind_count(es: Seq<NameEntry>, k: Name) -> nat
    decreases es.len(),
{
    if es.len() == 0 {
        0
    } else {
        kind_count(es.drop_last(), k) + if es.last().kind == k {
            1nat
        } else {
            0nat
        }
    }
}

/// The named entries of kind `k`, each with its index in the index space
/// of `k`: the number of entries of that kind before it.
pub open spec fn kind_names(es: Seq<NameEntry>, k: Name) -> Seq<(u32, Seq<char>)>
    decreases es.len(),
{
    if es.len() == 0 {
        seq![]
    } else {
        let prev = kind_names(es.drop_last(), k);
        if es.last().kind == k && es.last().name is Some {
            prev.push((kind_count(es.drop_last(), k) as u32, es.last().name.unwrap()))
        } else {
            prev
        }
    }
}

/// The named positions of a list of slots, each with its position.
pub open spec fn indexed_names(slots: Seq<(Option<Id>, Option<NameAnnotation>)>) -> Seq<
    (u32, Seq<char>),
>
    decreases slots.len(),
{
    if slots.len() == 0 {
        seq![]
    } else {
        let prev = indexed_names(slots.drop_last());
        match spec_get_name(slots.last().0, slots.last().1) {
            Some(n) => prev.push(((slots.len() - 1) as u32, n)),
            None => prev,
        }
    }
}

/// The local slots of a function: the parameters of its inline type, then
/// its locals.
pub open spec fn local_slots(f: Func) -> Seq<(Option<Id>, Option<NameAnnotation>)> {
    (match f.ty.inline {
        Some(ty) => ty.params@.map_values(
            |p: (Option<Id>, Option<NameAnnotation>, crate::types::ValType)| (p.0, p.1),
        ),
        None => seq![],
    }) + (match f.kind {
        FuncKind::Inline { locals, expression } => locals@.map_values(
            |l: crate::items::Local| (l.id, l.name),
        ),
        _ => seq![],
    })
}

/// The labels of the blocks that the instructions open, in order.
pub open spec fn block_labels(instrs: Seq<Instruction>) -> Seq<(Option<Id>, Option<NameAnnotation>)>
    decreases instrs.len(),
{
    if instrs.len() == 0 {
        seq![]
    } else {
        block_labels(instrs.drop_last()) + match instrs.last().block_type() {
            Some(b) => seq![(b.label, b.label_name)],
            None => seq![],
        }
    }
}

/// The label slots of a function: the labels of its blocks.
pub open spec fn label_slots(f: Func) -> Seq<(Option<Id>, Option<NameAnnotation>)> {
    match f.kind {
        FuncKind::Inline { locals, expression } => block_labels(expression.instrs@),
        _ => seq![],
    }
}

/// For each function defined in the module with named slots, its index and
/// the names of its slots, as `slots` chooses them.
pub open spec fn func_slot_names(
    es: Seq<NameEntry>,
    slots: spec_fn(Func) -> Seq<(Option<Id>, Option<NameAnnotation>)>,
) -> Seq<(u32, Seq<(u32, Seq<char>)>)>
    decreases es.len(),
{
    if es.len() == 0 {
        seq![]
    } else {
        let prev = func_slot_names(es.drop_last(), slots);
        match es.last().func {
            Some(f) => if indexed_names(slots(f)).len() > 0 {
                prev.push((kind_count(es.drop_last(), Name::Func) as u32, indexed_names(slots(f))))
            } else {
                prev
            },
            None => prev,
        }
    }
}

/// The names of locals: per function, the names of its parameters and locals.
pub open spec fn local_names(es: Seq<NameEntry>) -> Seq<(u32, Seq<(u32, Seq<char>)>)> {
    func_slot_names(es, |f: Func| local_slots(f))
}

/// The names of labels: per function, the names of its blocks.
pub open spec fn label_names(es: Seq<NameEntry>) -> Seq<(u32, Seq<(u32, Seq<char>)>)> {
    func_slot_names(es, |f: Func| label_slots(f))
}

/// The names of a module's fields can be collected: no index space and no
/// function's locals or labels outgrow 32 bits.
pub open spec fn names_collectable(fields: Seq<ModuleField>) -> bool {
    let es = name_entries(fields);
    &&& forall|k: Name| kind_count(es, k) <= u32::MAX
    &&& forall|i: int|
        0 <= i < es.len() && (#[trigger] es[i]).func is Some ==> local_slots(es[i].func.unwrap()).len()
            <= u32::MAX && label_slots(es[i].func.unwrap()).len() <= u32::MAX
}

/// The names of an index space are listed by strictly increasing index,
/// each below the number of items of that kind, as the name section
/// requires.
pub proof fn lemma_kind_names_sorted(es: Seq<NameEntry>, k: Name)
    requires
        kind_count(es, k) <= u32::MAX,
    ensures
        forall|i: int|
            0 <= i < kind_names(es, k).len() ==> (#[trigger] kind_names(es, k)[i]).0 < kind_count(
                es,
                k,
            ),
        forall|i: int, j: int|
            0 <= i < j < kind_names(es, k).len() ==> (#[trigger] kind_names(es, k)[i]).0 < (
            #[trigger] kind_names(es, k)[j]).0,
    decreases es.len(),
{
    if es.len() > 0 {
        let pre = es.drop_last();
        lemma_kind_names_sorted(pre, k);
        let prev = kind_names(pre, k);
        let n = kind_count(pre, k);
        if es.last().kind == k && es.last().name is Some {
            let cur = kind_names(es, k);
            assert(cur == prev.push((n as u32, es.last().name.unwrap())));
            assert(kind_count(es, k) == n + 1);
            assert forall|i: int| 0 <= i < cur.len() implies (#[trigger] cur[i]).0 < kind_count(
                es,
                k,
            ) by {
                if i < prev.len() {
                    assert(cur[i] == prev[i]);
                }
            }
            assert forall|i: int, j: int| 0 <= i < j < cur.len() implies (#[trigger] cur[i]).0 < (
            #[trigger] cur[j]).0 by {
                assert(cur[i] == prev[i]);
                if j < prev.len() {
                    assert(cur[j] == prev[j]);
                }
            }
        }
    }
}

/// Each item lands in the index space of its kind: a defined or imported
/// function in the function space, a table, memory, global or tag
/// (defined or imported) in its own space, each type of a type definition
/// or recursion group in the type space, element and data segments in
/// theirs; exports, start functions and custom sections name nothing.
pub proof fn lemma_field_index_spaces(f: ModuleField)
    ensures
        f matches ModuleField::Import(i) ==> field_entries(f).len() == 1 && {
            let k = field_entries(f)[0].kind;
            &&& i.item.kind is Func ==> k == Name::Func
            &&& i.item.kind is Table ==> k == Name::Table
            &&& i.item.kind is Memory ==> k == Name::Memory
            &&& i.item.kind is Global ==> k == Name::Global
            &&& i.item.kind is Tag ==> k == Name::Tag
        },
        f is Func ==> field_entries(f).len() == 1 && field_entries(f)[0].kind == Name::Func,
        f is Table ==> field_entries(f).len() == 1 && field_entries(f)[0].kind == Name::Table,
        f is Memory ==> field_entries(f).len() == 1 && field_entries(f)[0].kind == Name::Memory,
        f is Global ==> field_entries(f).len() == 1 && field_entries(f)[0].kind == Name::Global,
        f is Tag ==> field_entries(f).len() == 1 && field_entries(f)[0].kind == Name::Tag,
        f is Type ==> field_entries(f).len() == 1 && field_entries(f)[0].kind == Name::Type,
        f is Elem ==> field_entries(f).len() == 1 && field_entries(f)[0].kind == Name::Elem,
        f is Data ==> field_entries(f).len() == 1 && field_entries(f)[0].kind == Name::Data,
        f matches ModuleField::Rec(r) ==> field_entries(f).len() == r.types@.len() && forall|j: int|
            0 <= j < r.types@.len() ==> (#[trigger] field_entries(f)[j]).kind == Name::Type,
        f is Export || f is Start || f is Custom ==> field_entries(f).len() == 0,
{
}

/// The number of items of a kind is the number of entries of that kind.
pub proof fn lemma_kind_count_counts(es: Seq<NameEntry>, k: Name)
    ensures
        kind_count(es, k) == es.filter(|e: NameEntry| e.kind == k).len(),
    decreases es.len(),
{
    reveal(Seq::filter);
    if es.len() > 0 {
        lemma_kind_count_counts(es.drop_last(), k);
    }
}

/// Every named entry of a kind appears among the names of that index
/// space, with its index: the number of entries of that kind before it.
pub proof fn lemma_named_entries_are_listed(es: Seq<NameEntry>, k: Name)
    ensures
        forall|j: int|
            0 <= j < es.len() && (#[trigger] es[j]).kind == k && es[j].name is Some ==> exists|i: int|
                0 <= i < kind_names(es, k).len() && kind_names(es, k)[i] == (
                    es.take(j).filter(|e: NameEntry| e.kind == k).len() as u32,
                    es[j].name.unwrap(),
                ),
    decreases es.len(),
{
    if es.len() > 0 {
        let pre = es.drop_last();
        let n = pre.len() as int;
        let p = |e: NameEntry| e.kind == k;
        lemma_kind_count_counts(pre, k);
        lemma_named_entries_are_listed(pre, k);
        let prev = kind_names(pre, k);
        let cur = kind_names(es, k);
        assert(es.take(n) == pre);
        if es[n].kind == k && es[n].name is Some {
            assert(cur == prev.push((kind_count(pre, k) as u32, es[n].name.unwrap())));
        } else {
            assert(cur == prev);
        }
        assert forall|j: int|
            0 <= j < es.len() && (#[trigger] es[j]).kind == k && es[j].name is Some implies exists|i: int|
                0 <= i < cur.len() && cur[i] == (es.take(j).filter(p).len() as u32, es[j].name.unwrap()) by {
            if j < n {
                assert(es[j] == pre[j]);
                assert(es.take(j) == pre.take(j));
                let i = choose|i: int|
                    0 <= i < prev.len() && prev[i] == (pre.take(j).filter(p).len() as u32, pre[j].name.unwrap());
                assert(cur[i] == prev[i]);
            } else {
                assert(cur[prev.len() as int] == (es.take(j).filter(p).len() as u32, es[j].name.unwrap()));
            }
        }
    }
}

/// Every name listed for an index space belongs to a named entry of that
/// kind, and its index is the number of entries of that kind before it.
pub proof fn lemma_listed_names_are_entries(es: Seq<NameEntry>, k: Name)
    ensures
        forall|i: int|
            0 <= i < kind_names(es, k).len() ==> exists|j: int|
                0 <= j < es.len() && es[j].kind == k && es[j].name is Some && #[trigger] kind_names(
                    es,
                    k,
                )[i] == (
                    es.take(j).filter(|e: NameEntry| e.kind == k).len() as u32,
                    es[j].name.unwrap(),
                ),
    decreases es.len(),
{
    if es.len() > 0 {
        let pre = es.drop_last();
        let n = pre.len() as int;
        let p = |e: NameEntry| e.kind == k;
        lemma_kind_count_counts(pre, k);
        lemma_listed_names_are_entries(pre, k);
        let prev = kind_names(pre, k);
        let cur = kind_names(es, k);
        assert(es.take(n) == pre);
        if es[n].kind == k && es[n].name is Some {
            assert(cur == prev.push((kind_count(pre, k) as u32, es[n].name.unwrap())));
        } else {
            assert(cur == prev);
        }
        assert forall|i: int| 0 <= i < cur.len() implies exists|j: int|
            0 <= j < es.len() && es[j].kind == k && es[j].name is Some && #[trigger] cur[i] == (
                es.take(j).filter(p).len() as u32,
                es[j].name.unwrap(),
            ) by {
            if i < prev.len() {
                assert(cur[i] == prev[i]);
                let j = choose|j: int|
                    0 <= j < pre.len() && pre[j].kind == k && pre[j].name is Some && #[trigger] prev[i] == (
                        pre.take(j).filter(p).len() as u32,
                        pre[j].name.unwrap(),
                    );
                assert(es[j] == pre[j]);
                assert(es.take(j) == pre.take(j));
            } else {
                assert(es[n].kind == k && es[n].name is Some);
                assert(cur[i] == (es.take(n).filter(p).len() as u32, es[n].name.unwrap()));
            }
        }
    }
}

/// The named slots are listed with their positions: every slot with a name
/// appears as its position and that name, and every listed pair is such a
/// slot.
pub proof fn lemma_indexed_names_are_named_slots(slots: Seq<(Option<Id>, Option<NameAnnotation>)>)
    ensures
        forall|j: int|
            0 <= j < slots.len() && (#[trigger] spec_get_name(slots[j].0, slots[j].1)) is Some
                ==> exists|i: int|
                0 <= i < indexed_names(slots).len() && indexed_names(slots)[i] == (
                    j as u32,
                    spec_get_name(slots[j].0, slots[j].1).unwrap(),
                ),
        forall|i: int|
            0 <= i < indexed_names(slots).len() ==> exists|j: int|
                0 <= j < slots.len() && spec_get_name(slots[j].0, slots[j].1) is Some
                    && #[trigger] indexed_names(slots)[i] == (
                    j as u32,
                    spec_get_name(slots[j].0, slots[j].1).unwrap(),
                ),
    decreases slots.len(),
{
    if slots.len() > 0 {
        let pre = slots.drop_last();
        let n = pre.len() as int;
        lemma_indexed_names_are_named_slots(pre);
        let prev = indexed_names(pre);
        let cur = indexed_names(slots);
        match spec_get_name(slots[n].0, slots[n].1) {
            Some(x) => {
                assert(cur == prev.push((n as u32, x)));
            },
            None => {
                assert(cur == prev);
            },
        }
        assert forall|j: int|
            0 <= j < slots.len() && (#[trigger] spec_get_name(slots[j].0, slots[j].1)) is Some
                implies exists|i: int|
                0 <= i < cur.len() && cur[i] == (j as u32, spec_get_name(slots[j].0, slots[j].1).unwrap()) by {
            if j < n {
                assert(slots[j] == pre[j]);
                assert(spec_get_name(pre[j].0, pre[j].1) is Some);
                let i = choose|i: int|
                    0 <= i < prev.len() && prev[i] == (j as u32, spec_get_name(pre[j].0, pre[j].1).unwrap());
                assert(cur[i] == prev[i]);
            } else {
                assert(cur[prev.len() as int] == (j as u32, spec_get_name(slots[j].0, slots[j].1).unwrap()));
            }
        }
        assert forall|i: int| 0 <= i < cur.len() implies exists|j: int|
            0 <= j < slots.len() && spec_get_name(slots[j].0, slots[j].1) is Some && #[trigger] cur[i]
                == (j as u32, spec_get_name(slots[j].0, slots[j].1).unwrap()) by {
            if i < prev.len() {
                assert(cur[i] == prev[i]);
                let j = choose|j: int|
                    0 <= j < pre.len() && spec_get_name(pre[j].0, pre[j].1) is Some && #[trigger] prev[i]
                        == (j as u32, spec_get_name(pre[j].0, pre[j].1).unwrap());
                assert(slots[j] == pre[j]);
            } else {
                assert(spec_get_name(slots[n].0, slots[n].1) is Some);
            }
        }
    }
}

/// The local slots of a function are its inline type's parameters, then
/// its locals, one slot each and in order; a function that is not defined
/// inline has only its parameters.
pub proof fn lemma_local_slots_are_params_then_locals(f: Func)
    ensures
        ({
            let np = match f.ty.inline {
                Some(ty) => ty.params@.len() as int,
                None => 0,
            };
            let nl = match f.kind {
                FuncKind::Inline { locals, .. } => locals@.len() as int,
                _ => 0,
            };
            &&& local_slots(f).len() == np + nl
            &&& forall|j: int|
                0 <= j < np ==> #[trigger] local_slots(f)[j] == (
                    f.ty.inline.unwrap().params@[j].0,
                    f.ty.inline.unwrap().params@[j].1,
                )
            &&& forall|j: int|
                np <= j < np + nl ==> #[trigger] local_slots(f)[j] == (
                    f.kind->Inline_locals@[j - np].id,
                    f.kind->Inline_locals@[j - np].name,
                )
        }),
{
}

/// The names of a function's slots are listed by strictly increasing
/// position, each below the number of slots.
pub proof fn lemma_indexed_names_sorted(slots: Seq<(Option<Id>, Option<NameAnnotation>)>)
    requires
        slots.len() <= u32::MAX,
    ensures
        forall|i: int|
            0 <= i < indexed_names(slots).len() ==> (#[trigger] indexed_names(slots)[i]).0
                < slots.len(),
        forall|i: int, j: int|
            0 <= i < j < indexed_names(slots).len() ==> (#[trigger] indexed_names(slots)[i]).0 < (
            #[trigger] indexed_names(slots)[j]).0,
    decreases slots.len(),
{
    if slots.len() > 0 {
        let pre = slots.drop_last();
        lemma_indexed_names_sorted(pre);
        let prev = indexed_names(pre);
        let cur = indexed_names(slots);
        match spec_get_name(slots.last().0, slots.last().1) {
            Some(m) => {
                assert(cur == prev.push(((slots.len() - 1) as u32, m)));
                assert forall|i: int| 0 <= i < cur.len() implies (#[trigger] cur[i]).0
                    < slots.len() by {
                    if i < prev.len() {
                        assert(cur[i] == prev[i]);
                    }
                }
                assert forall|i: int, j: int| 0 <= i < j < cur.len() implies (#[trigger] cur[i]).0 < (
                #[trigger] cur[j]).0 by {
                    assert(cur[i] == prev[i]);
                    if j < prev.len() {
                        assert(cur[j] == prev[j]);
                    }
                }
            },
            None => {},
        }
    }
}

/// Borrowed names with their indices, by value.
pub open spec fn pairs_view<'a>(s: Seq<(u32, &'a str)>) -> Seq<(u32, Seq<char>)> {
    s.map_values(|p: (u32, &'a str)| (p.0, p.1@))
}

/// Per-function name lists, by value.
pub open spec fn nested_view<'a>(s: Seq<(u32, Vec<(u32, &'a str)>)>) -> Seq<
    (u32, Seq<(u32, Seq<char>)>),
> {
    s.map_values(|p: (u32, Vec<(u32, &'a str)>)| (p.0, pairs_view(p.1@)))
}

proof fn lemma_indexed_names_push(slots: Seq<(Option<Id>, Option<NameAnnotation>)>, n: int)
    requires
        0 <= n < slots.len(),
    ensures
        indexed_names(slots.take(n + 1)) == match spec_get_name(slots[n].0, slots[n].1) {
            Some(m) => indexed_names(slots.take(n)).push((n as u32, m)),
            None => indexed_names(slots.take(n)),
        },
{
    assert(slots.take(n + 1).drop_last() == slots.take(n));
}

proof fn lemma_pairs_view_push<'a>(s: Seq<(u32, &'a str)>, p: (u32, &'a str))
    ensures
        pairs_view(s.push(p)) == pairs_view(s).push((p.0, p.1@)),
{
    assert(pairs_view(s.push(p)) =~= pairs_view(s).push((p.0, p.1@)));
}

/// The names of the parameters and locals of a function, each with its
/// local index.
fn func_local_names<'a>(f: &'a Func) -> (r: Vec<(u32, &'a str)>)
    requires
        local_slots(*f).len() <= u32::MAX,
    ensures
        pairs_view(r@) == indexed_names(local_slots(*f)),
{
    let ghost slots = local_slots(*f);
    let mut local_names: Vec<(u32, &'a str)> = Vec::new();
    let mut local_idx: u32 = 0;
    // Consult the inline type listed for local names of parameters.
    if let Some(ty) = &f.ty.inline {
        let mut i: usize = 0;
        while i < ty.params.len()
            invariant
                i <= ty.params@.len(),
                slots == local_slots(*f),
                f.ty.inline == Some(*ty),
                slots.len() <= u32::MAX,
                local_idx == i,
                pairs_view(local_names@) == indexed_names(slots.take(i as int)),
            decreases ty.params@.len() - i,
        {
            let param = &ty.params[i];
            proof {
                lemma_indexed_names_push(slots, i as int);
                assert(slots[i as int] == (param.0, param.1));
            }
            if let Some(name) = get_name(&param.0, &param.1) {
                proof {
                    lemma_pairs_view_push(local_names@, (local_idx, name));
                }
                local_names.push((local_idx, name));
            }
            local_idx += 1;
            i = i + 1;
        }
    }
    let ghost nparams = local_idx as int;
    assert(nparams == match f.ty.inline {
        Some(ty) => ty.params@.len() as int,
        None => 0int,
    });
    if let FuncKind::Inline { locals, .. } = &f.kind {
        let mut j: usize = 0;
        while j < locals.len()
            invariant
                j <= locals@.len(),
                slots == local_slots(*f),
                f.kind matches FuncKind::Inline { locals: l, .. } && l == *locals,
                slots.len() <= u32::MAX,
                nparams + locals@.len() == slots.len(),
                local_idx == nparams + j,
                pairs_view(local_names@) == indexed_names(slots.take(local_idx as int)),
            decreases locals@.len() - j,
        {
            let local = &locals[j];
            proof {
                lemma_indexed_names_push(slots, local_idx as int);
                assert(slots[local_idx as int] == (local.id, local.name));
            }
            if let Some(name) = get_name(&local.id, &local.name) {
                proof {
                    lemma_pairs_view_push(local_names@, (local_idx, name));
                }
                local_names.push((local_idx, name));
            }
            local_idx += 1;
            j = j + 1;
        }
    }
    assert(slots.take(local_idx as int) == slots);
    local_names
}

/// The label slots of a body are the labels of its `if`, `block`, `loop`,
/// `try` and `try_table` instructions, one each and in order: such an
/// instruction at position `k` owns the slot numbered by how many of these
/// instructions come before it; no other instruction has a slot.
pub proof fn lemma_block_labels_are_block_instrs(instrs: Seq<Instruction>)
    ensures
        block_labels(instrs).len() == instrs.filter(|i: Instruction| i is If || i is Block || i is Loop || i is Try || i is TryTable).len(),
        forall|k: int|
            0 <= k < instrs.len() ==> match #[trigger] instrs[k] {
                Instruction::If(b) => block_labels(instrs)[instrs.take(k).filter(|i: Instruction| i is If || i is Block || i is Loop || i is Try || i is TryTable).len() as int]
                    == (b.label, b.label_name),
                Instruction::Block(b) => block_labels(instrs)[instrs.take(k).filter(|i: Instruction| i is If || i is Block || i is Loop || i is Try || i is TryTable).len() as int]
                    == (b.label, b.label_name),
                Instruction::Loop(b) => block_labels(instrs)[instrs.take(k).filter(|i: Instruction| i is If || i is Block || i is Loop || i is Try || i is TryTable).len() as int]
                    == (b.label, b.label_name),
                Instruction::Try(b) => block_labels(instrs)[instrs.take(k).filter(|i: Instruction| i is If || i is Block || i is Loop || i is Try || i is TryTable).len() as int]
                    == (b.label, b.label_name),
                Instruction::TryTable(t) => block_labels(instrs)[instrs.take(k).filter(|i: Instruction| i is If || i is Block || i is Loop || i is Try || i is TryTable).len() as int]
                    == (t.block.label, t.block.label_name),
                _ => true,
            },
    decreases instrs.len(),
{
    reveal(Seq::filter);
    if instrs.len() > 0 {
        let pre = instrs.drop_last();
        let n = pre.len() as int;
        lemma_block_labels_are_block_instrs(pre);
        let p = |i: Instruction| i is If || i is Block || i is Loop || i is Try || i is TryTable;
        assert forall|k: int| 0 <= k < instrs.len() && #[trigger] p(instrs[k]) implies
            instrs.take(k).filter(p).len() < block_labels(instrs).len()
            && block_labels(instrs)[instrs.take(k).filter(p).len() as int] == (
                instrs[k].block_type().unwrap().label,
                instrs[k].block_type().unwrap().label_name,
            ) by {
            if k < n {
                assert(instrs.take(k) == pre.take(k));
                assert(instrs[k] == pre[k]);
                assert(pre.take(k + 1) == pre.take(k).push(pre[k]));
                pre.take(k).lemma_filter_len_push(p, pre[k]);
                pre.lemma_filter_take_len(p, k + 1);
            } else {
                assert(instrs.take(k) == pre);
            }
        }
        assert forall|k: int| 0 <= k < instrs.len() implies match #[trigger] instrs[k] {
            Instruction::If(b) => block_labels(instrs)[instrs.take(k).filter(p).len() as int]
                == (b.label, b.label_name),
            Instruction::Block(b) => block_labels(instrs)[instrs.take(k).filter(p).len() as int]
                == (b.label, b.label_name),
            Instruction::Loop(b) => block_labels(instrs)[instrs.take(k).filter(p).len() as int]
                == (b.label, b.label_name),
            Instruction::Try(b) => block_labels(instrs)[instrs.take(k).filter(p).len() as int]
                == (b.label, b.label_name),
            Instruction::TryTable(t) => block_labels(instrs)[instrs.take(k).filter(p).len() as int]
                == (t.block.label, t.block.label_name),
            _ => true,
        } by {
            if p(instrs[k]) {
            }
        }
    }
}

proof fn lemma_block_labels_prefix_len(instrs: Seq<Instruction>, i: int)
    requires
        0 <= i <= instrs.len(),
    ensures
        block_labels(instrs.take(i)).len() <= block_labels(instrs).len(),
    decreases instrs.len() - i,
{
    if i < instrs.len() {
        lemma_block_labels_prefix_len(instrs, i + 1);
        assert(instrs.take(i + 1).drop_last() == instrs.take(i));
    } else {
        assert(instrs.take(i) == instrs);
    }
}

/// The names of the blocks of a function, each with its label index.
fn func_label_names<'a>(f: &'a Func) -> (r: Vec<(u32, &'a str)>)
    requires
        label_slots(*f).len() <= u32::MAX,
    ensures
        pairs_view(r@) == indexed_names(label_slots(*f)),
{
    let mut label_names: Vec<(u32, &'a str)> = Vec::new();
    let mut label_idx: u32 = 0;
    if let FuncKind::Inline { expression, .. } = &f.kind {
        let ghost instrs = expression.instrs@;
        let mut i: usize = 0;
        while i < expression.instrs.len()
            invariant
                i <= instrs.len(),
                instrs == expression.instrs@,
                block_labels(instrs).len() <= u32::MAX,
                label_idx == block_labels(instrs.take(i as int)).len(),
                pairs_view(label_names@) == indexed_names(block_labels(instrs.take(i as int))),
            decreases instrs.len() - i,
        {
            proof {
                assert(instrs.take(i + 1).drop_last() == instrs.take(i as int));
                lemma_block_labels_prefix_len(instrs, i + 1);
            }
            match &expression.instrs[i] {
                Instruction::If(block) | Instruction::Block(block) | Instruction::Loop(block)
                | Instruction::Try(block) | Instruction::TryTable(TryTable { block, .. }) => {
                    let ghost bl = block_labels(instrs.take(i + 1));
                    proof {
                        assert(bl == block_labels(instrs.take(i as int)).push(
                            (block.label, block.label_name),
                        ));
                        lemma_indexed_names_push(bl, label_idx as int);
                        assert(bl.take(label_idx as int) == block_labels(instrs.take(i as int)));
                        assert(bl.take(label_idx + 1) == bl);
                    }
                    if let Some(name) = get_name(&block.label, &block.label_name) {
                        proof {
                            lemma_pairs_view_push(label_names@, (label_idx, name));
                        }
                        label_names.push((label_idx, name));
                    }
                    label_idx += 1;
                },
                _ => {
                    assert(block_labels(instrs.take(i + 1)) == block_labels(instrs.take(i as int)));
                },
            }
            i = i + 1;
        }
        assert(instrs.take(i as int) == instrs);
    }
    label_names
}

/// The names that the name section lists, and the next index of each
/// index space.
pub struct Names<'a> {
    pub module: Option<&'a str>,
    pub funcs: Vec<(u32, &'a str)>,
    pub func_idx: u32,
    pub locals: Vec<(u32, Vec<(u32, &'a str)>)>,
    pub labels: Vec<(u32, Vec<(u32, &'a str)>)>,
    pub globals: Vec<(u32, &'a str)>,
    pub global_idx: u32,
    pub memories: Vec<(u32, &'a str)>,
    pub memory_idx: u32,
    pub tables: Vec<(u32, &'a str)>,
    pub table_idx: u32,
    pub tags: Vec<(u32, &'a str)>,
    pub tag_idx: u32,
    pub types: Vec<(u32, &'a str)>,
    pub type_idx: u32,
    pub data: Vec<(u32, &'a str)>,
    pub data_idx: u32,
    pub elems: Vec<(u32, &'a str)>,
    pub elem_idx: u32,
}

impl<'a> Names<'a> {
    /// The names of the index space of `k`, by value.
    pub open spec fn list(&self, k: Name) -> Seq<(u32, Seq<char>)> {
        match k {
            Name::Func => pairs_view(self.funcs@),
            Name::Global => pairs_view(self.globals@),
            Name::Memory => pairs_view(self.memories@),
            Name::Table => pairs_view(self.tables@),
            Name::Tag => pairs_view(self.tags@),
            Name::Type => pairs_view(self.types@),
            Name::Data => pairs_view(self.data@),
            Name::Elem => pairs_view(self.elems@),
        }
    }

    /// The next index of the index space of `k`.
    pub open spec fn counter(&self, k: Name) -> u32 {
        match k {
            Name::Func => self.func_idx,
            Name::Global => self.global_idx,
            Name::Memory => self.memory_idx,
            Name::Table => self.table_idx,
            Name::Tag => self.tag_idx,
            Name::Type => self.type_idx,
            Name::Data => self.data_idx,
            Name::Elem => self.elem_idx,
        }
    }

    /// The next index of the index space of `kind`.
    fn index_of(&self, kind: Name) -> (r: u32)
        ensures
            r == self.counter(kind),
    {
        match kind {
            Name::Func => self.func_idx,
            Name::Global => self.global_idx,
            Name::Memory => self.memory_idx,
            Name::Table => self.table_idx,
            Name::Tag => self.tag_idx,
            Name::Type => self.type_idx,
            Name::Data => self.data_idx,
            Name::Elem => self.elem_idx,
        }
    }

    /// Records `name`, if there is one, at `idx` in the index space of `kind`.
    fn push_name(&mut self, kind: Name, idx: u32, name: Option<&'a str>)
        ensures
            forall|k: Name|
                #[trigger] final(self).list(k) == (if k == kind && name is Some {
                    old(self).list(k).push((idx, name.unwrap()@))
                } else {
                    old(self).list(k)
                }),
            forall|k: Name| #[trigger] final(self).counter(k) == old(self).counter(k),
            final(self).module == old(self).module,
            final(self).locals@ == old(self).locals@,
            final(self).labels@ == old(self).labels@,
    {
        if let Some(name) = name {
            let ghost olds = *self;
            let entry = (idx, name);
            match kind {
                Name::Func => self.funcs.push(entry),
                Name::Global => self.globals.push(entry),
                Name::Memory => self.memories.push(entry),
                Name::Table => self.tables.push(entry),
                Name::Tag => self.tags.push(entry),
                Name::Type => self.types.push(entry),
                Name::Data => self.data.push(entry),
                Name::Elem => self.elems.push(entry),
            }
            proof {
                assert forall|k: Name| #[trigger] self.list(k) == (if k == kind {
                    olds.list(k).push((idx, name@))
                } else {
                    olds.list(k)
                }) by {
                    if k == kind {
                        match k {
                            Name::Func => lemma_pairs_view_push(olds.funcs@, entry),
                            Name::Global => lemma_pairs_view_push(olds.globals@, entry),
                            Name::Memory => lemma_pairs_view_push(olds.memories@, entry),
                            Name::Table => lemma_pairs_view_push(olds.tables@, entry),
                            Name::Tag => lemma_pairs_view_push(olds.tags@, entry),
                            Name::Type => lemma_pairs_view_push(olds.types@, entry),
                            Name::Data => lemma_pairs_view_push(olds.data@, entry),
                            Name::Elem => lemma_pairs_view_push(olds.elems@, entry),
                        }
                    }
                }
            }
        }
    }

    /// Moves to the next index of the index space of `kind`.
    fn bump(&mut self, kind: Name)
        requires
            old(self).counter(kind) < u32::MAX,
        ensures
            forall|k: Name|
                #[trigger] final(self).counter(k) == if k == kind {
                    (old(self).counter(k) + 1) as u32
                } else {
                    old(self).counter(k)
                },
            forall|k: Name| #[trigger] final(self).list(k) == old(self).list(k),
            final(self).module == old(self).module,
            final(self).locals@ == old(self).locals@,
            final(self).labels@ == old(self).labels@,
    {
        match kind {
            Name::Func => self.func_idx += 1,
            Name::Global => self.global_idx += 1,
            Name::Memory => self.memory_idx += 1,
            Name::Table => self.table_idx += 1,
            Name::Tag => self.tag_idx += 1,
            Name::Type => self.type_idx += 1,
            Name::Data => self.data_idx += 1,
            Name::Elem => self.elem_idx += 1,
        }
    }
}

/// A collected entry, by value.
pub open spec fn entry_view<'a>(
    e: (Name, &'a Option<Id>, &'a Option<NameAnnotation>, &'a ModuleField),
) -> NameEntry {
    NameEntry {
        kind: e.0,
        name: spec_get_name(*e.1, *e.2),
        func: match *e.3 {
            ModuleField::Func(f) => Some(f),
            _ => None,
        },
    }
}

/// Collected entries, by value.
pub open spec fn entries_view<'a>(
    s: Seq<(Name, &'a Option<Id>, &'a Option<NameAnnotation>, &'a ModuleField)>,
) -> Seq<NameEntry> {
    s.map_values(
        |e: (Name, &'a Option<Id>, &'a Option<NameAnnotation>, &'a ModuleField)| entry_view(e),
    )
}

proof fn lemma_entries_view_push<'a>(
    s: Seq<(Name, &'a Option<Id>, &'a Option<NameAnnotation>, &'a ModuleField)>,
    e: (Name, &'a Option<Id>, &'a Option<NameAnnotation>, &'a ModuleField),
)
    ensures
        entries_view(s.push(e)) == entries_view(s).push(entry_view(e)),
{
    assert(entries_view(s.push(e)) =~= entries_view(s).push(entry_view(e)));
}

proof fn lemma_kind_count_prefix(es: Seq<NameEntry>, i: int, k: Name)
    requires
        0 <= i <= es.len(),
    ensures
        kind_count(es.take(i), k) <= kind_count(es, k),
    decreases es.len() - i,
{
    if i < es.len() {
        lemma_kind_count_prefix(es, i + 1, k);
        assert(es.take(i + 1).drop_last() == es.take(i));
    } else {
        assert(es.take(i) == es);
    }
}

proof fn lemma_nested_view_push<'a>(
    s: Seq<(u32, Vec<(u32, &'a str)>)>,
    p: (u32, Vec<(u32, &'a str)>),
)
    ensures
        nested_view(s.push(p)) == nested_view(s).push((p.0, pairs_view(p.1@))),
{
    assert(nested_view(s.push(p)) =~= nested_view(s).push((p.0, pairs_view(p.1@))));
}

/// Collects the names of the module, of its items, of the parameters and
/// locals of its functions, and of their blocks. Each item is numbered in
/// its index space, imports first in field order.
pub fn find_names<'a>(
    module_id: &'a Option<Id>,
    module_name: &'a Option<NameAnnotation>,
    fields: &'a [ModuleField],
) -> (ret: Names<'a>)
    requires
        names_collectable(fields@),
    ensures
        opt_str_view(ret.module) == spec_get_name(*module_id, *module_name),
        forall|k: Name| #[trigger] ret.list(k) == kind_names(name_entries(fields@), k),
        forall|k: Name| #[trigger] ret.counter(k) == kind_count(name_entries(fields@), k),
        nested_view(ret.locals@) == local_names(name_entries(fields@)),
        nested_view(ret.labels@) == label_names(name_entries(fields@)),
{
    let mut ret = Names {
        module: None,
        funcs: Vec::new(),
        func_idx: 0,
        locals: Vec::new(),
        labels: Vec::new(),
        globals: Vec::new(),
        global_idx: 0,
        memories: Vec::new(),
        memory_idx: 0,
        tables: Vec::new(),
        table_idx: 0,
        tags: Vec::new(),
        tag_idx: 0,
        types: Vec::new(),
        type_idx: 0,
        data: Vec::new(),
        data_idx: 0,
        elems: Vec::new(),
        elem_idx: 0,
    };
    ret.module = get_name(module_id, module_name);
    let mut names: Vec<(Name, &'a Option<Id>, &'a Option<NameAnnotation>, &'a ModuleField)> =
        Vec::new();
    let mut i: usize = 0;
    while i < fields.len()
        invariant
            i <= fields@.len(),
            entries_view(names@) == name_entries(fields@.take(i as int)),
            forall|j: int|
                0 <= j < names@.len() ==> ((*(#[trigger] names@[j]).3) is Func ==> names@[j].0
                    == Name::Func),
        decreases fields@.len() - i,
    {
        let field = &fields[i];
        let ghost before = names@;
        proof {
            assert(fields@.take(i + 1).drop_last() == fields@.take(i as int));
            assert(fields@.take(i + 1).last() == *field);
        }
        // Extract the kind/id/name from whatever kind of field this is...
        match field {
            ModuleField::Rec(r) => {
                let mut j: usize = 0;
                while j < r.types.len()
                    invariant
                        j <= r.types@.len(),
                        *field == ModuleField::Rec(*r),
                        entries_view(names@) == entries_view(before) + rec_entries(
                            r.types@.take(j as int),
                        ),
                        forall|k: int|
                            0 <= k < names@.len() ==> ((*(#[trigger] names@[k]).3) is Func
                                ==> names@[k].0 == Name::Func),
                    decreases r.types@.len() - j,
                {
                    let ty = &r.types[j];
                    let entry = (Name::Type, &ty.id, &ty.name, field);
                    proof {
                        lemma_entries_view_push(names@, entry);
                        assert(rec_entries(r.types@.take(j + 1)) == rec_entries(
                            r.types@.take(j as int),
                        ).push(entry_view(entry)));
                    }
                    names.push(entry);
                    j = j + 1;
                }
                assert(r.types@.take(j as int) == r.types@);
            },
            ModuleField::Export(_) | ModuleField::Start(_) | ModuleField::Custom(_) => {},
            _ => {
                let (kind, id, name) = match field {
                    ModuleField::Import(i) => (
                        match i.item.kind {
                            ItemKind::Func(_) => Name::Func,
                            ItemKind::Table(_) => Name::Table,
                            ItemKind::Memory(_) => Name::Memory,
                            ItemKind::Global(_) => Name::Global,
                            ItemKind::Tag(_) => Name::Tag,
                        },
                        &i.item.id,
                        &i.item.name,
                    ),
                    ModuleField::Global(g) => (Name::Global, &g.id, &g.name),
                    ModuleField::Table(t) => (Name::Table, &t.id, &t.name),
                    ModuleField::Memory(m) => (Name::Memory, &m.id, &m.name),
                    ModuleField::Tag(t) => (Name::Tag, &t.id, &t.name),
                    ModuleField::Type(t) => (Name::Type, &t.id, &t.name),
                    ModuleField::Elem(e) => (Name::Elem, &e.id, &e.name),
                    ModuleField::Data(d) => (Name::Data, &d.id, &d.name),
                    ModuleField::Func(f) => (Name::Func, &f.id, &f.name),
                    ModuleField::Rec(_) | ModuleField::Export(_) | ModuleField::Start(_)
                    | ModuleField::Custom(_) => (Name::Type, &None, &None),
                };
                let entry = (kind, id, name, field);
                proof {
                    lemma_entries_view_push(names@, entry);
                    assert(field_entries(*field) == seq![entry_view(entry)]);
                }
                names.push(entry);
            },
        }
        i = i + 1;
    }
    assert(fields@.take(i as int) == fields@);
    let ghost es = entries_view(names@);
    let mut n: usize = 0;
    while n < names.len()
        invariant
            n <= names@.len(),
            es == entries_view(names@),
            es == name_entries(fields@),
            names_collectable(fields@),
            forall|j: int|
                0 <= j < names@.len() ==> ((*(#[trigger] names@[j]).3) is Func ==> names@[j].0
                    == Name::Func),
            opt_str_view(ret.module) == spec_get_name(*module_id, *module_name),
            forall|k: Name| #[trigger] ret.list(k) == kind_names(es.take(n as int), k),
            forall|k: Name| #[trigger] ret.counter(k) == kind_count(es.take(n as int), k),
            nested_view(ret.locals@) == local_names(es.take(n as int)),
            nested_view(ret.labels@) == label_names(es.take(n as int)),
        decreases names@.len() - n,
    {
        let (kind, id, name, field) = names[n];
        let ghost pre = es.take(n as int);
        let ghost cur = es.take(n + 1);
        proof {
            assert(cur.drop_last() == pre);
            assert(cur.last() == es[n as int]);
            assert(es[n as int] == entry_view(names@[n as int]));
            lemma_kind_count_prefix(es, n + 1, kind);
            assert(kind_count(es, kind) <= u32::MAX);
            assert(kind_count(cur, kind) == kind_count(pre, kind) + 1);
        }
        // .. and using the kind we can figure out where to place this name
        let ghost r0 = ret;
        let idx = ret.index_of(kind);
        let nm = get_name(id, name);
        ret.push_name(kind, idx, nm);
        let ghost r1 = ret;
        assert(r1.counter(kind) == r0.counter(kind));
        // Handle module locals separately from above
        if let ModuleField::Func(f) = field {
            proof {
                assert(es[n as int].func == Some(*f));
                assert(local_slots(*f).len() <= u32::MAX);
            }
            let local_names = func_local_names(f);
            let label_names = func_label_names(f);
            if local_names.len() > 0 {
                proof {
                    lemma_nested_view_push(ret.locals@, (idx, local_names));
                }
                ret.locals.push((idx, local_names));
            }
            if label_names.len() > 0 {
                proof {
                    lemma_nested_view_push(ret.labels@, (idx, label_names));
                }
                ret.labels.push((idx, label_names));
            }
        }
        assert(ret.counter(kind) == r1.counter(kind));
        assert(ret.counter(kind) == kind_count(pre, kind));
        assert(kind_count(pre, kind) < u32::MAX);
        let ghost r2 = ret;
        ret.bump(kind);
        proof {
            assert forall|k: Name| #[trigger] ret.list(k) == kind_names(cur, k) by {
                assert(cur.drop_last() == pre);
                assert(r0.list(k) == kind_names(pre, k));
                assert(r2.list(k) == r1.list(k));
                assert(ret.list(k) == r2.list(k));
                assert(opt_str_view(nm) == cur.last().name);
                assert(cur.last().kind == kind);
            }
            assert forall|k: Name| #[trigger] ret.counter(k) == kind_count(cur, k) by {
                assert(cur.drop_last() == pre);
                assert(r0.counter(k) == kind_count(pre, k));
                assert(r1.counter(k) == r0.counter(k));
                assert(r2.counter(k) == r1.counter(k));
                assert(cur.last().kind == kind);
            }
        }
        n = n + 1;
    }
    assert(es.take(n as int) == es);
    ret
}

/// A subsection of the name section: its id, then its contents as a byte
/// list.
pub open spec fn subsection(id: u8, content: Seq<u8>) -> Seq<u8> {
    seq![id] + bytes_encoding(content)
}

/// A subsection that is present only when `present` holds.
pub open spec fn optional_subsection(present: bool, id: u8, content: Seq<u8>) -> Seq<u8> {
    if present {
        subsection(id, content)
    } else {
        seq![]
    }
}

/// The subsection `id` of a name list, present when the list is not empty.
#[verifier::opaque]
pub open spec fn list_subsection<T: Encode>(v: Vec<T>, id: u8) -> Seq<u8> {
    optional_subsection(v@.len() > 0, id, v.encoding())
}

/// A name list that, when present, fits in a subsection.
pub open spec fn names_list_fits<T: Encode>(v: Vec<T>) -> bool {
    v@.len() > 0 ==> v.encodable() && v.encoding().len() <= u32::MAX
}

impl<'a> Names<'a> {
    /// No name at all, so no subsection: the module name, the item names,
    /// the local names and the label names are all absent.
    pub open spec fn spec_is_empty(&self) -> bool {
        &&& self.module is None
        &&& self.funcs@.len() == 0
        &&& self.locals@.len() == 0
        &&& self.labels@.len() == 0
        &&& self.globals@.len() == 0
        &&& self.memories@.len() == 0
        &&& self.tables@.len() == 0
        &&& self.types@.len() == 0
        &&& self.data@.len() == 0
        &&& self.elems@.len() == 0
        &&& self.tags@.len() == 0
    }

    /// Whether there is no name to emit.
    pub fn is_empty(&self) -> (r: bool)
        ensures
            r == self.spec_is_empty(),
    {
        self.module.is_none() && self.funcs.len() == 0 && self.locals.len() == 0
            && self.labels.len() == 0 && self.globals.len() == 0 && self.memories.len() == 0
            && self.tables.len() == 0 && self.types.len() == 0 && self.data.len() == 0
            && self.elems.len() == 0 && self.tags.len()
            == 0
        // NB: specifically don't check modules/instances since they're
        // not encoded for now.

    }
}

/// Appends a subsection with the contents of `data`, and empties `data`.
fn subsec(dst: &mut Vec<u8>, id: u8, data: &mut Vec<u8>)
    requires
        old(data)@.len() <= u32::MAX,
    ensures
        final(dst)@ == old(dst)@ + subsection(id, old(data)@),
        final(data)@ == Seq::<u8>::empty(),
{
    dst.push(id);
    proof {
        lemma_bytes_items_encoding(data@);
    }
    data.encode(dst);
    data.truncate(0);
}

impl<'a> Encode for Names<'a> {
    open spec fn encodable(&self) -> bool {
        &&& (self.module matches Some(m) ==> crate::types::name_encodable(m@) && name_encoding(
            m@,
        ).len() <= u32::MAX)
        &&& names_list_fits(self.funcs)
        &&& names_list_fits(self.locals)
        &&& names_list_fits(self.labels)
        &&& names_list_fits(self.types)
        &&& names_list_fits(self.tables)
        &&& names_list_fits(self.memories)
        &&& names_list_fits(self.globals)
        &&& names_list_fits(self.elems)
        &&& names_list_fits(self.data)
        &&& names_list_fits(self.tags)
    }

    /// The subsections that have names, in the order of their ids: 0 the
    /// module, 1 functions, 2 locals, 3 labels, 4 types, 5 tables, 6
    /// memories, 7 globals, 8 element segments, 9 data segments, 11 tags.
    open spec fn encoding(&self) -> Seq<u8> {
        (match self.module {
            Some(m) => subsection(0, name_encoding(m@)),
            None => seq![],
        }) + list_subsection(self.funcs, 1)
            + list_subsection(self.locals, 2)
            + list_subsection(self.labels, 3)
            + list_subsection(self.types, 4)
            + list_subsection(self.tables, 5)
            + list_subsection(self.memories, 6)
            + list_subsection(self.globals, 7)
            + list_subsection(self.elems, 8)
            + list_subsection(self.data, 9)
            + list_subsection(self.tags, 11)
    }

    #[verifier::rlimit(50)]
    fn encode(&self, dst: &mut Vec<u8>) {
        let mut tmp: Vec<u8> = Vec::new();
        let ghost d0 = dst@;
        if let Some(id) = self.module {
            id.encode(&mut tmp);
            subsec(dst, 0, &mut tmp);
        }
        names_subsection(dst, 1, &self.funcs, &mut tmp);
        names_subsection(dst, 2, &self.locals, &mut tmp);
        names_subsection(dst, 3, &self.labels, &mut tmp);
        names_subsection(dst, 4, &self.types, &mut tmp);
        names_subsection(dst, 5, &self.tables, &mut tmp);
        names_subsection(dst, 6, &self.memories, &mut tmp);
        names_subsection(dst, 7, &self.globals, &mut tmp);
        names_subsection(dst, 8, &self.elems, &mut tmp);
        names_subsection(dst, 9, &self.data, &mut tmp);
        names_subsection(dst, 11, &self.tags, &mut tmp);
        assert(dst@ =~= d0 + self.encoding());
    }
}

/// Appends the subsection `id` of a name list when the list is not empty.
fn names_subsection<T: Encode>(dst: &mut Vec<u8>, id: u8, list: &Vec<T>, tmp: &mut Vec<u8>)
    requires
        old(tmp)@.len() == 0,
        names_list_fits(*list),
    ensures
        final(dst)@ == old(dst)@ + list_subsection(*list, id),
        final(tmp)@.len() == 0,
{
    reveal(list_subsection);
    if list.len() > 0 {
        list.encode(tmp);
        assert(tmp@ == list.encoding());
        subsec(dst, id, tmp);
    }
}

/// The name section's contents are empty exactly when `is_empty` says so:
/// a present name always yields a subsection, and a subsection is never
/// empty.
pub proof fn lemma_names_encoding_empty<'a>(names: &Names<'a>)
    ensures
        names.encoding().len() == 0 <==> names.spec_is_empty(),
{
    reveal(list_subsection);
}

/// How many kinds of names are present: the module name and each non-empty
/// list.
pub open spec fn present_name_kinds<'a>(names: &Names<'a>) -> nat {
    (if names.module is Some { 1nat } else { 0nat }) + (if names.funcs@.len() > 0 { 1nat } else { 0nat }) + (if names.locals@.len() > 0 { 1nat } else { 0nat }) + (if names.labels@.len() > 0 { 1nat } else { 0nat }) + (if names.types@.len() > 0 { 1nat } else { 0nat }) + (if names.tables@.len() > 0 { 1nat } else { 0nat }) + (if names.memories@.len() > 0 { 1nat } else { 0nat }) + (if names.globals@.len() > 0 { 1nat } else { 0nat }) + (if names.elems@.len() > 0 { 1nat } else { 0nat }) + (if names.data@.len() > 0 { 1nat } else { 0nat }) + (if names.tags@.len() > 0 { 1nat } else { 0nat })
}

/// Each kind of name goes out in its own subsection with a fixed id: 0 the
/// module, 1 functions, 2 locals, 3 labels, 4 types, 5 tables, 6 memories,
/// 7 globals, 8 element segments, 9 data segments, 11 tags. A name section
/// with one kind of name is that id followed by the length-prefixed names.
pub proof fn lemma_names_subsection_ids<'a>(names: &Names<'a>)
    ensures
        present_name_kinds(names) == 1 && names.module is Some ==> names.encoding() == seq![0u8]
            + bytes_encoding(name_encoding(names.module.unwrap()@)),
        present_name_kinds(names) == 1 && names.funcs@.len() > 0 ==> names.encoding() == seq![1u8]
            + bytes_encoding(names.funcs.encoding()),
        present_name_kinds(names) == 1 && names.locals@.len() > 0 ==> names.encoding() == seq![2u8]
            + bytes_encoding(names.locals.encoding()),
        present_name_kinds(names) == 1 && names.labels@.len() > 0 ==> names.encoding() == seq![3u8]
            + bytes_encoding(names.labels.encoding()),
        present_name_kinds(names) == 1 && names.types@.len() > 0 ==> names.encoding() == seq![4u8]
            + bytes_encoding(names.types.encoding()),
        present_name_kinds(names) == 1 && names.tables@.len() > 0 ==> names.encoding() == seq![5u8]
            + bytes_encoding(names.tables.encoding()),
        present_name_kinds(names) == 1 && names.memories@.len() > 0 ==> names.encoding() == seq![6u8]
            + bytes_encoding(names.memories.encoding()),
        present_name_kinds(names) == 1 && names.globals@.len() > 0 ==> names.encoding() == seq![7u8]
            + bytes_encoding(names.globals.encoding()),
        present_name_kinds(names) == 1 && names.elems@.len() > 0 ==> names.encoding() == seq![8u8]
            + bytes_encoding(names.elems.encoding()),
        present_name_kinds(names) == 1 && names.data@.len() > 0 ==> names.encoding() == seq![9u8]
            + bytes_encoding(names.data.encoding()),
        present_name_kinds(names) == 1 && names.tags@.len() > 0 ==> names.encoding() == seq![11u8]
            + bytes_encoding(names.tags.encoding()),
{
    reveal(list_subsection);
    assert(seq![0u8].len() == 1);
}

/// Indexed names, each as its index and its name, one after the other.
pub open spec fn name_pairs_encoding(s: Seq<(u32, Seq<char>)>) -> Seq<u8>
    decreases s.len(),
{
    if s.len() == 0 {
        seq![]
    } else {
        name_pairs_encoding(s.drop_last()) + leb_unsigned(s.last().0 as nat) + name_encoding(
            s.last().1,
        )
    }
}

/// A name map: the number of names, then each with its index.
pub open spec fn name_map_encoding(s: Seq<(u32, Seq<char>)>) -> Seq<u8> {
    leb_unsigned(s.len()) + name_pairs_encoding(s)
}

/// Per-function name maps, each after the function's index.
pub open spec fn indirect_pairs_encoding(s: Seq<(u32, Seq<(u32, Seq<char>)>)>) -> Seq<u8>
    decreases s.len(),
{
    if s.len() == 0 {
        seq![]
    } else {
        indirect_pairs_encoding(s.drop_last()) + leb_unsigned(s.last().0 as nat)
            + name_map_encoding(s.last().1)
    }
}

/// An indirect name map: the number of functions, then each function's
/// index and name map.
pub open spec fn indirect_map_encoding(s: Seq<(u32, Seq<(u32, Seq<char>)>)>) -> Seq<u8> {
    leb_unsigned(s.len()) + indirect_pairs_encoding(s)
}

/// Every name of a name map can be emitted and the map counts fit.
pub open spec fn name_map_encodable(s: Seq<(u32, Seq<char>)>) -> bool {
    s.len() <= u32::MAX && forall|i: int| 0 <= i < s.len() ==> name_encodable(#[trigger] s[i].1)
}

/// A name map that, when present, fits in a subsection.
pub open spec fn name_map_fits(s: Seq<(u32, Seq<char>)>) -> bool {
    s.len() > 0 ==> name_map_encodable(s) && name_map_encoding(s).len() <= u32::MAX
}

/// An indirect name map that, when present, fits in a subsection.
pub open spec fn indirect_map_fits(s: Seq<(u32, Seq<(u32, Seq<char>)>)>) -> bool {
    s.len() > 0 ==> {
        &&& s.len() <= u32::MAX
        &&& forall|i: int| 0 <= i < s.len() ==> name_map_encodable(#[trigger] s[i].1)
        &&& indirect_map_encoding(s).len() <= u32::MAX
    }
}

/// The contents of the name section, from the names that `find_names`
/// collects for the module name `module` and the entries `es`.
pub open spec fn names_content(module: Option<Seq<char>>, es: Seq<NameEntry>) -> Seq<u8> {
    (match module {
        Some(m) => subsection(0, name_encoding(m)),
        None => seq![],
    }) + optional_subsection(kind_names(es, Name::Func).len() > 0, 1, name_map_encoding(kind_names(es, Name::Func)))
        + optional_subsection(local_names(es).len() > 0, 2, indirect_map_encoding(local_names(es)))
        + optional_subsection(label_names(es).len() > 0, 3, indirect_map_encoding(label_names(es)))
        + optional_subsection(kind_names(es, Name::Type).len() > 0, 4, name_map_encoding(kind_names(es, Name::Type)))
        + optional_subsection(kind_names(es, Name::Table).len() > 0, 5, name_map_encoding(kind_names(es, Name::Table)))
        + optional_subsection(kind_names(es, Name::Memory).len() > 0, 6, name_map_encoding(kind_names(es, Name::Memory)))
        + optional_subsection(kind_names(es, Name::Global).len() > 0, 7, name_map_encoding(kind_names(es, Name::Global)))
        + optional_subsection(kind_names(es, Name::Elem).len() > 0, 8, name_map_encoding(kind_names(es, Name::Elem)))
        + optional_subsection(kind_names(es, Name::Data).len() > 0, 9, name_map_encoding(kind_names(es, Name::Data)))
        + optional_subsection(kind_names(es, Name::Tag).len() > 0, 11, name_map_encoding(kind_names(es, Name::Tag)))
}

/// No name at all for the module name `module` and the entries `es`.
pub open spec fn names_absent(module: Option<Seq<char>>, es: Seq<NameEntry>) -> bool {
    &&& module is None
    &&& forall|k: Name| (#[trigger] kind_names(es, k)).len() == 0
    &&& local_names(es).len() == 0
    &&& label_names(es).len() == 0
}

/// Every subsection of the name section fits in 32 bits.
pub open spec fn names_fit(module: Option<Seq<char>>, es: Seq<NameEntry>) -> bool {
    &&& (module matches Some(m) ==> name_encodable(m) && name_encoding(m).len() <= u32::MAX)
    &&& forall|k: Name| name_map_fits(#[trigger] kind_names(es, k))
    &&& indirect_map_fits(local_names(es))
    &&& indirect_map_fits(label_names(es))
}

proof fn lemma_pairs_encoding<'a>(s: Seq<(u32, &'a str)>)
    ensures
        items_encoding(s) == name_pairs_encoding(pairs_view(s)),
    decreases s.len(),
{
    if s.len() > 0 {
        lemma_pairs_encoding(s.drop_last());
        assert(pairs_view(s.drop_last()) == pairs_view(s).drop_last());
    }
}

proof fn lemma_name_list<'a>(v: Vec<(u32, &'a str)>)
    ensures
        v.encoding() == name_map_encoding(pairs_view(v@)),
        name_map_fits(pairs_view(v@)) ==> names_list_fits(v),
{
    lemma_pairs_encoding(v@);
    if name_map_fits(pairs_view(v@)) && v@.len() > 0 {
        assert forall|i: int| 0 <= i < v@.len() implies (#[trigger] v@[i]).encodable() by {
            assert(pairs_view(v@)[i].1 == v@[i].1@);
        }
    }
}

proof fn lemma_indirect_encoding<'a>(s: Seq<(u32, Vec<(u32, &'a str)>)>)
    ensures
        items_encoding(s) == indirect_pairs_encoding(nested_view(s)),
    decreases s.len(),
{
    if s.len() > 0 {
        lemma_indirect_encoding(s.drop_last());
        assert(nested_view(s.drop_last()) == nested_view(s).drop_last());
        lemma_name_list(s.last().1);
    }
}

proof fn lemma_indirect_list<'a>(v: Vec<(u32, Vec<(u32, &'a str)>)>)
    ensures
        v.encoding() == indirect_map_encoding(nested_view(v@)),
        indirect_map_fits(nested_view(v@)) ==> names_list_fits(v),
{
    lemma_indirect_encoding(v@);
    if indirect_map_fits(nested_view(v@)) && v@.len() > 0 {
        assert forall|i: int| 0 <= i < v@.len() implies (#[trigger] v@[i]).encodable() by {
            let inner = v@[i].1;
            assert(nested_view(v@)[i].1 == pairs_view(inner@));
            assert forall|j: int| 0 <= j < inner@.len() implies (#[trigger] inner@[j]).encodable() by {
                assert(pairs_view(inner@)[j].1 == inner@[j].1@);
            }
        }
    }
}

/// The name section of `find_names`' result is the one that `names_content`
/// describes, can be emitted when `names_fit` holds, and is empty exactly
/// when no name is present.
pub proof fn lemma_names_view<'a>(names: &Names<'a>, module: Option<Seq<char>>, es: Seq<NameEntry>)
    requires
        opt_str_view(names.module) == module,
        forall|k: Name| #[trigger] names.list(k) == kind_names(es, k),
        nested_view(names.locals@) == local_names(es),
        nested_view(names.labels@) == label_names(es),
    ensures
        names.encoding() == names_content(module, es),
        names_fit(module, es) ==> names.encodable(),
        names.spec_is_empty() <==> names_absent(module, es),
{
    reveal(list_subsection);
    assert(names.list(Name::Func) == kind_names(es, Name::Func));
    assert(names.list(Name::Type) == kind_names(es, Name::Type));
    assert(names.list(Name::Table) == kind_names(es, Name::Table));
    assert(names.list(Name::Memory) == kind_names(es, Name::Memory));
    assert(names.list(Name::Global) == kind_names(es, Name::Global));
    assert(names.list(Name::Elem) == kind_names(es, Name::Elem));
    assert(names.list(Name::Data) == kind_names(es, Name::Data));
    assert(names.list(Name::Tag) == kind_names(es, Name::Tag));
    lemma_name_list(names.funcs);
    lemma_name_list(names.types);
    lemma_name_list(names.tables);
    lemma_name_list(names.memories);
    lemma_name_list(names.globals);
    lemma_name_list(names.elems);
    lemma_name_list(names.data);
    lemma_name_list(names.tags);
    lemma_indirect_list(names.locals);
    lemma_indirect_list(names.labels);
    if names_absent(module, es) {
        assert(kind_names(es, Name::Func).len() == 0);
        assert(kind_names(es, Name::Type).len() == 0);
        assert(kind_names(es, Name::Table).len() == 0);
        assert(kind_names(es, Name::Memory).len() == 0);
        assert(kind_names(es, Name::Global).len() == 0);
        assert(kind_names(es, Name::Elem).len() == 0);
        assert(kind_names(es, Name::Data).len() == 0);
        assert(kind_names(es, Name::Tag).len() == 0);
    }
    if names.spec_is_empty() {
        assert forall|k: Name| (#[trigger] kind_names(es, k)).len() == 0 by {
            assert(names.list(k) == kind_names(es, k));
        }
    }
    if names_fit(module, es) {
        assert(name_map_fits(kind_names(es, Name::Func)));
        assert(name_map_fits(kind_names(es, Name::Type)));
        assert(name_map_fits(kind_names(es, Name::Table)));
        assert(name_map_fits(kind_names(es, Name::Memory)));
        assert(name_map_fits(kind_names(es, Name::Global)));
        assert(name_map_fits(kind_names(es, Name::Elem)));
        assert(name_map_fits(kind_names(es, Name::Data)));
        assert(name_map_fits(kind_names(es, Name::Tag)));
    }
}

} // verus!
