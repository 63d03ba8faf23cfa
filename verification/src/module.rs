//! Emission of a whole module: the header, the sections in their order,
//! custom sections where they are placed, the code section with its branch
//! hints, and the name section.
use vstd::prelude::*;
use crate::types::{Id, Index, NameAnnotation, Rec, RecOrType, Type, TypeUse};
use crate::items::{Data, Elem, Export, Func, Global, Import, Memory, Table, Tag};
use crate::custom::{Custom, CustomPlace, CustomPlaceAnchor};
use crate::names::{
    find_names, lemma_names_view, name_entries, names_absent, names_collectable, names_content,
    names_fit, opt_str_view, spec_get_name,
};
use crate::encode::{
    Encode, all_encodable, bytes_encoding, encodings, flatten, items_encoding,
    lemma_bytes_items_encoding, lemma_items_encoding_flatten, list_encoding,
};
use crate::expr::BranchHint;
use crate::items::{FuncKind, ItemKind};
use crate::leb::leb_unsigned;
use crate::types::{name_encodable, name_encoding};

verus! {

/// A field of a module.
pub enum ModuleField {
    Type(Type),
    Rec(Rec),
    Import(Import),
    Func(Func),
    Table(Table),
    Memory(Memory),
    Global(Global),
    Export(Export),
    Start(Index),
    Elem(Elem),
    Data(Data),
    Tag(Tag),
    Custom(Custom),
}

/// A section: its id, then its contents as a byte list.
pub open spec fn section_bytes(id: u8, content: Seq<u8>) -> Seq<u8> {
    seq![id] + bytes_encoding(content)
}

/// The contents of a custom section: its name, then its own contents.
pub open spec fn custom_content(c: Custom) -> Seq<u8> {
    name_encoding(c.spec_name()) + c.encoding()
}

/// A custom section can be emitted: its contents can, and fit in 32 bits.
pub open spec fn custom_encodable(c: Custom) -> bool {
    &&& c.encodable()
    &&& name_encodable(c.spec_name())
    &&& custom_content(c).len() <= u32::MAX
}

/// The custom sections of `customs` that are placed at `place`, in order.
pub open spec fn customs_at(customs: Seq<Custom>, place: CustomPlace) -> Seq<u8>
    decreases customs.len(),
{
    if customs.len() == 0 {
        seq![]
    } else {
        customs_at(customs.drop_last(), place) + if customs.last().spec_place() == place {
            section_bytes(0, custom_content(customs.last()))
        } else {
            seq![]
        }
    }
}

/// The custom sections placed at `place` are those custom sections whose
/// place is `place`, in order, each as a section with id 0.
pub proof fn lemma_customs_at_filters(customs: Seq<Custom>, place: CustomPlace)
    ensures
        customs_at(customs, place) == flatten(
            customs.filter(|c: Custom| c.spec_place() == place).map_values(
                |c: Custom| seq![0u8] + bytes_encoding(custom_content(c)),
            ),
        ),
    decreases customs.len(),
{
    reveal(Seq::filter);
    if customs.len() > 0 {
        let pre = customs.drop_last();
        lemma_customs_at_filters(pre, place);
        let p = |c: Custom| c.spec_place() == place;
        let f = |c: Custom| seq![0u8] + bytes_encoding(custom_content(c));
        let a = pre.filter(p);
        if p(customs.last()) {
            assert(customs.filter(p) == a.push(customs.last()));
            assert(a.push(customs.last()).map_values(f) == a.map_values(f).push(f(customs.last())));
            assert(a.map_values(f).push(f(customs.last())).drop_last() == a.map_values(f));
        } else {
            assert(customs.filter(p) == a);
        }
    }
}

/// The values behind a list of references.
pub open spec fn derefs<'a, T>(s: Seq<&'a T>) -> Seq<T> {
    s.map_values(|r: &'a T| *r)
}

/// The branch hints of one function, with the function's index.
pub struct FunctionBranchHints {
    pub func_index: u32,
    pub hints: Vec<BranchHint>,
}

impl Encode for FunctionBranchHints {
    open spec fn encodable(&self) -> bool {
        self.hints@.len() <= u32::MAX
    }

    /// The function index, then the list of hints.
    open spec fn encoding(&self) -> Seq<u8> {
        leb_unsigned(self.func_index as nat) + self.hints.encoding()
    }

    fn encode(&self, e: &mut Vec<u8>) {
        self.func_index.encode(e);
        self.hints.encode(e);
    }
}

/// The hints of a function, with its index, by value.
pub open spec fn group_encoding(g: (u32, Seq<BranchHint>)) -> Seq<u8> {
    leb_unsigned(g.0 as nat) + list_encoding(g.1)
}

/// The concatenated encodings of hint groups.
pub open spec fn groups_encoding(gs: Seq<(u32, Seq<BranchHint>)>) -> Seq<u8>
    decreases gs.len(),
{
    if gs.len() == 0 {
        seq![]
    } else {
        groups_encoding(gs.drop_last()) + group_encoding(gs.last())
    }
}

/// Hint groups, by value.
pub open spec fn groups_view(v: Seq<FunctionBranchHints>) -> Seq<(u32, Seq<BranchHint>)> {
    v.map_values(|f: FunctionBranchHints| (f.func_index, f.hints@))
}

proof fn lemma_groups_encoding(v: Seq<FunctionBranchHints>)
    ensures
        items_encoding(v) == groups_encoding(groups_view(v)),
    decreases v.len(),
{
    if v.len() > 0 {
        lemma_groups_encoding(v.drop_last());
        assert(groups_view(v.drop_last()) == groups_view(v).drop_last());
    }
}

/// The number of imported functions.
pub open spec fn func_import_count(imports: Seq<Import>) -> nat
    decreases imports.len(),
{
    if imports.len() == 0 {
        0
    } else {
        func_import_count(imports.drop_last()) + if imports.last().item.kind is Func {
            1nat
        } else {
            0nat
        }
    }
}

/// The bodies of functions, each prefixed with its length.
pub open spec fn func_bodies(funcs: Seq<Func>) -> Seq<u8>
    decreases funcs.len(),
{
    if funcs.len() == 0 {
        seq![]
    } else {
        func_bodies(funcs.drop_last()) + leb_unsigned(funcs.last().body_encoding().len())
            + funcs.last().body_encoding()
    }
}

/// The hints of the functions that have some, each group with the index
/// of its function; the first function has index `first`.
pub open spec fn hint_groups(funcs: Seq<Func>, first: int) -> Seq<(u32, Seq<BranchHint>)>
    decreases funcs.len(),
{
    if funcs.len() == 0 {
        seq![]
    } else {
        hint_groups(funcs.drop_last(), first) + if funcs.last().spec_hints().len() > 0 {
            seq![((first + funcs.len() - 1) as u32, funcs.last().spec_hints())]
        } else {
            seq![]
        }
    }
}

/// The contents of the branch hint section.
pub open spec fn hint_section_content(groups: Seq<(u32, Seq<BranchHint>)>) -> Seq<u8> {
    name_encoding("metadata.code.branch_hint"@) + leb_unsigned(groups.len()) + groups_encoding(groups)
}

/// The code section, preceded by the branch hint section when a function
/// has hints; nothing when no function is defined.
pub open spec fn code_core(funcs: Seq<Func>, first: int) -> Seq<u8> {
    let groups = hint_groups(funcs, first);
    if funcs.len() > 0 {
        (if groups.len() > 0 {
            section_bytes(0, hint_section_content(groups))
        } else {
            seq![]
        }) + seq![10u8] + bytes_encoding(leb_unsigned(funcs.len()) + func_bodies(funcs))
    } else {
        seq![]
    }
}

/// The code section can be emitted: every function can, the function
/// indices and the sizes of the two sections fit in 32 bits.
pub open spec fn code_section_encodable(funcs: Seq<Func>, first: int) -> bool {
    &&& forall|i: int| 0 <= i < funcs.len() ==> (#[trigger] funcs[i]).encodable()
    &&& forall|i: int| 0 <= i < funcs.len() ==> (#[trigger] funcs[i]).spec_hints().len() <= u32::MAX
    &&& first + funcs.len() <= u32::MAX
    &&& (leb_unsigned(funcs.len()) + func_bodies(funcs)).len() <= u32::MAX
    &&& hint_section_content(hint_groups(funcs, first)).len() <= u32::MAX
}

proof fn lemma_utf8_len(s: Seq<char>)
    ensures
        vstd::utf8::encode_utf8(s).len() <= 4 * s.len(),
    decreases s.len(),
{
    if s.len() > 0 {
        lemma_utf8_len(s.drop_first());
    }
}

proof fn lemma_hint_groups_len(funcs: Seq<Func>, first: int)
    ensures
        hint_groups(funcs, first).len() <= funcs.len(),
    decreases funcs.len(),
{
    if funcs.len() > 0 {
        lemma_hint_groups_len(funcs.drop_last(), first);
    }
}

/// The state of emission: the module so far, a buffer for section
/// contents, and the custom sections to place.
pub struct Encoder<'a> {
    pub wasm: Vec<u8>,
    pub tmp: Vec<u8>,
    pub customs: &'a [&'a Custom],
}

impl<'a> Encoder<'a> {
    /// The custom sections to place.
    pub open spec fn customs_view(&self) -> Seq<Custom> {
        derefs(self.customs@)
    }

    /// Every custom section can be emitted.
    pub open spec fn customs_encodable(&self) -> bool {
        forall|i: int|
            0 <= i < self.customs_view().len() ==> custom_encodable(
                #[trigger] self.customs_view()[i],
            )
    }

    /// Appends a section with id `id` and contents `section`.
    pub fn section<T: Encode>(&mut self, id: u8, section: &T)
        requires
            section.encodable(),
            section.encoding().len() <= u32::MAX,
        ensures
            final(self).wasm@ == old(self).wasm@ + section_bytes(id, section.encoding()),
            final(self).tmp@ == section.encoding(),
            final(self).customs == old(self).customs,
    {
        let mut tmp: Vec<u8> = Vec::new();
        std::mem::swap(&mut tmp, &mut self.tmp);
        tmp.truncate(0);
        section.encode(&mut tmp);
        self.wasm.push(id);
        proof {
            lemma_bytes_items_encoding(tmp@);
        }
        tmp.encode(&mut self.wasm);
        std::mem::swap(&mut tmp, &mut self.tmp);
    }

    /// Appends the custom sections placed at `place`, in order.
    pub fn custom_sections(&mut self, place: CustomPlace)
        requires
            old(self).customs_encodable(),
        ensures
            final(self).wasm@ == old(self).wasm@ + customs_at(old(self).customs_view(), place),
            final(self).customs == old(self).customs,
    {
        let ghost start = self.wasm@;
        let mut i: usize = 0;
        while i < self.customs.len()
            invariant
                i <= self.customs@.len(),
                self.customs == old(self).customs,
                self.customs_encodable(),
                self.wasm@ == start + customs_at(self.customs_view().take(i as int), place),
            decreases self.customs@.len() - i,
        {
            let entry = self.customs[i];
            proof {
                assert(self.customs_view().take(i + 1).drop_last() == self.customs_view().take(
                    i as int,
                ));
                assert(self.customs_view()[i as int] == *entry);
                assert(custom_encodable(*entry));
            }
            if entry.place() == place {
                let named = (entry.name(), entry);
                assert(named.encoding() == custom_content(*entry));
                self.section(0, &named);
            }
            i = i + 1;
        }
        assert(self.customs_view().take(i as int) == self.customs_view());
    }

    /// Appends the custom sections placed before `anchor`, the section `id`
    /// with the items of `list` unless there are none, then the custom
    /// sections placed after `anchor`.
    pub fn section_list<T: Encode>(&mut self, id: u8, anchor: CustomPlaceAnchor, list: &Vec<T>)
        requires
            old(self).customs_encodable(),
            list@.len() > 0 ==> list.encodable() && list.encoding().len() <= u32::MAX,
        ensures
            final(self).wasm@ == old(self).wasm@ + customs_at(
                old(self).customs_view(),
                CustomPlace::Before(anchor),
            ) + (if list@.len() > 0 {
                section_bytes(id, list.encoding())
            } else {
                seq![]
            }) + customs_at(old(self).customs_view(), CustomPlace::After(anchor)),
            final(self).customs == old(self).customs,
    {
        self.custom_sections(CustomPlace::Before(anchor));
        if list.len() > 0 {
            self.section(id, list);
        }
        self.custom_sections(CustomPlace::After(anchor));
    }

    /// Encodes the code section of a wasm module module while additionally
    /// handling the branch hinting proposal.
    ///
    /// The branch hinting proposal requires to encode the offsets of the
    /// instructions relative from the beginning of the function. Here we encode
    /// each instruction and we save its offset. If needed, we use this
    /// information to build the branch hint section and insert it before the
    /// code section.
    pub fn code_section(&mut self, list: &[&Func], imports: &[&Import])
        requires
            old(self).customs_encodable(),
            code_section_encodable(derefs(list@), func_import_count(derefs(imports@)) as int),
        ensures
            final(self).wasm@ == old(self).wasm@ + customs_at(
                old(self).customs_view(),
                CustomPlace::Before(CustomPlaceAnchor::Code),
            ) + code_core(derefs(list@), func_import_count(derefs(imports@)) as int) + customs_at(
                old(self).customs_view(),
                CustomPlace::After(CustomPlaceAnchor::Code),
            ),
            final(self).customs == old(self).customs,
    {
        let ghost funcs = derefs(list@);
        let ghost first = func_import_count(derefs(imports@)) as int;
        let ghost w0 = self.wasm@;
        self.custom_sections(CustomPlace::Before(CustomPlaceAnchor::Code));
        if list.len() > 0 {
            let mut count: usize = 0;
            let mut k: usize = 0;
            while k < imports.len()
                invariant
                    k <= imports@.len(),
                    count == func_import_count(derefs(imports@).take(k as int)),
                    func_import_count(derefs(imports@)) <= u32::MAX,
                decreases imports@.len() - k,
            {
                proof {
                    assert(derefs(imports@).take(k + 1).drop_last() == derefs(imports@).take(
                        k as int,
                    ));
                    lemma_func_import_count_prefix(derefs(imports@), k + 1);
                }
                if let ItemKind::Func(..) = imports[k].item.kind {
                    count = count + 1;
                }
                k = k + 1;
            }
            assert(derefs(imports@).take(k as int) == derefs(imports@));
            let (code_section, branch_hints) = encode_bodies(list, count as u32);
            // Branch hints section has to be inserted before the Code section
            // Insert the section only if we have some hints
            if branch_hints.len() > 0 {
                let name = "metadata.code.branch_hint";
                proof {
                    reveal_strlit("metadata.code.branch_hint");
                    lemma_utf8_len(name@);
                    lemma_groups_encoding(branch_hints@);
                    lemma_hint_groups_len(funcs, first);
                }
                proof {
                    assert forall|j: int| 0 <= j < branch_hints@.len() implies (
                    #[trigger] branch_hints@[j]).encodable() by {}
                }
                let named = (name, branch_hints);
                assert(named.encoding() == hint_section_content(hint_groups(funcs, first)));
                self.section(0, &named);
            }
            // Finally, insert the Code section from the tmp buffer
            self.wasm.push(10);
            proof {
                lemma_bytes_items_encoding(code_section@);
            }
            code_section.encode(&mut self.wasm);
        }
        self.custom_sections(CustomPlace::After(CustomPlaceAnchor::Code));
    }
}

/// Encodes the bodies of `list`, with their count first, and collects the
/// branch hints of the functions that have some, numbering the functions
/// from `first`.
#[verifier::rlimit(40)]
fn encode_bodies(list: &[&Func], first: u32) -> (r: (Vec<u8>, Vec<FunctionBranchHints>))
    requires
        forall|i: int| 0 <= i < derefs(list@).len() ==> (#[trigger] derefs(list@)[i]).encodable(),
        forall|i: int|
            0 <= i < derefs(list@).len() ==> (#[trigger] derefs(list@)[i]).spec_hints().len()
                <= u32::MAX,
        first + list@.len() <= u32::MAX,
    ensures
        r.0@ == leb_unsigned(list@.len()) + func_bodies(derefs(list@)),
        groups_view(r.1@) == hint_groups(derefs(list@), first as int),
        forall|j: int| 0 <= j < r.1@.len() ==> (#[trigger] r.1@[j]).encodable(),
{
    let ghost funcs = derefs(list@);
    let mut branch_hints: Vec<FunctionBranchHints> = Vec::new();
    let mut code_section: Vec<u8> = Vec::new();
    list.len().encode(&mut code_section);
    let mut func_index: u32 = first;
    let mut i: usize = 0;
    while i < list.len()
        invariant
            i <= list@.len(),
            funcs == derefs(list@),
            forall|k: int| 0 <= k < funcs.len() ==> (#[trigger] funcs[k]).encodable(),
            forall|k: int| 0 <= k < funcs.len() ==> (#[trigger] funcs[k]).spec_hints().len() <= u32::MAX,
            first + list@.len() <= u32::MAX,
            func_index == first + i,
            code_section@ == leb_unsigned(funcs.len()) + func_bodies(funcs.take(i as int)),
            groups_view(branch_hints@) == hint_groups(funcs.take(i as int), first as int),
            forall|j: int| 0 <= j < branch_hints@.len() ==> (#[trigger] branch_hints@[j]).encodable(),
        decreases list@.len() - i,
    {
        let func = list[i];
        proof {
            assert(funcs.take(i + 1).drop_last() == funcs.take(i as int));
            assert(funcs[i as int] == *func);
            assert(func.encodable());
            assert(func.spec_hints().len() <= u32::MAX);
        }
        let hints = func.encode(&mut code_section);
        if hints.len() > 0 {
            let group = FunctionBranchHints { func_index, hints };
            proof {
                assert(groups_view(branch_hints@.push(group)) == groups_view(branch_hints@).push(
                    (group.func_index, group.hints@),
                ));
            }
            branch_hints.push(group);
        }
        func_index += 1;
        i = i + 1;
    }
    assert(funcs.take(i as int) == funcs);
    (code_section, branch_hints)
}

/// The function indices of the branch hint groups increase strictly, from
/// `first` (the number of imported functions) on, and stay below
/// `first + funcs.len()`.
pub proof fn lemma_hint_groups_sorted(funcs: Seq<Func>, first: int)
    requires
        0 <= first,
        first + funcs.len() <= u32::MAX,
    ensures
        forall|i: int|
            0 <= i < hint_groups(funcs, first).len() ==> first <= (#[trigger] hint_groups(
                funcs,
                first,
            )[i]).0 < first + funcs.len(),
        forall|i: int, j: int|
            0 <= i < j < hint_groups(funcs, first).len() ==> (#[trigger] hint_groups(funcs, first)[i]).0
                < (#[trigger] hint_groups(funcs, first)[j]).0,
    decreases funcs.len(),
{
    if funcs.len() > 0 {
        let pre = funcs.drop_last();
        lemma_hint_groups_sorted(pre, first);
        let prev = hint_groups(pre, first);
        let cur = hint_groups(funcs, first);
        if funcs.last().spec_hints().len() > 0 {
            assert(cur == prev.push(((first + funcs.len() - 1) as u32, funcs.last().spec_hints())));
            assert forall|i: int| 0 <= i < cur.len() implies first <= (#[trigger] cur[i]).0 < first
                + funcs.len() by {
                if i < prev.len() {
                    assert(cur[i] == prev[i]);
                }
            }
            assert forall|i: int, j: int| 0 <= i < j < cur.len() implies (#[trigger] cur[i]).0 < (
            #[trigger] cur[j]).0 by {
                assert(cur[i] == prev[i]);
                if j < prev.len() {
                    assert(cur[j] == prev[j]);
                }
            }
        }
    }
}

/// The index of the first defined function is the number of imports that
/// import a function: imports of tables, memories, globals and tags do not
/// count.
pub proof fn lemma_func_import_count_counts_funcs(imports: Seq<Import>)
    ensures
        func_import_count(imports) == imports.filter(|i: Import| i.item.kind is Func).len(),
    decreases imports.len(),
{
    reveal(Seq::filter);
    if imports.len() > 0 {
        lemma_func_import_count_counts_funcs(imports.drop_last());
    }
}

/// The branch hint groups are exactly the defined functions that have
/// hints, in order: the function at position `k` among the defined
/// functions has the group `(first + k, its hints)`, and no other group
/// exists.
pub proof fn lemma_hint_groups_are_hinted_funcs(funcs: Seq<Func>, first: int)
    requires
        0 <= first,
        first + funcs.len() <= u32::MAX,
    ensures
        forall|i: int|
            0 <= i < hint_groups(funcs, first).len() ==> exists|k: int|
                0 <= k < funcs.len() && #[trigger] hint_groups(funcs, first)[i] == (
                    (first + k) as u32,
                    funcs[k].spec_hints(),
                ) && funcs[k].spec_hints().len() > 0,
        forall|k: int|
            0 <= k < funcs.len() && (#[trigger] funcs[k]).spec_hints().len() > 0 ==> exists|i: int|
                0 <= i < hint_groups(funcs, first).len() && hint_groups(funcs, first)[i] == (
                    (first + k) as u32,
                    funcs[k].spec_hints(),
                ),
    decreases funcs.len(),
{
    if funcs.len() > 0 {
        let pre = funcs.drop_last();
        let n = funcs.len() - 1;
        lemma_hint_groups_are_hinted_funcs(pre, first);
        let prev = hint_groups(pre, first);
        let cur = hint_groups(funcs, first);
        if funcs.last().spec_hints().len() > 0 {
            assert(cur == prev.push(((first + n) as u32, funcs[n].spec_hints())));
        } else {
            assert(cur == prev);
        }
        assert forall|i: int| 0 <= i < cur.len() implies exists|k: int|
            0 <= k < funcs.len() && #[trigger] cur[i] == ((first + k) as u32, funcs[k].spec_hints())
                && funcs[k].spec_hints().len() > 0 by {
            if i < prev.len() {
                assert(cur[i] == prev[i]);
                let k = choose|k: int|
                    0 <= k < pre.len() && #[trigger] prev[i] == ((first + k) as u32, pre[k].spec_hints())
                        && pre[k].spec_hints().len() > 0;
                assert(funcs[k] == pre[k]);
            } else {
                assert(cur[i] == ((first + n) as u32, funcs[n].spec_hints()));
            }
        }
        assert forall|k: int| 0 <= k < funcs.len() && (#[trigger] funcs[k]).spec_hints().len() > 0 implies exists|i: int|
            0 <= i < cur.len() && cur[i] == ((first + k) as u32, funcs[k].spec_hints()) by {
            if k < n {
                assert(funcs[k] == pre[k]);
                assert(pre[k].spec_hints().len() > 0);
                let i = choose|i: int|
                    0 <= i < prev.len() && prev[i] == ((first + k) as u32, pre[k].spec_hints());
                assert(cur[i] == prev[i]);
            } else {
                assert(cur[prev.len() as int] == ((first + n) as u32, funcs[n].spec_hints()));
            }
        }
    }
}

proof fn lemma_func_import_count_prefix(imports: Seq<Import>, i: int)
    requires
        0 <= i <= imports.len(),
    ensures
        func_import_count(imports.take(i)) <= func_import_count(imports),
    decreases imports.len() - i,
{
    if i < imports.len() {
        lemma_func_import_count_prefix(imports, i + 1);
        assert(imports.take(i + 1).drop_last() == imports.take(i));
    } else {
        assert(imports.take(i) == imports);
    }
}

/// The encoding of the item that `field` adds to the section of `anchor`,
/// if it adds one. A function adds its type to the function section; its
/// body goes to the code section, which is described on its own.
pub open spec fn field_item(field: ModuleField, anchor: CustomPlaceAnchor) -> Option<Seq<u8>> {
    match field {
        ModuleField::Type(t) => if anchor == CustomPlaceAnchor::Type {
            Some(t.encoding())
        } else {
            None
        },
        ModuleField::Rec(r) => if anchor == CustomPlaceAnchor::Type {
            Some(r.encoding())
        } else {
            None
        },
        ModuleField::Import(i) => if anchor == CustomPlaceAnchor::Import {
            Some(i.encoding())
        } else {
            None
        },
        ModuleField::Func(f) => if anchor == CustomPlaceAnchor::Func {
            Some(f.ty.encoding())
        } else {
            None
        },
        ModuleField::Table(t) => if anchor == CustomPlaceAnchor::Table {
            Some(t.encoding())
        } else {
            None
        },
        ModuleField::Memory(m) => if anchor == CustomPlaceAnchor::Memory {
            Some(m.encoding())
        } else {
            None
        },
        ModuleField::Global(g) => if anchor == CustomPlaceAnchor::Global {
            Some(g.encoding())
        } else {
            None
        },
        ModuleField::Export(x) => if anchor == CustomPlaceAnchor::Export {
            Some(x.encoding())
        } else {
            None
        },
        ModuleField::Start(i) => if anchor == CustomPlaceAnchor::Start {
            Some(i.encoding())
        } else {
            None
        },
        ModuleField::Elem(x) => if anchor == CustomPlaceAnchor::Elem {
            Some(x.encoding())
        } else {
            None
        },
        ModuleField::Data(d) => if anchor == CustomPlaceAnchor::Data {
            Some(d.encoding())
        } else {
            None
        },
        ModuleField::Tag(t) => if anchor == CustomPlaceAnchor::Tag {
            Some(t.encoding())
        } else {
            None
        },
        ModuleField::Custom(_) => None,
    }
}

/// The encodings of the items of the section of `anchor`, in field order.
pub open spec fn section_items(fields: Seq<ModuleField>, anchor: CustomPlaceAnchor) -> Seq<Seq<u8>>
    decreases fields.len(),
{
    if fields.len() == 0 {
        seq![]
    } else {
        match field_item(fields.last(), anchor) {
            Some(b) => section_items(fields.drop_last(), anchor).push(b),
            None => section_items(fields.drop_last(), anchor),
        }
    }
}

/// The functions defined by `fields`, in order.
pub open spec fn module_funcs(fields: Seq<ModuleField>) -> Seq<Func>
    decreases fields.len(),
{
    if fields.len() == 0 {
        seq![]
    } else {
        match fields.last() {
            ModuleField::Func(f) => module_funcs(fields.drop_last()).push(f),
            _ => module_funcs(fields.drop_last()),
        }
    }
}

/// The imports of `fields`, in order.
pub open spec fn module_imports(fields: Seq<ModuleField>) -> Seq<Import>
    decreases fields.len(),
{
    if fields.len() == 0 {
        seq![]
    } else {
        match fields.last() {
            ModuleField::Import(i) => module_imports(fields.drop_last()).push(i),
            _ => module_imports(fields.drop_last()),
        }
    }
}

/// The start functions of `fields`, in order.
pub open spec fn module_starts(fields: Seq<ModuleField>) -> Seq<Index>
    decreases fields.len(),
{
    if fields.len() == 0 {
        seq![]
    } else {
        match fields.last() {
            ModuleField::Start(i) => module_starts(fields.drop_last()).push(i),
            _ => module_starts(fields.drop_last()),
        }
    }
}

/// The custom sections of `fields`, in order.
pub open spec fn module_customs(fields: Seq<ModuleField>) -> Seq<Custom>
    decreases fields.len(),
{
    if fields.len() == 0 {
        seq![]
    } else {
        match fields.last() {
            ModuleField::Custom(c) => module_customs(fields.drop_last()).push(c),
            _ => module_customs(fields.drop_last()),
        }
    }
}

/// A field can be emitted as an item of its section.
pub open spec fn field_encodable(field: ModuleField) -> bool {
    match field {
        ModuleField::Type(t) => t.encodable(),
        ModuleField::Rec(r) => r.encodable(),
        ModuleField::Import(i) => i.encodable(),
        ModuleField::Func(f) => f.ty.encodable(),
        ModuleField::Table(t) => t.encodable(),
        ModuleField::Memory(m) => m.encodable(),
        ModuleField::Global(g) => g.encodable(),
        ModuleField::Export(x) => x.encodable(),
        ModuleField::Start(_) => true,
        ModuleField::Elem(x) => x.encodable(),
        ModuleField::Data(d) => d.encodable(),
        ModuleField::Tag(t) => t.encodable(),
        ModuleField::Custom(c) => custom_encodable(c),
    }
}

/// The fields of a module sorted by section, as `encode` collects them.
pub struct FieldLists<'a> {
    pub types: Vec<RecOrType<'a>>,
    pub imports: Vec<&'a Import>,
    pub funcs: Vec<&'a Func>,
    pub tables: Vec<&'a Table>,
    pub memories: Vec<&'a Memory>,
    pub globals: Vec<&'a Global>,
    pub exports: Vec<&'a Export>,
    pub start: Vec<&'a Index>,
    pub elem: Vec<&'a Elem>,
    pub data: Vec<&'a Data>,
    pub tags: Vec<&'a Tag>,
    pub customs: Vec<&'a Custom>,
}

impl<'a> FieldLists<'a> {
    /// The lists hold the items of `fields`, each in its section and in
    /// field order.
    pub open spec fn sorts(&self, fields: Seq<ModuleField>) -> bool {
        &&& encodings(self.types@) == section_items(fields, CustomPlaceAnchor::Type)
        &&& encodings(self.imports@) == section_items(fields, CustomPlaceAnchor::Import)
        &&& encodings(self.tables@) == section_items(fields, CustomPlaceAnchor::Table)
        &&& encodings(self.memories@) == section_items(fields, CustomPlaceAnchor::Memory)
        &&& encodings(self.globals@) == section_items(fields, CustomPlaceAnchor::Global)
        &&& encodings(self.exports@) == section_items(fields, CustomPlaceAnchor::Export)
        &&& encodings(self.start@) == section_items(fields, CustomPlaceAnchor::Start)
        &&& encodings(self.elem@) == section_items(fields, CustomPlaceAnchor::Elem)
        &&& encodings(self.data@) == section_items(fields, CustomPlaceAnchor::Data)
        &&& encodings(self.tags@) == section_items(fields, CustomPlaceAnchor::Tag)
        &&& derefs(self.funcs@) == module_funcs(fields)
        &&& derefs(self.imports@) == module_imports(fields)
        &&& derefs(self.start@) == module_starts(fields)
        &&& derefs(self.customs@) == module_customs(fields)
    }

    /// Every collected item can be emitted.
    pub open spec fn items_encodable(&self) -> bool {
        &&& all_encodable(self.types@)
        &&& all_encodable(self.imports@)
        &&& all_encodable(self.tables@)
        &&& all_encodable(self.memories@)
        &&& all_encodable(self.globals@)
        &&& all_encodable(self.exports@)
        &&& all_encodable(self.elem@)
        &&& all_encodable(self.data@)
        &&& all_encodable(self.tags@)
        &&& forall|i: int| 0 <= i < self.funcs@.len() ==> (#[trigger] self.funcs@[i]).ty.encodable()
        &&& forall|i: int|
            0 <= i < self.customs@.len() ==> custom_encodable(*#[trigger] self.customs@[i])
    }
}

proof fn lemma_push_encodings<T: Encode>(s: Seq<T>, x: T)
    ensures
        encodings(s.push(x)) == encodings(s).push(x.encoding()),
{
    assert(encodings(s.push(x)) =~= encodings(s).push(x.encoding()));
}

proof fn lemma_push_derefs<'a, T>(s: Seq<&'a T>, x: &'a T)
    ensures
        derefs(s.push(x)) == derefs(s).push(*x),
{
    assert(derefs(s.push(x)) =~= derefs(s).push(*x));
}

/// Sorts the fields of a module by section, keeping their order.
pub fn collect_fields<'a>(fields: &'a [ModuleField]) -> (lists: FieldLists<'a>)
    requires
        forall|i: int| 0 <= i < fields@.len() ==> field_encodable(#[trigger] fields@[i]),
    ensures
        lists.sorts(fields@),
        lists.items_encodable(),
{
    let mut lists = FieldLists {
        types: Vec::new(),
        imports: Vec::new(),
        funcs: Vec::new(),
        tables: Vec::new(),
        memories: Vec::new(),
        globals: Vec::new(),
        exports: Vec::new(),
        start: Vec::new(),
        elem: Vec::new(),
        data: Vec::new(),
        tags: Vec::new(),
        customs: Vec::new(),
    };
    let mut i: usize = 0;
    proof {
        assert(fields@.take(0) =~= Seq::<ModuleField>::empty());
        assert(encodings(lists.types@) =~= Seq::<Seq<u8>>::empty());
        assert(encodings(lists.imports@) =~= Seq::<Seq<u8>>::empty());
        assert(encodings(lists.tables@) =~= Seq::<Seq<u8>>::empty());
        assert(encodings(lists.memories@) =~= Seq::<Seq<u8>>::empty());
        assert(encodings(lists.globals@) =~= Seq::<Seq<u8>>::empty());
        assert(encodings(lists.exports@) =~= Seq::<Seq<u8>>::empty());
        assert(encodings(lists.start@) =~= Seq::<Seq<u8>>::empty());
        assert(encodings(lists.elem@) =~= Seq::<Seq<u8>>::empty());
        assert(encodings(lists.data@) =~= Seq::<Seq<u8>>::empty());
        assert(encodings(lists.tags@) =~= Seq::<Seq<u8>>::empty());
        assert(derefs(lists.funcs@) =~= Seq::<Func>::empty());
        assert(derefs(lists.imports@) =~= Seq::<Import>::empty());
        assert(derefs(lists.start@) =~= Seq::<Index>::empty());
        assert(derefs(lists.customs@) =~= Seq::<Custom>::empty());
    }
    while i < fields.len()
        invariant
            i <= fields@.len(),
            forall|j: int| 0 <= j < fields@.len() ==> field_encodable(#[trigger] fields@[j]),
            lists.sorts(fields@.take(i as int)),
            lists.items_encodable(),
        decreases fields@.len() - i,
    {
        let field = &fields[i];
        proof {
            assert(fields@.take(i + 1).drop_last() == fields@.take(i as int));
            assert(fields@.take(i + 1).last() == *field);
            assert(field_encodable(*field));
        }
        match field {
            ModuleField::Type(x) => {
                proof { lemma_push_encodings(lists.types@, RecOrType::Type(x)); }
                lists.types.push(RecOrType::Type(x));
            },
            ModuleField::Rec(x) => {
                proof { lemma_push_encodings(lists.types@, RecOrType::Rec(x)); }
                lists.types.push(RecOrType::Rec(x));
            },
            ModuleField::Import(x) => {
                proof {
                    lemma_push_encodings(lists.imports@, x);
                    lemma_push_derefs(lists.imports@, x);
                }
                lists.imports.push(x);
            },
            ModuleField::Func(x) => {
                proof { lemma_push_derefs(lists.funcs@, x); }
                lists.funcs.push(x);
            },
            ModuleField::Table(x) => {
                proof { lemma_push_encodings(lists.tables@, x); }
                lists.tables.push(x);
            },
            ModuleField::Memory(x) => {
                proof { lemma_push_encodings(lists.memories@, x); }
                lists.memories.push(x);
            },
            ModuleField::Global(x) => {
                proof { lemma_push_encodings(lists.globals@, x); }
                lists.globals.push(x);
            },
            ModuleField::Export(x) => {
                proof { lemma_push_encodings(lists.exports@, x); }
                lists.exports.push(x);
            },
            ModuleField::Start(x) => {
                proof {
                    lemma_push_encodings(lists.start@, x);
                    lemma_push_derefs(lists.start@, x);
                }
                lists.start.push(x);
            },
            ModuleField::Elem(x) => {
                proof { lemma_push_encodings(lists.elem@, x); }
                lists.elem.push(x);
            },
            ModuleField::Data(x) => {
                proof { lemma_push_encodings(lists.data@, x); }
                lists.data.push(x);
            },
            ModuleField::Tag(x) => {
                proof { lemma_push_encodings(lists.tags@, x); }
                lists.tags.push(x);
            },
            ModuleField::Custom(x) => {
                proof { lemma_push_derefs(lists.customs@, x); }
                lists.customs.push(x);
            },
        }
        i = i + 1;
    }
    assert(fields@.take(i as int) == fields@);
    lists
}

/// Whether a function body holds an instruction that needs the data count
/// section.
pub open spec fn func_needs_data_count(f: Func) -> bool {
    f.kind matches FuncKind::Inline { expression, .. } && exists|j: int|
        0 <= j < expression.instrs@.len() && (#[trigger] expression.instrs@[j]).spec_needs_data_count()
}

/// Whether some function body needs the data count section.
pub open spec fn spec_needs_data_count(funcs: Seq<Func>) -> bool {
    exists|i: int| 0 <= i < funcs.len() && func_needs_data_count(#[trigger] funcs[i])
}

/// Whether some function body uses an instruction that needs the data
/// count section.
fn needs_data_count(funcs: &[&Func]) -> (r: bool)
    ensures
        r == spec_needs_data_count(derefs(funcs@)),
{
    let ghost fs = derefs(funcs@);
    let mut i: usize = 0;
    while i < funcs.len()
        invariant
            i <= funcs@.len(),
            fs == derefs(funcs@),
            forall|k: int| 0 <= k < i ==> !func_needs_data_count(#[trigger] fs[k]),
        decreases funcs@.len() - i,
    {
        let f = funcs[i];
        assert(fs[i as int] == *f);
        if let FuncKind::Inline { expression, .. } = &f.kind {
            let mut j: usize = 0;
            while j < expression.instrs.len()
                invariant
                    j <= expression.instrs@.len(),
                    i < funcs@.len(),
                    fs == derefs(funcs@),
                    fs[i as int] == *f,
                    f.kind matches FuncKind::Inline { expression: x, .. } && x == *expression,
                    forall|k: int|
                        0 <= k < j ==> !(#[trigger] expression.instrs@[k]).spec_needs_data_count(),
                decreases expression.instrs@.len() - j,
            {
                if expression.instrs[j].needs_data_count() {
                    assert(func_needs_data_count(fs[i as int]));
                    return true;
                }
                j = j + 1;
            }
        }
        assert(!func_needs_data_count(fs[i as int]));
        i = i + 1;
    }
    false
}

/// A section of items, present when there is at least one: the number of
/// items, then each.
pub open spec fn items_section(id: u8, items: Seq<Seq<u8>>) -> Seq<u8> {
    if items.len() > 0 {
        section_bytes(id, leb_unsigned(items.len()) + flatten(items))
    } else {
        seq![]
    }
}

/// The items of a section fit in it.
pub open spec fn section_fits(items: Seq<Seq<u8>>) -> bool {
    items.len() <= u32::MAX && (leb_unsigned(items.len()) + flatten(items)).len() <= u32::MAX
}

/// The module header: the magic number `\0asm`, then version 1.
pub open spec fn module_header() -> Seq<u8> {
    seq![0x00u8, 0x61u8, 0x73u8, 0x6du8, 0x01u8, 0x00u8, 0x00u8, 0x00u8]
}

/// The start section: the first start function, if there is one.
pub open spec fn start_section(starts: Seq<Index>) -> Seq<u8> {
    if starts.len() > 0 {
        section_bytes(8, starts[0].encoding())
    } else {
        seq![]
    }
}

/// The data count section, present when some function body needs it: the
/// number of data segments.
pub open spec fn data_count_section(fields: Seq<ModuleField>) -> Seq<u8> {
    if spec_needs_data_count(module_funcs(fields)) {
        section_bytes(12, leb_unsigned(section_items(fields, CustomPlaceAnchor::Data).len()))
    } else {
        seq![]
    }
}

/// The name section, present when there is a name: the name `name`, then
/// the subsections.
pub open spec fn name_section(
    module_id: Option<Id>,
    module_name: Option<NameAnnotation>,
    fields: Seq<ModuleField>,
) -> Seq<u8> {
    let module = spec_get_name(module_id, module_name);
    let es = name_entries(fields);
    if names_absent(module, es) {
        seq![]
    } else {
        section_bytes(0, name_encoding("name"@) + names_content(module, es))
    }
}

/// The type, import, function, table, memory, tag, global and export
/// sections, each surrounded by the custom sections placed before and after
/// it, appended to `acc`.
#[verifier::opaque]
pub open spec fn with_leading_sections(acc: Seq<u8>, c: Seq<Custom>, fields: Seq<ModuleField>) -> Seq<u8> {
    acc + customs_at(c, CustomPlace::Before(CustomPlaceAnchor::Type)) + items_section(
        1,
        section_items(fields, CustomPlaceAnchor::Type),
    ) + customs_at(c, CustomPlace::After(CustomPlaceAnchor::Type)) + customs_at(
        c,
        CustomPlace::Before(CustomPlaceAnchor::Import),
    ) + items_section(2, section_items(fields, CustomPlaceAnchor::Import)) + customs_at(
        c,
        CustomPlace::After(CustomPlaceAnchor::Import),
    ) + customs_at(c, CustomPlace::Before(CustomPlaceAnchor::Func)) + items_section(
        3,
        section_items(fields, CustomPlaceAnchor::Func),
    ) + customs_at(c, CustomPlace::After(CustomPlaceAnchor::Func)) + customs_at(
        c,
        CustomPlace::Before(CustomPlaceAnchor::Table),
    ) + items_section(4, section_items(fields, CustomPlaceAnchor::Table)) + customs_at(
        c,
        CustomPlace::After(CustomPlaceAnchor::Table),
    ) + customs_at(c, CustomPlace::Before(CustomPlaceAnchor::Memory)) + items_section(
        5,
        section_items(fields, CustomPlaceAnchor::Memory),
    ) + customs_at(c, CustomPlace::After(CustomPlaceAnchor::Memory)) + customs_at(
        c,
        CustomPlace::Before(CustomPlaceAnchor::Tag),
    ) + items_section(13, section_items(fields, CustomPlaceAnchor::Tag)) + customs_at(
        c,
        CustomPlace::After(CustomPlaceAnchor::Tag),
    ) + customs_at(c, CustomPlace::Before(CustomPlaceAnchor::Global)) + items_section(
        6,
        section_items(fields, CustomPlaceAnchor::Global),
    ) + customs_at(c, CustomPlace::After(CustomPlaceAnchor::Global)) + customs_at(
        c,
        CustomPlace::Before(CustomPlaceAnchor::Export),
    ) + items_section(7, section_items(fields, CustomPlaceAnchor::Export)) + customs_at(
        c,
        CustomPlace::After(CustomPlaceAnchor::Export),
    )
}

/// The start and element sections, the data count section, the code
/// section (after the branch hint section) and the data section, each
/// surrounded by the custom sections placed before and after it, appended
/// to `acc`.
#[verifier::opaque]
pub open spec fn with_trailing_sections(acc: Seq<u8>, c: Seq<Custom>, fields: Seq<ModuleField>) -> Seq<u8> {
    acc + customs_at(c, CustomPlace::Before(CustomPlaceAnchor::Start)) + start_section(
        module_starts(fields),
    ) + customs_at(c, CustomPlace::After(CustomPlaceAnchor::Start)) + customs_at(
        c,
        CustomPlace::Before(CustomPlaceAnchor::Elem),
    ) + items_section(9, section_items(fields, CustomPlaceAnchor::Elem)) + customs_at(
        c,
        CustomPlace::After(CustomPlaceAnchor::Elem),
    ) + data_count_section(fields) + customs_at(c, CustomPlace::Before(CustomPlaceAnchor::Code))
        + code_core(module_funcs(fields), func_import_count(module_imports(fields)) as int)
        + customs_at(c, CustomPlace::After(CustomPlaceAnchor::Code)) + customs_at(
        c,
        CustomPlace::Before(CustomPlaceAnchor::Data),
    ) + items_section(11, section_items(fields, CustomPlaceAnchor::Data)) + customs_at(
        c,
        CustomPlace::After(CustomPlaceAnchor::Data),
    )
}

/// The binary encoding of a module: the header; the custom sections placed
/// first; then, each surrounded by the custom sections placed before and
/// after it, the type, import, function, table, memory, tag, global,
/// export, start and element sections, the data count section, the code
/// section (with the branch hint section before it) and the data section;
/// the name section; and the custom sections placed last.
pub open spec fn module_bytes(
    module_id: Option<Id>,
    module_name: Option<NameAnnotation>,
    fields: Seq<ModuleField>,
) -> Seq<u8> {
    let c = module_customs(fields);
    with_trailing_sections(
        with_leading_sections(module_header() + customs_at(c, CustomPlace::BeforeFirst), c, fields),
        c,
        fields,
    ) + name_section(module_id, module_name, fields) + customs_at(c, CustomPlace::AfterLast)
}

/// A module can be emitted: every field can, every section fits in 32 bits,
/// and the names can be collected.
pub open spec fn module_encodable(
    module_id: Option<Id>,
    module_name: Option<NameAnnotation>,
    fields: Seq<ModuleField>,
) -> bool {
    let module = spec_get_name(module_id, module_name);
    let es = name_entries(fields);
    &&& forall|i: int| 0 <= i < fields.len() ==> field_encodable(#[trigger] fields[i])
    &&& module_encodable_sections(fields)
    &&& names_collectable(fields)
    &&& names_fit(module, es)
    &&& (name_encoding("name"@) + names_content(module, es)).len() <= u32::MAX
}

/// The type encodings of functions.
pub open spec fn func_type_encodings(funcs: Seq<Func>) -> Seq<Seq<u8>> {
    funcs.map_values(|f: Func| f.ty.encoding())
}

proof fn lemma_func_section_items(fields: Seq<ModuleField>)
    ensures
        section_items(fields, CustomPlaceAnchor::Func) == func_type_encodings(module_funcs(fields)),
    decreases fields.len(),
{
    if fields.len() > 0 {
        lemma_func_section_items(fields.drop_last());
        assert(func_type_encodings(module_funcs(fields)) =~= match fields.last() {
            ModuleField::Func(f) => func_type_encodings(module_funcs(fields.drop_last())).push(
                f.ty.encoding(),
            ),
            _ => func_type_encodings(module_funcs(fields.drop_last())),
        });
    }
}

proof fn lemma_items_section<T: Encode>(list: Vec<T>, id: u8, items: Seq<Seq<u8>>)
    requires
        encodings(list@) == items,
        section_fits(items),
        all_encodable(list@),
    ensures
        list@.len() > 0 ==> list.encodable() && list.encoding().len() <= u32::MAX,
        (if list@.len() > 0 {
            section_bytes(id, list.encoding())
        } else {
            seq![]
        }) == items_section(id, items),
{
    lemma_items_encoding_flatten(list@);
    assert(list@.len() == items.len());
}

proof fn lemma_leb_len(v: nat)
    ensures
        leb_unsigned(v).len() <= 1 + v / 128,
    decreases v,
{
    if v >= 128 {
        lemma_leb_len(v / 128);
        assert(v / 128 / 128 <= v / 128 - 1);
    }
}

/// What emission needs of the sections that `fields` sorts into `lists`.
pub open spec fn lists_ready<'a>(lists: FieldLists<'a>, fields: Seq<ModuleField>) -> bool {
    &&& lists.sorts(fields)
    &&& lists.items_encodable()
    &&& module_encodable_sections(fields)
}

/// Every section of the items of `fields` fits, and so does the code section.
pub open spec fn module_encodable_sections(fields: Seq<ModuleField>) -> bool {
    let starts = module_starts(fields);
    &&& section_fits(section_items(fields, CustomPlaceAnchor::Type))
    &&& section_fits(section_items(fields, CustomPlaceAnchor::Import))
    &&& section_fits(section_items(fields, CustomPlaceAnchor::Func))
    &&& section_fits(section_items(fields, CustomPlaceAnchor::Table))
    &&& section_fits(section_items(fields, CustomPlaceAnchor::Memory))
    &&& section_fits(section_items(fields, CustomPlaceAnchor::Tag))
    &&& section_fits(section_items(fields, CustomPlaceAnchor::Global))
    &&& section_fits(section_items(fields, CustomPlaceAnchor::Export))
    &&& section_fits(section_items(fields, CustomPlaceAnchor::Elem))
    &&& section_fits(section_items(fields, CustomPlaceAnchor::Data))
    &&& (starts.len() > 0 ==> starts[0].encodable() && starts[0].encoding().len() <= u32::MAX)
    &&& code_section_encodable(module_funcs(fields), func_import_count(module_imports(fields)) as int)
}

/// Appends the sections from the type section through the export section.
#[verifier::spinoff_prover]
fn emit_leading_sections<'a>(e: &mut Encoder<'a>, fields: &[ModuleField], lists: &FieldLists<'a>)
    requires
        old(e).customs_encodable(),
        old(e).customs_view() == module_customs(fields@),
        lists_ready(*lists, fields@),
    ensures
        final(e).wasm@ == with_leading_sections(old(e).wasm@, module_customs(fields@), fields@),
        final(e).customs == old(e).customs,
{
    reveal(with_leading_sections);
    let ghost fs = fields@;
    proof {
        lemma_items_section(lists.types, 1, section_items(fs, CustomPlaceAnchor::Type));
        lemma_items_section(lists.imports, 2, section_items(fs, CustomPlaceAnchor::Import));
        lemma_items_section(lists.tables, 4, section_items(fs, CustomPlaceAnchor::Table));
        lemma_items_section(lists.memories, 5, section_items(fs, CustomPlaceAnchor::Memory));
        lemma_items_section(lists.tags, 13, section_items(fs, CustomPlaceAnchor::Tag));
        lemma_items_section(lists.globals, 6, section_items(fs, CustomPlaceAnchor::Global));
        lemma_items_section(lists.exports, 7, section_items(fs, CustomPlaceAnchor::Export));
    }
    e.section_list(1, CustomPlaceAnchor::Type, &lists.types);
    e.section_list(2, CustomPlaceAnchor::Import, &lists.imports);
    let mut functys: Vec<&TypeUse> = Vec::new();
    let mut i: usize = 0;
    while i < lists.funcs.len()
        invariant
            i <= lists.funcs@.len(),
            forall|k: int| 0 <= k < lists.funcs@.len() ==> (#[trigger] lists.funcs@[k]).ty.encodable(),
            encodings(functys@) == func_type_encodings(derefs(lists.funcs@).take(i as int)),
            all_encodable(functys@),
        decreases lists.funcs@.len() - i,
    {
        let ty = &lists.funcs[i].ty;
        proof {
            lemma_push_encodings(functys@, ty);
            assert(func_type_encodings(derefs(lists.funcs@).take(i + 1)) =~= func_type_encodings(
                derefs(lists.funcs@).take(i as int),
            ).push(ty.encoding()));
        }
        functys.push(ty);
        i = i + 1;
    }
    proof {
        assert(derefs(lists.funcs@).take(i as int) == derefs(lists.funcs@));
        lemma_func_section_items(fs);
        lemma_items_section(functys, 3, section_items(fs, CustomPlaceAnchor::Func));
    }
    e.section_list(3, CustomPlaceAnchor::Func, &functys);
    e.section_list(4, CustomPlaceAnchor::Table, &lists.tables);
    e.section_list(5, CustomPlaceAnchor::Memory, &lists.memories);
    e.section_list(13, CustomPlaceAnchor::Tag, &lists.tags);
    e.section_list(6, CustomPlaceAnchor::Global, &lists.globals);
    e.section_list(7, CustomPlaceAnchor::Export, &lists.exports);
}

/// Appends the sections from the start section through the data section.
#[verifier::spinoff_prover]
fn emit_trailing_sections<'a>(e: &mut Encoder<'a>, fields: &[ModuleField], lists: &FieldLists<'a>)
    requires
        old(e).customs_encodable(),
        old(e).customs_view() == module_customs(fields@),
        lists_ready(*lists, fields@),
    ensures
        final(e).wasm@ == with_trailing_sections(old(e).wasm@, module_customs(fields@), fields@),
        final(e).customs == old(e).customs,
{
    reveal(with_trailing_sections);
    let ghost fs = fields@;
    proof {
        lemma_items_section(lists.elem, 9, section_items(fs, CustomPlaceAnchor::Elem));
        lemma_items_section(lists.data, 11, section_items(fs, CustomPlaceAnchor::Data));
    }
    e.custom_sections(CustomPlace::Before(CustomPlaceAnchor::Start));
    if lists.start.len() > 0 {
        let start = lists.start[0];
        assert(module_starts(fs)[0] == *start);
        e.section(8, start);
    }
    e.custom_sections(CustomPlace::After(CustomPlaceAnchor::Start));
    e.section_list(9, CustomPlaceAnchor::Elem, &lists.elem);
    if needs_data_count(lists.funcs.as_slice()) {
        let count = lists.data.len();
        proof {
            assert(encodings(lists.data@).len() == lists.data@.len());
            lemma_leb_len(count as nat);
        }
        e.section(12, &count);
    }
    e.code_section(lists.funcs.as_slice(), lists.imports.as_slice());
    e.section_list(11, CustomPlaceAnchor::Data, &lists.data);
}

/// Encodes a module in the binary format.
#[verifier::spinoff_prover]
pub fn encode(
    module_id: &Option<Id>,
    module_name: &Option<NameAnnotation>,
    fields: &[ModuleField],
) -> (wasm: Vec<u8>)
    requires
        module_encodable(*module_id, *module_name, fields@),
    ensures
        wasm@ == module_bytes(*module_id, *module_name, fields@),
{
    let ghost fs = fields@;
    let lists = collect_fields(fields);
    let mut e = Encoder { wasm: Vec::new(), tmp: Vec::new(), customs: lists.customs.as_slice() };
    assert(e.customs_view() == module_customs(fs));
    e.wasm.push(0x00);
    e.wasm.push(0x61);
    e.wasm.push(0x73);
    e.wasm.push(0x6d);
    e.wasm.push(0x01);
    e.wasm.push(0x00);
    e.wasm.push(0x00);
    e.wasm.push(0x00);
    assert(e.wasm@ =~= module_header());
    e.custom_sections(CustomPlace::BeforeFirst);
    emit_leading_sections(&mut e, fields, &lists);
    emit_trailing_sections(&mut e, fields, &lists);
    let names = find_names(module_id, module_name, fields);
    proof {
        lemma_names_view(&names, spec_get_name(*module_id, *module_name), name_entries(fs));
    }
    if !names.is_empty() {
        let name = "name";
        proof {
            reveal_strlit("name");
            lemma_utf8_len(name@);
        }
        let named = (name, names);
        e.section(0, &named);
    }
    e.custom_sections(CustomPlace::AfterLast);
    e.wasm
}

proof fn lemma_extends<A>(a: Seq<A>, b: Seq<A>, c: Seq<A>)
    requires
        a.is_prefix_of(b),
    ensures
        a.is_prefix_of(b + c),
{
    assert(a =~= (b + c).subrange(0, a.len() as int));
}

proof fn lemma_prefix_trans<A>(a: Seq<A>, b: Seq<A>, c: Seq<A>)
    requires
        a.is_prefix_of(b),
        b.is_prefix_of(c),
    ensures
        a.is_prefix_of(c),
{
    assert(a =~= c.subrange(0, a.len() as int));
}

proof fn lemma_leading_extends(acc: Seq<u8>, c: Seq<Custom>, fields: Seq<ModuleField>)
    ensures
        acc.is_prefix_of(with_leading_sections(acc, c, fields)),
{
    reveal(with_leading_sections);
    let s0 = acc;
    assert(acc.is_prefix_of(s0)) by {
        assert(acc =~= acc.subrange(0, acc.len() as int));
    }
    let s1 = s0 + customs_at(c, CustomPlace::Before(CustomPlaceAnchor::Type));
    lemma_extends(acc, s0, customs_at(c, CustomPlace::Before(CustomPlaceAnchor::Type)));
    let s2 = s1 + items_section(1, section_items(fields, CustomPlaceAnchor::Type));
    lemma_extends(acc, s1, items_section(1, section_items(fields, CustomPlaceAnchor::Type)));
    let s3 = s2 + customs_at(c, CustomPlace::After(CustomPlaceAnchor::Type));
    lemma_extends(acc, s2, customs_at(c, CustomPlace::After(CustomPlaceAnchor::Type)));
    let s4 = s3 + customs_at(c, CustomPlace::Before(CustomPlaceAnchor::Import));
    lemma_extends(acc, s3, customs_at(c, CustomPlace::Before(CustomPlaceAnchor::Import)));
    let s5 = s4 + items_section(2, section_items(fields, CustomPlaceAnchor::Import));
    lemma_extends(acc, s4, items_section(2, section_items(fields, CustomPlaceAnchor::Import)));
    let s6 = s5 + customs_at(c, CustomPlace::After(CustomPlaceAnchor::Import));
    lemma_extends(acc, s5, customs_at(c, CustomPlace::After(CustomPlaceAnchor::Import)));
    let s7 = s6 + customs_at(c, CustomPlace::Before(CustomPlaceAnchor::Func));
    lemma_extends(acc, s6, customs_at(c, CustomPlace::Before(CustomPlaceAnchor::Func)));
    let s8 = s7 + items_section(3, section_items(fields, CustomPlaceAnchor::Func));
    lemma_extends(acc, s7, items_section(3, section_items(fields, CustomPlaceAnchor::Func)));
    let s9 = s8 + customs_at(c, CustomPlace::After(CustomPlaceAnchor::Func));
    lemma_extends(acc, s8, customs_at(c, CustomPlace::After(CustomPlaceAnchor::Func)));
    let s10 = s9 + customs_at(c, CustomPlace::Before(CustomPlaceAnchor::Table));
    lemma_extends(acc, s9, customs_at(c, CustomPlace::Before(CustomPlaceAnchor::Table)));
    let s11 = s10 + items_section(4, section_items(fields, CustomPlaceAnchor::Table));
    lemma_extends(acc, s10, items_section(4, section_items(fields, CustomPlaceAnchor::Table)));
    let s12 = s11 + customs_at(c, CustomPlace::After(CustomPlaceAnchor::Table));
    lemma_extends(acc, s11, customs_at(c, CustomPlace::After(CustomPlaceAnchor::Table)));
    let s13 = s12 + customs_at(c, CustomPlace::Before(CustomPlaceAnchor::Memory));
    lemma_extends(acc, s12, customs_at(c, CustomPlace::Before(CustomPlaceAnchor::Memory)));
    let s14 = s13 + items_section(5, section_items(fields, CustomPlaceAnchor::Memory));
    lemma_extends(acc, s13, items_section(5, section_items(fields, CustomPlaceAnchor::Memory)));
    let s15 = s14 + customs_at(c, CustomPlace::After(CustomPlaceAnchor::Memory));
    lemma_extends(acc, s14, customs_at(c, CustomPlace::After(CustomPlaceAnchor::Memory)));
    let s16 = s15 + customs_at(c, CustomPlace::Before(CustomPlaceAnchor::Tag));
    lemma_extends(acc, s15, customs_at(c, CustomPlace::Before(CustomPlaceAnchor::Tag)));
    let s17 = s16 + items_section(13, section_items(fields, CustomPlaceAnchor::Tag));
    lemma_extends(acc, s16, items_section(13, section_items(fields, CustomPlaceAnchor::Tag)));
    let s18 = s17 + customs_at(c, CustomPlace::After(CustomPlaceAnchor::Tag));
    lemma_extends(acc, s17, customs_at(c, CustomPlace::After(CustomPlaceAnchor::Tag)));
    let s19 = s18 + customs_at(c, CustomPlace::Before(CustomPlaceAnchor::Global));
    lemma_extends(acc, s18, customs_at(c, CustomPlace::Before(CustomPlaceAnchor::Global)));
    let s20 = s19 + items_section(6, section_items(fields, CustomPlaceAnchor::Global));
    lemma_extends(acc, s19, items_section(6, section_items(fields, CustomPlaceAnchor::Global)));
    let s21 = s20 + customs_at(c, CustomPlace::After(CustomPlaceAnchor::Global));
    lemma_extends(acc, s20, customs_at(c, CustomPlace::After(CustomPlaceAnchor::Global)));
    let s22 = s21 + customs_at(c, CustomPlace::Before(CustomPlaceAnchor::Export));
    lemma_extends(acc, s21, customs_at(c, CustomPlace::Before(CustomPlaceAnchor::Export)));
    let s23 = s22 + items_section(7, section_items(fields, CustomPlaceAnchor::Export));
    lemma_extends(acc, s22, items_section(7, section_items(fields, CustomPlaceAnchor::Export)));
    let s24 = s23 + customs_at(c, CustomPlace::After(CustomPlaceAnchor::Export));
    lemma_extends(acc, s23, customs_at(c, CustomPlace::After(CustomPlaceAnchor::Export)));
    assert(with_leading_sections(acc, c, fields) == s24);
}

proof fn lemma_trailing_extends(acc: Seq<u8>, c: Seq<Custom>, fields: Seq<ModuleField>)
    ensures
        acc.is_prefix_of(with_trailing_sections(acc, c, fields)),
{
    reveal(with_trailing_sections);
    let s0 = acc;
    assert(acc.is_prefix_of(s0)) by {
        assert(acc =~= acc.subrange(0, acc.len() as int));
    }
    let s1 = s0 + customs_at(c, CustomPlace::Before(CustomPlaceAnchor::Start));
    lemma_extends(acc, s0, customs_at(c, CustomPlace::Before(CustomPlaceAnchor::Start)));
    let s2 = s1 + start_section(module_starts(fields));
    lemma_extends(acc, s1, start_section(module_starts(fields)));
    let s3 = s2 + customs_at(c, CustomPlace::After(CustomPlaceAnchor::Start));
    lemma_extends(acc, s2, customs_at(c, CustomPlace::After(CustomPlaceAnchor::Start)));
    let s4 = s3 + customs_at(c, CustomPlace::Before(CustomPlaceAnchor::Elem));
    lemma_extends(acc, s3, customs_at(c, CustomPlace::Before(CustomPlaceAnchor::Elem)));
    let s5 = s4 + items_section(9, section_items(fields, CustomPlaceAnchor::Elem));
    lemma_extends(acc, s4, items_section(9, section_items(fields, CustomPlaceAnchor::Elem)));
    let s6 = s5 + customs_at(c, CustomPlace::After(CustomPlaceAnchor::Elem));
    lemma_extends(acc, s5, customs_at(c, CustomPlace::After(CustomPlaceAnchor::Elem)));
    let s7 = s6 + data_count_section(fields);
    lemma_extends(acc, s6, data_count_section(fields));
    let s8 = s7 + customs_at(c, CustomPlace::Before(CustomPlaceAnchor::Code));
    lemma_extends(acc, s7, customs_at(c, CustomPlace::Before(CustomPlaceAnchor::Code)));
    let s9 = s8 + code_core(module_funcs(fields), func_import_count(module_imports(fields)) as int);
    lemma_extends(acc, s8, code_core(module_funcs(fields), func_import_count(module_imports(fields)) as int));
    let s10 = s9 + customs_at(c, CustomPlace::After(CustomPlaceAnchor::Code));
    lemma_extends(acc, s9, customs_at(c, CustomPlace::After(CustomPlaceAnchor::Code)));
    let s11 = s10 + customs_at(c, CustomPlace::Before(CustomPlaceAnchor::Data));
    lemma_extends(acc, s10, customs_at(c, CustomPlace::Before(CustomPlaceAnchor::Data)));
    let s12 = s11 + items_section(11, section_items(fields, CustomPlaceAnchor::Data));
    lemma_extends(acc, s11, items_section(11, section_items(fields, CustomPlaceAnchor::Data)));
    let s13 = s12 + customs_at(c, CustomPlace::After(CustomPlaceAnchor::Data));
    lemma_extends(acc, s12, customs_at(c, CustomPlace::After(CustomPlaceAnchor::Data)));
    assert(with_trailing_sections(acc, c, fields) == s13);
}

/// Every module starts with the header: the magic number `\0asm` and
/// version 1.
#[verifier::spinoff_prover]
pub proof fn lemma_module_starts_with_header(
    module_id: Option<Id>,
    module_name: Option<NameAnnotation>,
    fields: Seq<ModuleField>,
)
    ensures
        module_bytes(module_id, module_name, fields).len() >= 8,
        module_bytes(module_id, module_name, fields).take(8) == module_header(),
{
    let c = module_customs(fields);
    let h = module_header();
    let a0 = h + customs_at(c, CustomPlace::BeforeFirst);
    assert(h.is_prefix_of(h)) by {
        assert(h =~= h.subrange(0, h.len() as int));
    }
    lemma_extends(h, h, customs_at(c, CustomPlace::BeforeFirst));
    let a1 = with_leading_sections(a0, c, fields);
    lemma_leading_extends(a0, c, fields);
    let a2 = with_trailing_sections(a1, c, fields);
    lemma_trailing_extends(a1, c, fields);
    let a3 = a2 + name_section(module_id, module_name, fields);
    assert(a2.is_prefix_of(a2)) by {
        assert(a2 =~= a2.subrange(0, a2.len() as int));
    }
    lemma_extends(a2, a2, name_section(module_id, module_name, fields));
    assert(a3.is_prefix_of(a3)) by {
        assert(a3 =~= a3.subrange(0, a3.len() as int));
    }
    lemma_extends(a3, a3, customs_at(c, CustomPlace::AfterLast));
    let b = module_bytes(module_id, module_name, fields);
    assert(b == a3 + customs_at(c, CustomPlace::AfterLast));
    lemma_prefix_trans(h, a0, a1);
    lemma_prefix_trans(h, a1, a2);
    lemma_prefix_trans(h, a2, a3);
    lemma_prefix_trans(h, a3, b);
    assert(b.take(8) =~= h);
}

/// Whether a field is an item of the section of `anchor`, for the sections
/// that hold the items of one kind of field.
pub open spec fn is_item_of(field: ModuleField, anchor: CustomPlaceAnchor) -> bool {
    match anchor {
        CustomPlaceAnchor::Type => field is Type || field is Rec,
        CustomPlaceAnchor::Import => field is Import,
        CustomPlaceAnchor::Table => field is Table,
        CustomPlaceAnchor::Memory => field is Memory,
        CustomPlaceAnchor::Global => field is Global,
        CustomPlaceAnchor::Export => field is Export,
        CustomPlaceAnchor::Elem => field is Elem,
        CustomPlaceAnchor::Data => field is Data,
        CustomPlaceAnchor::Tag => field is Tag,
        _ => false,
    }
}

proof fn lemma_single_section_parts(fields: Seq<ModuleField>, anchor: CustomPlaceAnchor)
    requires
        forall|i: int| 0 <= i < fields.len() ==> is_item_of(#[trigger] fields[i], anchor),
    ensures
        section_items(fields, anchor).len() == fields.len(),
        forall|a: CustomPlaceAnchor| a != anchor ==> #[trigger] section_items(fields, a).len() == 0,
        module_funcs(fields).len() == 0,
        module_starts(fields).len() == 0,
        module_customs(fields).len() == 0,
    decreases fields.len(),
{
    if fields.len() > 0 {
        let pre = fields.drop_last();
        assert forall|i: int| 0 <= i < pre.len() implies is_item_of(#[trigger] pre[i], anchor) by {
            assert(pre[i] == fields[i]);
        }
        lemma_single_section_parts(pre, anchor);
        assert(is_item_of(fields[fields.len() - 1], anchor));
        assert forall|a: CustomPlaceAnchor| a != anchor implies #[trigger] section_items(
            fields,
            a,
        ).len() == 0 by {
            assert(section_items(pre, a).len() == 0);
        }
    }
}

/// A module whose fields are all items of one section is the header, then
/// that section under its fixed id (1 types, 2 imports, 4 tables, 5
/// memories, 6 globals, 7 exports, 9 element segments, 11 data segments, 13
/// tags) holding one item per field, then the name section.
#[verifier::spinoff_prover]
pub proof fn lemma_single_section_module(fields: Seq<ModuleField>, anchor: CustomPlaceAnchor)
    requires
        fields.len() > 0,
        forall|i: int| 0 <= i < fields.len() ==> is_item_of(#[trigger] fields[i], anchor),
    ensures
        section_items(fields, anchor).len() == fields.len(),
        module_bytes(None, None, fields) == module_header() + section_bytes(
            match anchor {
                CustomPlaceAnchor::Type => 1u8,
                CustomPlaceAnchor::Import => 2u8,
                CustomPlaceAnchor::Table => 4u8,
                CustomPlaceAnchor::Memory => 5u8,
                CustomPlaceAnchor::Global => 6u8,
                CustomPlaceAnchor::Export => 7u8,
                CustomPlaceAnchor::Elem => 9u8,
                CustomPlaceAnchor::Data => 11u8,
                CustomPlaceAnchor::Tag => 13u8,
                _ => 0u8,
            },
            leb_unsigned(fields.len()) + flatten(section_items(fields, anchor)),
        ) + name_section(None, None, fields),
{
    reveal(with_leading_sections);
    reveal(with_trailing_sections);
    lemma_single_section_parts(fields, anchor);
    assert(is_item_of(fields[0], anchor));
    let c = module_customs(fields);
    assert forall|p: CustomPlace| #[trigger] customs_at(c, p) == Seq::<u8>::empty() by {}
    assert(code_core(module_funcs(fields), func_import_count(module_imports(fields)) as int)
        == Seq::<u8>::empty());
    assert(!spec_needs_data_count(module_funcs(fields)));
    assert(start_section(module_starts(fields)) == Seq::<u8>::empty());
    let t = section_items(fields, CustomPlaceAnchor::Type);
    let im = section_items(fields, CustomPlaceAnchor::Import);
    let f = section_items(fields, CustomPlaceAnchor::Func);
    let ta = section_items(fields, CustomPlaceAnchor::Table);
    let m = section_items(fields, CustomPlaceAnchor::Memory);
    let g = section_items(fields, CustomPlaceAnchor::Global);
    let x = section_items(fields, CustomPlaceAnchor::Export);
    let el = section_items(fields, CustomPlaceAnchor::Elem);
    let d = section_items(fields, CustomPlaceAnchor::Data);
    let tg = section_items(fields, CustomPlaceAnchor::Tag);
    assert(module_bytes(None, None, fields) =~= module_header() + items_section(1, t)
        + items_section(2, im) + items_section(3, f) + items_section(4, ta) + items_section(5, m)
        + items_section(13, tg) + items_section(6, g) + items_section(7, x) + items_section(9, el)
        + items_section(11, d) + name_section(None, None, fields));
}

proof fn lemma_funcs_only_parts(fields: Seq<ModuleField>)
    requires
        forall|i: int| 0 <= i < fields.len() ==> (#[trigger] fields[i]) is Func,
    ensures
        module_funcs(fields).len() == fields.len(),
        forall|a: CustomPlaceAnchor|
            a != CustomPlaceAnchor::Func ==> #[trigger] section_items(fields, a).len() == 0,
        module_imports(fields).len() == 0,
        module_starts(fields).len() == 0,
        module_customs(fields).len() == 0,
    decreases fields.len(),
{
    if fields.len() > 0 {
        let pre = fields.drop_last();
        assert forall|i: int| 0 <= i < pre.len() implies (#[trigger] pre[i]) is Func by {
            assert(pre[i] == fields[i]);
        }
        lemma_funcs_only_parts(pre);
        assert(fields[fields.len() - 1] is Func);
        assert forall|a: CustomPlaceAnchor| a != CustomPlaceAnchor::Func implies #[trigger] section_items(
            fields,
            a,
        ).len() == 0 by {
            assert(section_items(pre, a).len() == 0);
        }
    }
}

proof fn lemma_funcs_only_leading(acc: Seq<u8>, fields: Seq<ModuleField>)
    requires
        forall|i: int| 0 <= i < fields.len() ==> (#[trigger] fields[i]) is Func,
    ensures
        with_leading_sections(acc, module_customs(fields), fields) == acc + items_section(
            3,
            func_type_encodings(module_funcs(fields)),
        ),
{
    reveal(with_leading_sections);
    lemma_funcs_only_parts(fields);
    lemma_func_section_items(fields);
    let c = module_customs(fields);
    assert forall|p: CustomPlace| #[trigger] customs_at(c, p) == Seq::<u8>::empty() by {}
    let e = Seq::<u8>::empty();
    assert(items_section(1, section_items(fields, CustomPlaceAnchor::Type)) == e);
    assert(items_section(2, section_items(fields, CustomPlaceAnchor::Import)) == e);
    assert(items_section(4, section_items(fields, CustomPlaceAnchor::Table)) == e);
    assert(items_section(5, section_items(fields, CustomPlaceAnchor::Memory)) == e);
    assert(items_section(13, section_items(fields, CustomPlaceAnchor::Tag)) == e);
    assert(items_section(6, section_items(fields, CustomPlaceAnchor::Global)) == e);
    assert(items_section(7, section_items(fields, CustomPlaceAnchor::Export)) == e);
    assert(with_leading_sections(acc, c, fields) =~= acc + items_section(
        3,
        func_type_encodings(module_funcs(fields)),
    ));
}

proof fn lemma_funcs_only_trailing(acc: Seq<u8>, fields: Seq<ModuleField>)
    requires
        forall|i: int| 0 <= i < fields.len() ==> (#[trigger] fields[i]) is Func,
    ensures
        with_trailing_sections(acc, module_customs(fields), fields) == acc + data_count_section(
            fields,
        ) + code_core(module_funcs(fields), 0),
{
    reveal(with_trailing_sections);
    lemma_funcs_only_parts(fields);
    let c = module_customs(fields);
    assert forall|p: CustomPlace| #[trigger] customs_at(c, p) == Seq::<u8>::empty() by {}
    let e = Seq::<u8>::empty();
    assert(func_import_count(module_imports(fields)) == 0);
    assert(start_section(module_starts(fields)) == e);
    assert(items_section(9, section_items(fields, CustomPlaceAnchor::Elem)) == e);
    assert(items_section(11, section_items(fields, CustomPlaceAnchor::Data)) == e);
    assert(with_trailing_sections(acc, c, fields) =~= acc + data_count_section(fields) + code_core(
        module_funcs(fields),
        0,
    ));
}

/// A module whose fields are all functions is the header; the function
/// section (id 3) with the functions' types; the data count section (id
/// 12) saying there is no data segment, when a body needs it; the branch
/// hint section (a custom section, id 0) when some function has hints,
/// numbering the functions from 0; the code section (id 10) with the count
/// and the length-prefixed bodies; and the name section.
#[verifier::spinoff_prover]
pub proof fn lemma_funcs_only_module(fields: Seq<ModuleField>)
    requires
        fields.len() > 0,
        forall|i: int| 0 <= i < fields.len() ==> (#[trigger] fields[i]) is Func,
    ensures
        module_bytes(None, None, fields) == module_header() + (seq![3u8] + bytes_encoding(
            leb_unsigned(fields.len()) + flatten(func_type_encodings(module_funcs(fields))),
        )) + (if spec_needs_data_count(module_funcs(fields)) {
            seq![12u8] + bytes_encoding(leb_unsigned(0))
        } else {
            seq![]
        }) + (if hint_groups(module_funcs(fields), 0).len() > 0 {
            seq![0u8] + bytes_encoding(hint_section_content(hint_groups(module_funcs(fields), 0)))
        } else {
            seq![]
        }) + (seq![10u8] + bytes_encoding(
            leb_unsigned(fields.len()) + func_bodies(module_funcs(fields)),
        )) + name_section(None, None, fields),
{
    lemma_funcs_only_parts(fields);
    let funcs = module_funcs(fields);
    let c = module_customs(fields);
    let h = module_header();
    assert(customs_at(c, CustomPlace::BeforeFirst) == Seq::<u8>::empty());
    assert(customs_at(c, CustomPlace::AfterLast) == Seq::<u8>::empty());
    assert(section_items(fields, CustomPlaceAnchor::Data).len() == 0);
    assert(func_type_encodings(funcs).len() == fields.len());
    let fs = seq![3u8] + bytes_encoding(leb_unsigned(fields.len()) + flatten(func_type_encodings(funcs)));
    assert(items_section(3, func_type_encodings(funcs)) == fs);
    let dc = if spec_needs_data_count(funcs) {
        seq![12u8] + bytes_encoding(leb_unsigned(0))
    } else {
        seq![]
    };
    assert(data_count_section(fields) == dc);
    let hs = if hint_groups(funcs, 0).len() > 0 {
        seq![0u8] + bytes_encoding(hint_section_content(hint_groups(funcs, 0)))
    } else {
        seq![]
    };
    let cs = seq![10u8] + bytes_encoding(leb_unsigned(fields.len()) + func_bodies(funcs));
    assert(code_core(funcs, 0) == hs + cs);
    let a0 = h + customs_at(c, CustomPlace::BeforeFirst);
    assert(a0 == h);
    lemma_funcs_only_leading(a0, fields);
    let lead = with_leading_sections(a0, c, fields);
    assert(lead == h + fs);
    lemma_funcs_only_trailing(lead, fields);
    let trail = with_trailing_sections(lead, c, fields);
    assert(trail == h + fs + dc + (hs + cs));
    let ns = name_section(None, None, fields);
    assert(module_bytes(None, None, fields) == trail + ns + Seq::<u8>::empty());
    lemma_regroup(h, fs, dc, hs, cs, ns);
}

proof fn lemma_regroup(h: Seq<u8>, fs: Seq<u8>, dc: Seq<u8>, hs: Seq<u8>, cs: Seq<u8>, ns: Seq<u8>)
    ensures
        h + fs + dc + (hs + cs) + ns + Seq::<u8>::empty() == h + fs + dc + hs + cs + ns,
{
    assert(h + fs + dc + (hs + cs) + ns + Seq::<u8>::empty() =~= h + fs + dc + hs + cs + ns);
}

/// A module with no fields and no name is the header alone.
pub proof fn lemma_empty_module()
    ensures
        module_bytes(None, None, Seq::empty()) == module_header(),
{
    reveal(with_leading_sections);
    reveal(with_trailing_sections);
    let fields = Seq::<ModuleField>::empty();
    let c = module_customs(fields);
    assert(c.len() == 0);
    assert(names_absent(None, name_entries(fields)));
    assert(module_bytes(None, None, fields) =~= module_header());
}

} // verus!
