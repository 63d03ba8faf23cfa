//! Custom sections: raw ones, the producers section and the dynamic
//! linking section, and where each goes in a module.
use vstd::prelude::*;
use crate::leb::leb_unsigned;
use crate::encode::{Encode, bytes_encoding, lemma_bytes_items_encoding};

verus! {

/// The section next to which a custom section is placed.
#[derive(PartialEq, Eq, Structural, Clone, Copy, Debug)]
pub enum CustomPlaceAnchor {
    Type,
    Import,
    Func,
    Table,
    Memory,
    Global,
    Export,
    Start,
    Elem,
    Code,
    Data,
    Tag,
}

/// Where a custom section is placed in a module.
#[derive(PartialEq, Eq, Structural, Clone, Copy, Debug)]
pub enum CustomPlace {
    BeforeFirst,
    Before(CustomPlaceAnchor),
    After(CustomPlaceAnchor),
    AfterLast,
}

/// A custom section given as raw bytes.
pub struct RawCustomSection {
    pub place: CustomPlace,
    pub name: String,
    pub data: Vec<Vec<u8>>,
}

/// The `producers` section: fields, each with its list of names and
/// versions.
pub struct Producers {
    pub fields: Vec<(String, Vec<(String, String)>)>,
}

impl Encode for Producers {
    open spec fn encodable(&self) -> bool {
        self.fields.encodable()
    }

    open spec fn encoding(&self) -> Seq<u8> {
        self.fields.encoding()
    }

    fn encode(&self, e: &mut Vec<u8>) {
        self.fields.encode(e);
    }
}

/// A subsection of the `dylink.0` section.
pub enum Dylink0Subsection {
    MemInfo { memory_size: u32, memory_align: u32, table_size: u32, table_align: u32 },
    Needed(Vec<String>),
    ExportInfo(Vec<(String, u32)>),
    ImportInfo(Vec<(String, String, u32)>),
}

impl Dylink0Subsection {
    /// The subsection's id.
    pub open spec fn spec_id(&self) -> u8 {
        match self {
            Dylink0Subsection::MemInfo { .. } => 1,
            Dylink0Subsection::Needed(..) => 2,
            Dylink0Subsection::ExportInfo(..) => 3,
            Dylink0Subsection::ImportInfo(..) => 4,
        }
    }

    /// The subsection's id: 1 for memory info, 2 for needed libraries, 3 for
    /// export info, 4 for import info.
    pub fn id(&self) -> (r: u8)
        ensures
            r == self.spec_id(),
    {
        match self {
            Dylink0Subsection::MemInfo { .. } => 1,
            Dylink0Subsection::Needed(..) => 2,
            Dylink0Subsection::ExportInfo(..) => 3,
            Dylink0Subsection::ImportInfo(..) => 4,
        }
    }
}

impl Encode for Dylink0Subsection {
    open spec fn encodable(&self) -> bool {
        match self {
            Dylink0Subsection::MemInfo { .. } => true,
            Dylink0Subsection::Needed(libs) => libs.encodable(),
            Dylink0Subsection::ExportInfo(list) => list.encodable(),
            Dylink0Subsection::ImportInfo(list) => list.encodable(),
        }
    }

    open spec fn encoding(&self) -> Seq<u8> {
        match self {
            Dylink0Subsection::MemInfo { memory_size, memory_align, table_size, table_align } =>
                leb_unsigned(*memory_size as nat) + leb_unsigned(*memory_align as nat)
                + leb_unsigned(*table_size as nat) + leb_unsigned(*table_align as nat),
            Dylink0Subsection::Needed(libs) => libs.encoding(),
            Dylink0Subsection::ExportInfo(list) => list.encoding(),
            Dylink0Subsection::ImportInfo(list) => list.encoding(),
        }
    }

    fn encode(&self, e: &mut Vec<u8>) {
        match self {
            Dylink0Subsection::MemInfo { memory_size, memory_align, table_size, table_align } => {
                memory_size.encode(e);
                memory_align.encode(e);
                table_size.encode(e);
                table_align.encode(e);
            },
            Dylink0Subsection::Needed(libs) => libs.encode(e),
            Dylink0Subsection::ExportInfo(list) => list.encode(e),
            Dylink0Subsection::ImportInfo(list) => list.encode(e),
        }
    }
}

/// The `dylink.0` section.
pub struct Dylink0 {
    pub subsections: Vec<Dylink0Subsection>,
}

/// Subsections, each as its id, then its contents as a byte list.
pub open spec fn subsections_encoding(s: Seq<Dylink0Subsection>) -> Seq<u8>
    decreases s.len(),
{
    if s.len() == 0 {
        seq![]
    } else {
        subsections_encoding(s.drop_last()) + seq![s.last().spec_id()] + bytes_encoding(
            s.last().encoding(),
        )
    }
}

impl Encode for Dylink0 {
    open spec fn encodable(&self) -> bool {
        forall|i: int|
            0 <= i < self.subsections@.len() ==> (#[trigger] self.subsections@[i]).encodable()
                && self.subsections@[i].encoding().len() <= u32::MAX
    }

    open spec fn encoding(&self) -> Seq<u8> {
        subsections_encoding(self.subsections@)
    }

    fn encode(&self, e: &mut Vec<u8>) {
        let ghost start = e@;
        let mut i: usize = 0;
        while i < self.subsections.len()
            invariant
                i <= self.subsections@.len(),
                self.encodable(),
                e@ == start + subsections_encoding(self.subsections@.take(i as int)),
            decreases self.subsections@.len() - i,
        {
            let section = &self.subsections[i];
            assert(section.encodable());
            assert(self.subsections@.take(i + 1).drop_last() == self.subsections@.take(i as int));
            e.push(section.id());
            let mut tmp: Vec<u8> = Vec::new();
            section.encode(&mut tmp);
            proof {
                lemma_bytes_items_encoding(tmp@);
                assert(tmp@ == section.encoding());
            }
            tmp.encode(e);
            i = i + 1;
        }
        assert(self.subsections@.take(i as int) == self.subsections@);
    }
}

/// The concatenation of the pieces of a raw section.
pub open spec fn raw_bytes(s: Seq<Vec<u8>>) -> Seq<u8>
    decreases s.len(),
{
    if s.len() == 0 {
        seq![]
    } else {
        raw_bytes(s.drop_last()) + s.last()@
    }
}

impl Encode for RawCustomSection {
    open spec fn encodable(&self) -> bool {
        true
    }

    /// The pieces, one after the other, with no length before them.
    open spec fn encoding(&self) -> Seq<u8> {
        raw_bytes(self.data@)
    }

    fn encode(&self, e: &mut Vec<u8>) {
        let ghost start = e@;
        let mut i: usize = 0;
        while i < self.data.len()
            invariant
                i <= self.data@.len(),
                e@ == start + raw_bytes(self.data@.take(i as int)),
            decreases self.data@.len() - i,
        {
            assert(self.data@.take(i + 1).drop_last() == self.data@.take(i as int));
            let list = &self.data[i];
            let ghost mid = e@;
            let mut j: usize = 0;
            while j < list.len()
                invariant
                    j <= list@.len(),
                    e@ == mid + list@.take(j as int),
                decreases list@.len() - j,
            {
                e.push(list[j]);
                j = j + 1;
                assert(e@ == mid + list@.take(j as int));
            }
            assert(list@.take(j as int) == list@);
            i = i + 1;
        }
        assert(self.data@.take(i as int) == self.data@);
    }
}

/// A custom section.
pub enum Custom {
    Raw(RawCustomSection),
    Producers(Producers),
    Dylink0(Dylink0),
}

impl Custom {
    /// Where the section goes: a raw section where it says, `producers`
    /// after everything, `dylink.0` before everything.
    pub open spec fn spec_place(&self) -> CustomPlace {
        match self {
            Custom::Raw(r) => r.place,
            Custom::Producers(_) => CustomPlace::AfterLast,
            Custom::Dylink0(_) => CustomPlace::BeforeFirst,
        }
    }

    /// Where the section goes.
    pub fn place(&self) -> (r: CustomPlace)
        ensures
            r == self.spec_place(),
    {
        match self {
            Custom::Raw(r) => r.place,
            Custom::Producers(_) => CustomPlace::AfterLast,
            Custom::Dylink0(_) => CustomPlace::BeforeFirst,
        }
    }

    /// The section's name.
    pub open spec fn spec_name(&self) -> Seq<char> {
        match self {
            Custom::Raw(r) => r.name@,
            Custom::Producers(_) => "producers"@,
            Custom::Dylink0(_) => "dylink.0"@,
        }
    }

    /// The section's name: a raw section's own, `producers` or `dylink.0`.
    pub fn name(&self) -> (r: &str)
        ensures
            r@ == self.spec_name(),
    {
        match self {
            Custom::Raw(r) => r.name.as_str(),
            Custom::Producers(_) => "producers",
            Custom::Dylink0(_) => "dylink.0",
        }
    }
}

/// A raw custom section goes where it says; `producers` is named
/// `producers` and goes after everything else; `dylink.0` is named
/// `dylink.0` and goes before everything else. The `dylink.0` subsection
/// ids are 1 for memory info, 2 for needed libraries, 3 for export info and
/// 4 for import info.
pub proof fn lemma_custom_places(c: Custom, d: Dylink0Subsection)
    ensures
        c matches Custom::Raw(r) ==> c.spec_place() == r.place && c.spec_name() == r.name@,
        c is Producers ==> c.spec_place() == CustomPlace::AfterLast && c.spec_name() == "producers"@,
        c is Dylink0 ==> c.spec_place() == CustomPlace::BeforeFirst && c.spec_name() == "dylink.0"@,
        d is MemInfo ==> d.spec_id() == 1,
        d is Needed ==> d.spec_id() == 2,
        d is ExportInfo ==> d.spec_id() == 3,
        d is ImportInfo ==> d.spec_id() == 4,
{
}

impl Encode for Custom {
    open spec fn encodable(&self) -> bool {
        match self {
            Custom::Raw(r) => r.encodable(),
            Custom::Producers(p) => p.encodable(),
            Custom::Dylink0(p) => p.encodable(),
        }
    }

    open spec fn encoding(&self) -> Seq<u8> {
        match self {
            Custom::Raw(r) => r.encoding(),
            Custom::Producers(p) => p.encoding(),
            Custom::Dylink0(p) => p.encoding(),
        }
    }

    fn encode(&self, e: &mut Vec<u8>) {
        match self {
            Custom::Raw(r) => r.encode(e),
            Custom::Producers(p) => p.encode(e),
            Custom::Dylink0(p) => p.encode(e),
        }
    }
}

} // verus!
