//! The `Encode` trait: what each value of the binary format appends to an
//! output buffer, for integers, strings, lists and tuples.
use vstd::prelude::*;
use vstd::string::StringSliceAdditionalSpecFns;
use crate::leb::{
    leb_framed, leb_signed, leb_unsigned, lemma_leb_signed_reads_back, lemma_leb_unsigned_reads_back,
    signed_value, unsigned_value, write_signed, write_unsigned,
};

verus! {

/// A value with a binary encoding.
pub trait Encode {
    /// The value can be emitted: every count in it fits in 32 bits and every
    /// part is in the form that emission expects.
    spec fn encodable(&self) -> bool;

    /// The bytes that `encode` appends.
    spec fn encoding(&self) -> Seq<u8>;

    /// Appends the encoding of `self` to `e`.
    fn encode(&self, e: &mut Vec<u8>)
        requires
            self.encodable(),
        ensures
            final(e)@ == old(e)@ + self.encoding(),
    ;
}

/// The concatenation of the encodings of the items of `s`, in order.
pub open spec fn items_encoding<T: Encode>(s: Seq<T>) -> Seq<u8>
    decreases s.len(),
{
    if s.len() == 0 {
        seq![]
    } else {
        items_encoding(s.drop_last()) + s.last().encoding()
    }
}

/// Every item of `s` can be emitted.
pub open spec fn all_encodable<T: Encode>(s: Seq<T>) -> bool {
    forall|i: int| 0 <= i < s.len() ==> #[trigger] s[i].encodable()
}

/// A list: its length as an unsigned LEB128, then each item.
pub open spec fn list_encoding<T: Encode>(s: Seq<T>) -> Seq<u8> {
    leb_unsigned(s.len()) + items_encoding(s)
}

pub proof fn lemma_items_encoding_push<T: Encode>(s: Seq<T>, x: T)
    ensures
        items_encoding(s.push(x)) == items_encoding(s) + x.encoding(),
{
    assert(s.push(x).drop_last() == s);
}

/// The encoding of a prefix of a list is no longer than that of the list.
pub proof fn lemma_items_encoding_prefix_len<T: Encode>(s: Seq<T>, i: int)
    requires
        0 <= i <= s.len(),
    ensures
        items_encoding(s.take(i)).len() <= items_encoding(s).len(),
    decreases s.len() - i,
{
    if i < s.len() {
        lemma_items_encoding_prefix_len(s, i + 1);
        lemma_items_encoding_push(s.take(i), s[i]);
        assert(s.take(i).push(s[i]) == s.take(i + 1));
    } else {
        assert(s.take(i) == s);
    }
}

/// The encodings of the items of `s`, one by one.
pub open spec fn encodings<T: Encode>(s: Seq<T>) -> Seq<Seq<u8>> {
    s.map_values(|x: T| x.encoding())
}

/// The concatenation of byte sequences.
pub open spec fn flatten(s: Seq<Seq<u8>>) -> Seq<u8>
    decreases s.len(),
{
    if s.len() == 0 {
        seq![]
    } else {
        flatten(s.drop_last()) + s.last()
    }
}

/// The items of a list encode as the concatenation of their encodings.
pub proof fn lemma_items_encoding_flatten<T: Encode>(s: Seq<T>)
    ensures
        items_encoding(s) == flatten(encodings(s)),
    decreases s.len(),
{
    if s.len() > 0 {
        lemma_items_encoding_flatten(s.drop_last());
        assert(encodings(s.drop_last()) == encodings(s).drop_last());
    }
}

/// A byte list: its length, then the bytes.
pub open spec fn bytes_encoding(s: Seq<u8>) -> Seq<u8> {
    leb_unsigned(s.len()) + s
}

/// The items of a byte list encode as the bytes themselves.
pub proof fn lemma_bytes_items_encoding(s: Seq<u8>)
    ensures
        items_encoding(s) == s,
    decreases s.len(),
{
    if s.len() > 0 {
        lemma_bytes_items_encoding(s.drop_last());
        assert(s.drop_last().push(s.last()) == s);
    }
}

/// The encoding of a prefix of a list is a prefix of the encoding of the
/// list.
pub proof fn lemma_items_encoding_prefix<T: Encode>(s: Seq<T>, i: int)
    requires
        0 <= i <= s.len(),
    ensures
        items_encoding(s.take(i)).len() <= items_encoding(s).len(),
        items_encoding(s).take(items_encoding(s.take(i)).len() as int) == items_encoding(s.take(i)),
    decreases s.len() - i,
{
    if i < s.len() {
        lemma_items_encoding_prefix(s, i + 1);
        lemma_items_encoding_push(s.take(i), s[i]);
        assert(s.take(i).push(s[i]) == s.take(i + 1));
        let a = items_encoding(s.take(i));
        let b = items_encoding(s.take(i + 1));
        assert(b.take(a.len() as int) == a);
        assert(items_encoding(s).take(a.len() as int) =~= b.take(a.len() as int));
    } else {
        assert(s.take(i) == s);
    }
}

/// In the encoding of a list, the item `k` starts right after the items
/// before it: its bytes are found at that offset.
pub proof fn lemma_item_at_offset<T: Encode>(s: Seq<T>, k: int)
    requires
        0 <= k < s.len(),
    ensures
        ({
            let off = items_encoding(s.take(k)).len() as int;
            &&& off + s[k].encoding().len() <= items_encoding(s).len()
            &&& items_encoding(s).subrange(off, off + s[k].encoding().len()) == s[k].encoding()
        }),
{
    lemma_items_encoding_prefix(s, k + 1);
    lemma_items_encoding_push(s.take(k), s[k]);
    assert(s.take(k).push(s[k]) == s.take(k + 1));
    let off = items_encoding(s.take(k)).len() as int;
    let b = items_encoding(s.take(k + 1));
    assert(items_encoding(s).subrange(off, off + s[k].encoding().len()) =~= b.subrange(
        off,
        off + s[k].encoding().len(),
    ));
}

/// Appends the encoding of each item of `items`, with no length before them.
pub fn encode_items<T: Encode>(items: &[T], e: &mut Vec<u8>)
    requires
        all_encodable(items@),
    ensures
        final(e)@ == old(e)@ + items_encoding(items@),
{
    let ghost start = e@;
    let mut i: usize = 0;
    while i < items.len()
        invariant
            i <= items@.len(),
            all_encodable(items@),
            e@ == start + items_encoding(items@.take(i as int)),
        decreases items@.len() - i,
    {
        proof {
            lemma_items_encoding_push(items@.take(i as int), items@[i as int]);
            assert(items@.take(i as int).push(items@[i as int]) == items@.take(i + 1));
        }
        items[i].encode(e);
        i = i + 1;
    }
    assert(items@.take(i as int) == items@);
}

/// Appends a list: the number of items, then each item.
pub fn encode_list<T: Encode>(items: &[T], e: &mut Vec<u8>)
    requires
        items@.len() <= u32::MAX,
        all_encodable(items@),
    ensures
        final(e)@ == old(e)@ + list_encoding(items@),
{
    write_unsigned(e, items.len() as u64);
    encode_items(items, e);
}

impl Encode for u8 {
    open spec fn encodable(&self) -> bool {
        true
    }

    open spec fn encoding(&self) -> Seq<u8> {
        seq![*self]
    }

    fn encode(&self, e: &mut Vec<u8>) {
        e.push(*self);
    }
}

impl Encode for u32 {
    open spec fn encodable(&self) -> bool {
        true
    }

    open spec fn encoding(&self) -> Seq<u8> {
        leb_unsigned(*self as nat)
    }

    fn encode(&self, e: &mut Vec<u8>) {
        write_unsigned(e, *self as u64);
    }
}

impl Encode for u64 {
    open spec fn encodable(&self) -> bool {
        true
    }

    open spec fn encoding(&self) -> Seq<u8> {
        leb_unsigned(*self as nat)
    }

    fn encode(&self, e: &mut Vec<u8>) {
        write_unsigned(e, *self);
    }
}

impl Encode for i32 {
    open spec fn encodable(&self) -> bool {
        true
    }

    open spec fn encoding(&self) -> Seq<u8> {
        leb_signed(*self as int)
    }

    fn encode(&self, e: &mut Vec<u8>) {
        write_signed(e, *self as i64);
    }
}

impl Encode for i64 {
    open spec fn encodable(&self) -> bool {
        true
    }

    open spec fn encoding(&self) -> Seq<u8> {
        leb_signed(*self as int)
    }

    fn encode(&self, e: &mut Vec<u8>) {
        write_signed(e, *self);
    }
}

/// A count: the binary format holds counts in 32 bits.
impl Encode for usize {
    open spec fn encodable(&self) -> bool {
        *self <= u32::MAX
    }

    open spec fn encoding(&self) -> Seq<u8> {
        leb_unsigned(*self as nat)
    }

    fn encode(&self, e: &mut Vec<u8>) {
        write_unsigned(e, *self as u64);
    }
}

/// A name: the length of its UTF-8 bytes, then the bytes.
/// An unsigned integer is written as unsigned LEB128 and a signed one as
/// signed LEB128: the bytes are well framed and read back as the number.
/// A byte is written as itself.
pub proof fn lemma_integers_read_back(a: u8, b: u32, c: u64, d: usize, x: i32, y: i64)
    ensures
        a.encoding() == seq![a],
        leb_framed(b.encoding()) && unsigned_value(b.encoding()) == b,
        leb_framed(c.encoding()) && unsigned_value(c.encoding()) == c,
        leb_framed(d.encoding()) && unsigned_value(d.encoding()) == d,
        leb_framed(x.encoding()) && signed_value(x.encoding()) == x,
        leb_framed(y.encoding()) && signed_value(y.encoding()) == y,
{
    lemma_leb_unsigned_reads_back(b as nat);
    lemma_leb_unsigned_reads_back(c as nat);
    lemma_leb_unsigned_reads_back(d as nat);
    lemma_leb_signed_reads_back(x as int);
    lemma_leb_signed_reads_back(y as int);
}

impl<'a> Encode for &'a str {
    open spec fn encodable(&self) -> bool {
        self.spec_bytes().len() <= u32::MAX
    }

    open spec fn encoding(&self) -> Seq<u8> {
        leb_unsigned(self.spec_bytes().len()) + self.spec_bytes()
    }

    fn encode(&self, e: &mut Vec<u8>) {
        let bytes = self.as_bytes();
        write_unsigned(e, bytes.len() as u64);
        let ghost mid = e@;
        let mut i: usize = 0;
        while i < bytes.len()
            invariant
                i <= bytes@.len(),
                e@ == mid + bytes@.take(i as int),
            decreases bytes@.len() - i,
        {
            e.push(bytes[i]);
            i = i + 1;
            assert(e@ == mid + bytes@.take(i as int));
        }
        assert(bytes@.take(i as int) == bytes@);
    }
}

impl<T: Encode> Encode for Vec<T> {
    open spec fn encodable(&self) -> bool {
        self@.len() <= u32::MAX && all_encodable(self@)
    }

    open spec fn encoding(&self) -> Seq<u8> {
        list_encoding(self@)
    }

    fn encode(&self, e: &mut Vec<u8>) {
        encode_list(self.as_slice(), e);
    }
}

impl<'a, T: Encode> Encode for &'a T {
    open spec fn encodable(&self) -> bool {
        (**self).encodable()
    }

    open spec fn encoding(&self) -> Seq<u8> {
        (**self).encoding()
    }

    fn encode(&self, e: &mut Vec<u8>) {
        (**self).encode(e);
    }
}

impl<A: Encode, B: Encode> Encode for (A, B) {
    open spec fn encodable(&self) -> bool {
        self.0.encodable() && self.1.encodable()
    }

    open spec fn encoding(&self) -> Seq<u8> {
        self.0.encoding() + self.1.encoding()
    }

    fn encode(&self, e: &mut Vec<u8>) {
        self.0.encode(e);
        self.1.encode(e);
    }
}

impl<A: Encode, B: Encode, C: Encode> Encode for (A, B, C) {
    open spec fn encodable(&self) -> bool {
        self.0.encodable() && self.1.encodable() && self.2.encodable()
    }

    open spec fn encoding(&self) -> Seq<u8> {
        self.0.encoding() + self.1.encoding() + self.2.encoding()
    }

    fn encode(&self, e: &mut Vec<u8>) {
        self.0.encode(e);
        self.1.encode(e);
        self.2.encode(e);
    }
}

} // verus!
