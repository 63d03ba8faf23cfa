//! LEB128 variable-length integers, the encoding that the binary format
//! uses for every integer immediate and every count.
use vstd::prelude::*;

verus! {

/// Unsigned LEB128: seven bits per byte, least significant group first,
/// the high bit set on every byte but the last.
pub open spec fn leb_unsigned(v: nat) -> Seq<u8>
    decreases v,
{
    if v < 128 {
        seq![v as u8]
    } else {
        seq![(v % 128 + 128) as u8] + leb_unsigned(v / 128)
    }
}

/// Signed LEB128 (two's complement): groups of seven bits, least significant
/// first, until the remaining value is the sign extension of the last group.
pub open spec fn leb_signed(v: int) -> Seq<u8>
    decreases (if v >= 0 { v } else { -v }),
{
    let low = v % 128;
    let rest = v / 128;
    if (rest == 0 && low < 64) || (rest == -1 && low >= 64) {
        seq![low as u8]
    } else {
        seq![(low + 128) as u8] + leb_signed(rest)
    }
}

/// The number that unsigned LEB128 bytes stand for: the low seven bits of
/// each byte, least significant group first.
pub open spec fn unsigned_value(s: Seq<u8>) -> int
    decreases s.len(),
{
    if s.len() == 0 {
        0
    } else {
        (s[0] % 128) as int + 128 * unsigned_value(s.drop_first())
    }
}

/// The number that signed LEB128 bytes stand for: as for unsigned, but the
/// last group is read as a two's complement seven-bit number.
pub open spec fn signed_value(s: Seq<u8>) -> int
    decreases s.len(),
{
    if s.len() <= 1 {
        let b = if s.len() == 0 { 0int } else { (s[0] % 128) as int };
        if b >= 64 { b - 128 } else { b }
    } else {
        (s[0] % 128) as int + 128 * signed_value(s.drop_first())
    }
}

/// Bytes are well framed: at least one, the high bit set on every byte but
/// the last, and clear on the last.
pub open spec fn leb_framed(s: Seq<u8>) -> bool {
    &&& s.len() >= 1
    &&& forall|i: int| 0 <= i < s.len() - 1 ==> #[trigger] s[i] >= 128
    &&& s[s.len() - 1] < 128
}

/// Unsigned LEB128 is well framed and reads back as the number written.
pub proof fn lemma_leb_unsigned_reads_back(v: nat)
    ensures
        leb_framed(leb_unsigned(v)),
        unsigned_value(leb_unsigned(v)) == v,
    decreases v,
{
    if v >= 128 {
        lemma_leb_unsigned_reads_back(v / 128);
        let s = leb_unsigned(v);
        let rest = leb_unsigned(v / 128);
        assert(s.drop_first() == rest);
        assert forall|i: int| 0 <= i < s.len() - 1 implies #[trigger] s[i] >= 128 by {
            if i > 0 {
                assert(s[i] == rest[i - 1]);
            }
        }
        assert(s[s.len() - 1] == rest[rest.len() - 1]);
        assert(s[0] == (v % 128 + 128) as u8);
        assert(s[0] % 128 == v % 128);
        assert(v == v % 128 + 128 * (v / 128));
        assert(unsigned_value(s) == (s[0] % 128) as int + 128 * unsigned_value(rest));
    } else {
        let s = leb_unsigned(v);
        assert(s.drop_first().len() == 0);
        assert(unsigned_value(s.drop_first()) == 0);
        assert(s[0] == v as u8);
        assert(unsigned_value(s) == (s[0] % 128) as int + 128 * unsigned_value(s.drop_first()));
    }
}

/// Signed LEB128 is well framed and reads back as the number written.
pub proof fn lemma_leb_signed_reads_back(v: int)
    ensures
        leb_framed(leb_signed(v)),
        signed_value(leb_signed(v)) == v,
    decreases (if v >= 0 { v } else { -v }),
{
    let low = v % 128;
    let rest = v / 128;
    if !((rest == 0 && low < 64) || (rest == -1 && low >= 64)) {
        lemma_leb_signed_reads_back(rest);
        let s = leb_signed(v);
        let r = leb_signed(rest);
        assert(s.drop_first() == r);
        assert forall|i: int| 0 <= i < s.len() - 1 implies #[trigger] s[i] >= 128 by {
            if i > 0 {
                assert(s[i] == r[i - 1]);
            }
        }
        assert(s[s.len() - 1] == r[r.len() - 1]);
    }
}

/// Appends the unsigned LEB128 encoding of `v`.
pub fn write_unsigned(e: &mut Vec<u8>, v: u64)
    ensures
        final(e)@ == old(e)@ + leb_unsigned(v as nat),
    decreases v,
{
    if v < 128 {
        e.push(v as u8);
    } else {
        let byte = (v % 128 + 128) as u8;
        e.push(byte);
        write_unsigned(e, v / 128);
    }
}

/// Appends the signed LEB128 encoding of a nonnegative `u`.
fn write_signed_nonneg(e: &mut Vec<u8>, u: u64)
    ensures
        final(e)@ == old(e)@ + leb_signed(u as int),
    decreases u,
{
    let low = (u % 128) as u8;
    let rest = u / 128;
    if rest == 0 && low < 64 {
        e.push(low);
    } else {
        e.push(low + 128);
        write_signed_nonneg(e, rest);
    }
}

/// Appends the signed LEB128 encoding of the negative value `-w - 1`.
fn write_signed_neg(e: &mut Vec<u8>, w: u64)
    ensures
        final(e)@ == old(e)@ + leb_signed(-(w as int) - 1),
    decreases w,
{
    let ghost v: int = -(w as int) - 1;
    let low = 127 - (w % 128) as u8;
    let rest = w / 128;
    assert(v % 128 == low && v / 128 == -(rest as int) - 1);
    if rest == 0 && low >= 64 {
        e.push(low);
    } else {
        e.push(low + 128);
        write_signed_neg(e, rest);
    }
}

/// Appends the signed LEB128 encoding of `v`.
pub fn write_signed(e: &mut Vec<u8>, v: i64)
    ensures
        final(e)@ == old(e)@ + leb_signed(v as int),
{
    if v >= 0 {
        write_signed_nonneg(e, v as u64);
    } else {
        write_signed_neg(e, (-(v + 1)) as u64);
    }
}

} // verus!
