//! Integers as bytes.

use vstd::prelude::*;

verus! {

/// A 32-bit integer, the lowest byte first.
pub open spec fn le32(value: u32) -> Seq<u8> {
    seq![
        (value % 256) as u8,
        (value / 256 % 256) as u8,
        (value / 65_536 % 256) as u8,
        (value / 16_777_216) as u8,
    ]
}

/// A 64-bit integer, the lowest byte first.
pub open spec fn le64(value: u64) -> Seq<u8> {
    le32((value % 4_294_967_296) as u32) + le32((value / 4_294_967_296) as u32)
}

/// A 64-bit integer, the highest byte first.
pub open spec fn be64(value: u64) -> Seq<u8> {
    le64(value).reverse()
}

/// Adds a 32-bit integer, the lowest byte first.
pub fn push_le32(bytes: &mut Vec<u8>, value: u32)
    ensures
        final(bytes)@ == old(bytes)@ + le32(value),
{
    bytes.push((value % 256) as u8);
    bytes.push((value / 256 % 256) as u8);
    bytes.push((value / 65_536 % 256) as u8);
    bytes.push((value / 16_777_216) as u8);
    proof {
        assert(bytes@ =~= old(bytes)@ + le32(value));
    }
}

/// Adds a 64-bit integer, the lowest byte first.
pub fn push_le64(bytes: &mut Vec<u8>, value: u64)
    ensures
        final(bytes)@ == old(bytes)@ + le64(value),
{
    push_le32(bytes, (value % 4_294_967_296) as u32);
    push_le32(bytes, (value / 4_294_967_296) as u32);
    proof {
        assert(bytes@ =~= old(bytes)@ + le64(value));
    }
}

/// Adds a 64-bit integer, the highest byte first.
pub fn push_be64(bytes: &mut Vec<u8>, value: u64)
    ensures
        final(bytes)@ == old(bytes)@ + be64(value),
{
    let mut low: Vec<u8> = Vec::new();
    push_le64(&mut low, value);
    bytes.push(low[7]);
    bytes.push(low[6]);
    bytes.push(low[5]);
    bytes.push(low[4]);
    bytes.push(low[3]);
    bytes.push(low[2]);
    bytes.push(low[1]);
    bytes.push(low[0]);
    proof {
        assert(low@ =~= le64(value));
        assert(bytes@ =~= old(bytes)@ + be64(value));
    }
}

/// Four bytes stand for one integer.
pub proof fn lemma_le32_injective(left: u32, right: u32)
    ensures
        le32(left) == le32(right) <==> left == right,
{
    if le32(left) == le32(right) {
        assert(le32(left)[0] == le32(right)[0]);
        assert(le32(left)[1] == le32(right)[1]);
        assert(le32(left)[2] == le32(right)[2]);
        assert(le32(left)[3] == le32(right)[3]);
        assert(left == right);
    }
}

/// Eight bytes stand for one integer.
pub proof fn lemma_be64_injective(left: u64, right: u64)
    ensures
        be64(left) == be64(right) <==> left == right,
        be64(left).len() == 8,
{
    if be64(left) == be64(right) {
        let l = le64(left);
        let r = le64(right);
        assert(l =~= l.reverse().reverse());
        assert(r =~= r.reverse().reverse());
        let low = (left % 4_294_967_296) as u32;
        let high = (left / 4_294_967_296) as u32;
        let other_low = (right % 4_294_967_296) as u32;
        let other_high = (right / 4_294_967_296) as u32;
        assert(l.take(4) =~= le32(low));
        assert(r.take(4) =~= le32(other_low));
        assert(l.skip(4) =~= le32(high));
        assert(r.skip(4) =~= le32(other_high));
        lemma_le32_injective(low, other_low);
        lemma_le32_injective(high, other_high);
    }
}

/// A text with its length before it.
pub open spec fn sized(part: Seq<u8>) -> Seq<u8> {
    be64(part.len() as u64) + part
}

/// Two rows that begin with sized parts are equal only if the parts are.
pub proof fn lemma_sized_prefix(left: Seq<u8>, right: Seq<u8>, behind: Seq<u8>, other: Seq<u8>)
    requires
        left.len() <= u64::MAX,
        right.len() <= u64::MAX,
    ensures
        sized(left) + behind == sized(right) + other <==> left == right && behind == other,
{
    if sized(left) + behind == sized(right) + other {
        let l = sized(left) + behind;
        let r = sized(right) + other;
        lemma_be64_injective(left.len() as u64, right.len() as u64);
        lemma_be64_injective(right.len() as u64, left.len() as u64);
        assert(l.take(8) =~= be64(left.len() as u64));
        assert(r.take(8) =~= be64(right.len() as u64));
        assert(left.len() == right.len());
        assert(l.subrange(8, 8 + left.len() as int) =~= left);
        assert(r.subrange(8, 8 + right.len() as int) =~= right);
        assert(l.skip(8 + left.len() as int) =~= behind);
        assert(r.skip(8 + right.len() as int) =~= other);
    }
}

/// Adds a text with its length before it.
pub fn push_sized(bytes: &mut Vec<u8>, part: &[u8])
    ensures
        final(bytes)@ == old(bytes)@ + sized(part@),
{
    push_be64(bytes, part.len() as u64);
    bytes.extend_from_slice(part);
    proof {
        assert(bytes@ =~= old(bytes)@ + sized(part@));
    }
}

/// The bytes of an integer are its digits to the base 256, the lowest or the highest first.
pub proof fn law_bytes_write_their_integer(value: u32, wide: u64)
    ensures
        le32(value).len() == 4,
        le32(value)[0] + le32(value)[1] * 256 + le32(value)[2] * 65_536 + le32(value)[3] * 16_777_216
            == value,
        le64(wide).len() == 8,
        be64(wide).len() == 8,
        forall|i: int| 0 <= i < 8 ==> #[trigger] be64(wide)[i] == le64(wide)[7 - i],
        le64(wide)[0] + le64(wide)[1] * 0x100 + le64(wide)[2] * 0x1_0000 + le64(wide)[3]
            * 0x100_0000 + le64(wide)[4] * 0x1_0000_0000 + le64(wide)[5] * 0x100_0000_0000 + le64(
            wide,
        )[6] * 0x1_0000_0000_0000 + le64(wide)[7] * 0x100_0000_0000_0000 == wide,
{
    let low = (wide % 4_294_967_296) as u32;
    let high = (wide / 4_294_967_296) as u32;
    let l = le32(low);
    let h = le32(high);
    assert(le64(wide) =~= l + h);
    assert(l[0] + l[1] * 256 + l[2] * 65_536 + l[3] * 16_777_216 == low);
    assert(h[0] + h[1] * 256 + h[2] * 65_536 + h[3] * 16_777_216 == high);
}

/// A sized part is led by its length in 8 bytes, the highest first.
pub proof fn law_parts_are_led_by_their_length(part: Seq<u8>)
    ensures
        sized(part) == be64(part.len() as u64) + part,
        sized(part).len() == part.len() + 8,
        sized(part).skip(8) == part,
{
    assert(sized(part).skip(8) =~= part);
}

} // verus!
