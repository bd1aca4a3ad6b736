//! Byte-sequence helpers shared by the codecs and the reassembler.

use vstd::prelude::*;

verus! {

/// Whether two byte slices hold the same bytes.
pub fn bytes_equal(left: &[u8], right: &[u8]) -> (equal: bool)
    ensures
        equal == (left@ == right@),
{
    if left.len() != right.len() {
        return false;
    }
    let mut index: usize = 0;
    while index < left.len()
        invariant
            index <= left.len(),
            left.len() == right.len(),
            forall|i: int| 0 <= i < index ==> left@[i] == right@[i],
        decreases left.len() - index,
    {
        if left[index] != right[index] {
            return false;
        }
        index += 1;
    }
    assert(left@ =~= right@);
    true
}

/// Compares two digests.
pub fn digests_equal(left: &[u8; 32], right: &[u8; 32]) -> (equal: bool)
    ensures
        equal == (*left == *right),
{
    let equal: bool = bytes_equal(left, right);
    proof {
        if equal {
            assert forall|i: int| 0 <= i < 32 implies left[i] == right[i] by {
                assert(left@[i] == right@[i]);
            }
            assert(*left =~= *right);
        }
    }
    equal
}

/// Compares two nonces.
pub fn nonces_equal(left: &[u8; 16], right: &[u8; 16]) -> (equal: bool)
    ensures
        equal == (*left == *right),
{
    let equal: bool = bytes_equal(left, right);
    proof {
        if equal {
            assert forall|i: int| 0 <= i < 16 implies left[i] == right[i] by {
                assert(left@[i] == right@[i]);
            }
            assert(*left =~= *right);
        }
    }
    equal
}

/// Thirty-two zero bytes.
pub open spec fn is_zero_digest(digest: [u8; 32]) -> bool {
    forall|i: int| 0 <= i < 32 ==> #[trigger] digest@[i] == 0
}

/// Whether a digest holds zero bytes only.
pub fn digest_is_zero(digest: &[u8; 32]) -> (zero: bool)
    ensures
        zero == is_zero_digest(*digest),
{
    let mut index: usize = 0;
    while index < 32
        invariant
            index <= 32,
            forall|i: int| 0 <= i < index ==> #[trigger] digest@[i] == 0,
        decreases 32 - index,
    {
        if digest[index] != 0 {
            return false;
        }
        index += 1;
    }
    true
}

/// Appends a copy of `source` to `target`.
pub fn append_bytes(target: &mut Vec<u8>, source: &[u8])
    ensures
        final(target)@ == old(target)@ + source@,
{
    target.extend_from_slice(source);
    assert(target@ =~= old(target)@ + source@);
}

/// Copies `source` into a new vector.
pub fn copy_bytes(source: &[u8]) -> (copy: Vec<u8>)
    ensures
        copy@ == source@,
{
    let mut copy: Vec<u8> = Vec::new();
    append_bytes(&mut copy, source);
    assert(copy@ =~= source@);
    copy
}

/// Big-endian digits of `value`, `count` of them, most significant first.
pub open spec fn be_digits(value: int, count: nat) -> Seq<u8>
    decreases count,
{
    if count == 0 {
        Seq::empty()
    } else {
        be_digits(value / 256, (count - 1) as nat).push((value % 256) as u8)
    }
}

/// The number that a big-endian byte sequence denotes.
pub open spec fn be_value(digits: Seq<u8>) -> int
    decreases digits.len(),
{
    if digits.len() == 0 {
        0
    } else {
        be_value(digits.drop_last()) * 256 + digits.last() as int
    }
}

/// `256` to the power of `count`.
pub open spec fn be_bound(count: nat) -> int
    decreases count,
{
    if count == 0 {
        1
    } else {
        256 * be_bound((count - 1) as nat)
    }
}

/// Reading back big-endian digits gives the number that was written, and
/// there are exactly as many digits as were asked for.
pub proof fn law_be_round_trip(value: int, count: nat)
    requires
        0 <= value < be_bound(count),
    ensures
        be_digits(value, count).len() == count,
        be_value(be_digits(value, count)) == value,
    decreases count,
{
    if count > 0 {
        assert(value / 256 < be_bound((count - 1) as nat)) by (nonlinear_arith)
            requires
                value < 256 * be_bound((count - 1) as nat),
        ;
        law_be_round_trip(value / 256, (count - 1) as nat);
        assert(be_digits(value, count).drop_last() =~= be_digits(
            value / 256,
            (count - 1) as nat,
        ));
    }
}

/// Appends the `count` big-endian bytes of `value`.
fn push_be(target: &mut Vec<u8>, value: u64, count: u32)
    requires
        count <= 8,
        value < be_bound(count as nat),
    ensures
        final(target)@ == old(target)@ + be_digits(value as int, count as nat),
    decreases count,
{
    if count > 0 {
        assert(value / 256 < be_bound((count - 1) as nat)) by (nonlinear_arith)
            requires
                value < 256 * be_bound((count - 1) as nat),
        ;
        push_be(target, value / 256, count - 1);
        target.push((value % 256) as u8);
        assert(target@ =~= old(target)@ + be_digits(value as int, count as nat));
    } else {
        assert(target@ =~= old(target)@ + be_digits(value as int, count as nat));
    }
}

pub(crate) proof fn lemma_bounds()
    ensures
        be_bound(2) == 0x1_0000,
        be_bound(4) == 0x1_0000_0000,
        be_bound(8) == 0x1_0000_0000_0000_0000,
{
    reveal_with_fuel(be_bound, 9);
}

/// Appends a big-endian `u16`.
pub fn push_u16(target: &mut Vec<u8>, value: u16)
    ensures
        final(target)@ == old(target)@ + be_digits(value as int, 2),
{
    proof {
        lemma_bounds();
    }
    push_be(target, value as u64, 2);
}

/// Appends a big-endian `u32`.
pub fn push_u32(target: &mut Vec<u8>, value: u32)
    ensures
        final(target)@ == old(target)@ + be_digits(value as int, 4),
{
    proof {
        lemma_bounds();
    }
    push_be(target, value as u64, 4);
}

/// Appends a big-endian `u64`.
pub fn push_u64(target: &mut Vec<u8>, value: u64)
    ensures
        final(target)@ == old(target)@ + be_digits(value as int, 8),
{
    proof {
        lemma_bounds();
    }
    push_be(target, value, 8);
}

proof fn lemma_be_value_bound(digits: Seq<u8>)
    ensures
        0 <= be_value(digits) < be_bound(digits.len()),
    decreases digits.len(),
{
    if digits.len() > 0 {
        lemma_be_value_bound(digits.drop_last());
    }
}

/// Reads `count` big-endian bytes at `offset`.
fn read_be(bytes: &[u8], offset: usize, count: usize) -> (value: u64)
    requires
        count <= 8,
        offset + count <= bytes@.len(),
    ensures
        value == be_value(bytes@.subrange(offset as int, offset + count)),
        value < be_bound(count as nat),
    decreases count,
{
    let ghost window = bytes@.subrange(offset as int, offset + count);
    proof {
        lemma_be_value_bound(window);
        lemma_bounds();
        lemma_be_bound_monotone(count as nat, 8);
    }
    if count == 0 {
        return 0;
    }
    let high: u64 = read_be(bytes, offset, count - 1);
    proof {
        assert(window.drop_last() =~= bytes@.subrange(offset as int, offset + count - 1));
        assert(bytes.len() <= usize::MAX);
    }
    high * 256 + bytes[offset + (count - 1)] as u64
}

proof fn lemma_be_bound_monotone(small: nat, large: nat)
    requires
        small <= large,
    ensures
        1 <= be_bound(small) <= be_bound(large),
    decreases large,
{
    if small < large {
        lemma_be_bound_monotone(small, (large - 1) as nat);
    } else if large > 0 {
        lemma_be_bound_monotone((small - 1) as nat, (large - 1) as nat);
    }
}

/// Reads a big-endian `u16` at `offset`.
pub fn read_u16(bytes: &[u8], offset: usize) -> (value: u16)
    requires
        offset + 2 <= bytes@.len(),
    ensures
        value == be_value(bytes@.subrange(offset as int, offset + 2)),
{
    proof {
        lemma_bounds();
    }
    read_be(bytes, offset, 2) as u16
}

/// Reads a big-endian `u32` at `offset`.
pub fn read_u32(bytes: &[u8], offset: usize) -> (value: u32)
    requires
        offset + 4 <= bytes@.len(),
    ensures
        value == be_value(bytes@.subrange(offset as int, offset + 4)),
{
    proof {
        lemma_bounds();
    }
    read_be(bytes, offset, 4) as u32
}

/// Reads a big-endian `u64` at `offset`.
pub fn read_u64(bytes: &[u8], offset: usize) -> (value: u64)
    requires
        offset + 8 <= bytes@.len(),
    ensures
        value == be_value(bytes@.subrange(offset as int, offset + 8)),
{
    read_be(bytes, offset, 8)
}

} // verus!
