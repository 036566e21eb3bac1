//! Numbers of a fixed width, the most significant byte first.

use vstd::prelude::*;

verus! {

/// The low `width` bytes of a number, the most significant byte first.
pub open spec fn be_bytes(n: nat, width: nat) -> Seq<u8>
    decreases width,
{
    if width == 0 {
        Seq::empty()
    } else {
        be_bytes(n / 256, (width - 1) as nat).push((n % 256) as u8)
    }
}

/// The number that the bytes make up, the most significant byte first.
pub open spec fn be_value(s: Seq<u8>) -> nat
    decreases s.len(),
{
    if s.len() == 0 {
        0
    } else {
        256 * be_value(s.drop_last()) + s.last() as nat
    }
}

/// The number of values that fit into bytes of the given number.
pub open spec fn byte_range(width: nat) -> nat
    decreases width,
{
    if width == 0 {
        1
    } else {
        256 * byte_range((width - 1) as nat)
    }
}

/// Bytes written of a number that fits make up the number again.
pub proof fn law_fixed_width_round_trip(n: nat, width: nat)
    requires
        n < byte_range(width),
    ensures
        be_bytes(n, width).len() == width,
        be_value(be_bytes(n, width)) == n,
    decreases width,
{
    if width > 0 {
        law_fixed_width_round_trip(n / 256, (width - 1) as nat);
        assert(be_bytes(n, width).drop_last() == be_bytes(n / 256, (width - 1) as nat));
    }
}

/// What the bytes make up is below the number of values that fit into them.
pub proof fn lemma_be_value_bound(s: Seq<u8>)
    ensures
        be_value(s) < byte_range(s.len()),
    decreases s.len(),
{
    if s.len() > 0 {
        lemma_be_value_bound(s.drop_last());
    }
}

/// Appends the two bytes of the number to the buffer.
pub fn write_u16(buffer: &mut Vec<u8>, value: u16)
    ensures
        final(buffer)@ == old(buffer)@ + be_bytes(value as nat, 2),
{
    proof {
        reveal_with_fuel(be_bytes, 3);
    }
    buffer.push((value / 256) as u8);
    buffer.push((value % 256) as u8);
}

/// Appends the eight bytes of the number to the buffer.
pub fn write_u64(buffer: &mut Vec<u8>, value: u64)
    ensures
        final(buffer)@ == old(buffer)@ + be_bytes(value as nat, 8),
{
    proof {
        reveal_with_fuel(be_bytes, 9);
    }
    buffer.push((value / 0x100_0000_0000_0000) as u8);
    buffer.push((value / 0x1_0000_0000_0000 % 256) as u8);
    buffer.push((value / 0x100_0000_0000 % 256) as u8);
    buffer.push((value / 0x1_0000_0000 % 256) as u8);
    buffer.push((value / 0x100_0000 % 256) as u8);
    buffer.push((value / 0x1_0000 % 256) as u8);
    buffer.push((value / 0x100 % 256) as u8);
    buffer.push((value % 256) as u8);
}

/// Returns the number that eight bytes make up.
pub(crate) fn u64_from_bytes(bytes: &Vec<u8>) -> (value: u64)
    requires
        bytes@.len() == 8,
    ensures
        value == be_value(bytes@),
{
    let mut value: u64 = 0;
    let mut i: usize = 0;
    while i < 8
        invariant
            i <= 8,
            bytes@.len() == 8,
            value == be_value(bytes@.take(i as int)),
        decreases 8 - i,
    {
        proof {
            reveal_with_fuel(byte_range, 9);
            assert(bytes@.take(i + 1).drop_last() == bytes@.take(i as int));
            lemma_be_value_bound(bytes@.take(i as int));
        }
        value = 256 * value + bytes[i] as u64;
        i = i + 1;
    }
    proof {
        assert(bytes@.take(8) == bytes@);
    }
    value
}

} // verus!
