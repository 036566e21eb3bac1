//! The `VarInt` encoding: seven bits to a byte, the least significant ones first, and a set high bit on every byte but
//! the last.

use vstd::prelude::*;

verus! {

/// What a `VarInt` carries of a number: its low 32 bits, in two's complement if the number is negative.
pub open spec fn low32(n: int) -> nat {
    (n % 0x1_0000_0000) as nat
}

/// The bytes that a number is encoded to.
pub open spec fn varint_bytes(n: nat) -> Seq<u8>
    decreases n,
{
    if n < 128 {
        seq![n as u8]
    } else {
        seq![(n % 128 + 128) as u8] + varint_bytes(n / 128)
    }
}

/// How many bytes at the front announce that another one follows.
pub open spec fn continued(s: Seq<u8>) -> nat
    decreases s.len(),
{
    if s.len() > 0 && s[0] >= 128 {
        1 + continued(s.drop_first())
    } else {
        0
    }
}

/// The number that the low seven bits of the bytes make up, the least significant ones first.
pub open spec fn base128(s: Seq<u8>) -> nat
    decreases s.len(),
{
    if s.len() == 0 {
        0
    } else {
        (s[0] % 128) as nat + 128 * base128(s.drop_first())
    }
}

/// The weight of the byte at an index.
pub open spec fn weight(i: nat) -> nat
    decreases i,
{
    if i == 0 {
        1
    } else {
        128 * weight((i - 1) as nat)
    }
}

/// A further byte adds its low seven bits at its weight.
pub proof fn lemma_base128_push(s: Seq<u8>, b: u8)
    ensures
        base128(s.push(b)) == base128(s) + weight(s.len()) * (b % 128),
    decreases s.len(),
{
    if s.len() == 0 {
        assert(s.push(b).drop_first() == Seq::<u8>::empty());
        assert(base128(s.push(b).drop_first()) == 0);
        assert(weight(0) * (b % 128) == b % 128) by (nonlinear_arith)
            requires
                weight(0) == 1,
        ;
    } else {
        lemma_base128_push(s.drop_first(), b);
        assert(s.push(b).drop_first() == s.drop_first().push(b));
        let w = weight((s.len() - 1) as nat) as int;
        let d = (b % 128) as int;
        assert(128 * (w * d) == (128 * w) * d) by (nonlinear_arith);
    }
}

/// The bytes that announce another one are the longest such run.
pub proof fn lemma_continued(s: Seq<u8>, n: nat)
    requires
        n <= s.len(),
        forall|i: int| 0 <= i < n ==> s[i] >= 128,
    ensures
        continued(s) >= n,
        n == s.len() || s[n as int] < 128 ==> continued(s) == n,
    decreases s.len(),
{
    if n > 0 {
        lemma_continued(s.drop_first(), (n - 1) as nat);
    }
}

/// What the longest run of bytes that announce another one is.
pub proof fn lemma_continued_run(s: Seq<u8>)
    ensures
        continued(s) <= s.len(),
        forall|i: int| 0 <= i < continued(s) ==> s[i] >= 128,
        continued(s) < s.len() ==> s[continued(s) as int] < 128,
    decreases s.len(),
{
    if s.len() > 0 && s[0] >= 128 {
        let tail = s.drop_first();
        lemma_continued_run(tail);
        assert forall|i: int| 0 <= i < continued(s) implies s[i] >= 128 by {
            if i > 0 {
                assert(s[i] == tail[i - 1]);
            }
        }
        if continued(s) < s.len() {
            assert(s[continued(s) as int] == tail[continued(tail) as int]);
        }
    }
}

/// Appends the encoding of the low 32 bits of the number to the buffer.
pub fn write_varint(buffer: &mut Vec<u8>, value: usize)
    ensures
        final(buffer)@ == old(buffer)@ + varint_bytes(low32(value as int)),
{
    let mut rest: u64 = (value as u64) & 0xFFFF_FFFF;
    proof {
        let v = value as u64;
        assert(v & 0xFFFF_FFFF == v % 0x1_0000_0000) by (bit_vector);
    }
    let ghost before = buffer@;
    while rest >= 128
        invariant
            buffer@ + varint_bytes(rest as nat) == before + varint_bytes(low32(value as int)),
        decreases rest,
    {
        let temp = (rest & 0b0111_1111) as u8;
        let ghost written = buffer@;
        proof {
            assert(rest & 0b0111_1111 == rest % 128) by (bit_vector);
            assert(rest >> 7 == rest / 128) by (bit_vector);
            assert(temp < 128 ==> temp | 0b1000_0000 == temp + 128) by (bit_vector);
        }
        buffer.push(temp | 0b1000_0000);
        proof {
            assert(buffer@ + varint_bytes((rest / 128) as nat) == written + varint_bytes(rest as nat));
        }
        rest = rest >> 7;
    }
    buffer.push(rest as u8);
}

} // verus!
