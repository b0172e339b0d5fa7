//! Unsigned 256-bit integers, the form in which a hash commitment is kept.

use vstd::prelude::*;

verus! {

/// The weight of the upper half of a [`U256`]: two to the power 128.
pub open spec fn half_weight() -> nat {
    0x1_0000_0000_0000_0000_0000_0000_0000_0000nat
}

/// 256 to the power `n`.
pub open spec fn pow256(n: nat) -> nat
    decreases n,
{
    if n == 0 {
        1
    } else {
        256 * pow256((n - 1) as nat)
    }
}

/// The number that `bytes` spell when read as base-256 digits, the most
/// significant digit first.
pub open spec fn be_value(bytes: Seq<u8>) -> nat
    decreases bytes.len(),
{
    if bytes.len() == 0 {
        0
    } else {
        be_value(bytes.drop_last()) * 256 + bytes.last() as nat
    }
}

/// An unsigned 256-bit integer, held as two 128-bit halves.
#[derive(Copy, Clone, Debug, PartialEq, Eq, Structural)]
pub struct U256 {
    /// The upper 128 bits.
    pub hi: u128,
    /// The lower 128 bits.
    pub lo: u128,
}

impl View for U256 {
    type V = nat;

    open spec fn view(&self) -> nat {
        self.hi as nat * half_weight() + self.lo as nat
    }
}

/// Sixteen base-256 digits reach exactly up to the weight of the upper half.
pub proof fn lemma_pow256_sixteen()
    ensures
        pow256(16) == half_weight(),
{
    assert(pow256(0) == 1);
    assert(pow256(1) == 0x100);
    assert(pow256(2) == 0x1_0000);
    assert(pow256(3) == 0x100_0000);
    assert(pow256(4) == 0x1_0000_0000);
    assert(pow256(5) == 0x100_0000_0000);
    assert(pow256(6) == 0x1_0000_0000_0000);
    assert(pow256(7) == 0x100_0000_0000_0000);
    assert(pow256(8) == 0x1_0000_0000_0000_0000);
    assert(pow256(9) == 0x100_0000_0000_0000_0000);
    assert(pow256(10) == 0x1_0000_0000_0000_0000_0000);
    assert(pow256(11) == 0x100_0000_0000_0000_0000_0000);
    assert(pow256(12) == 0x1_0000_0000_0000_0000_0000_0000);
    assert(pow256(13) == 0x100_0000_0000_0000_0000_0000_0000);
    assert(pow256(14) == 0x1_0000_0000_0000_0000_0000_0000_0000);
    assert(pow256(15) == 0x100_0000_0000_0000_0000_0000_0000_0000);
}

/// The powers of 256 grow with the exponent.
pub proof fn lemma_pow256_monotonic(m: nat, n: nat)
    requires
        m <= n,
    ensures
        1 <= pow256(m) <= pow256(n),
    decreases n,
{
    if n == 0 {
    } else if m == n {
        lemma_pow256_monotonic((m - 1) as nat, (n - 1) as nat);
    } else {
        lemma_pow256_monotonic(m, (n - 1) as nat);
    }
}

/// A big-endian number of `n` digits is below 256 to the power `n`.
pub proof fn lemma_be_value_bound(bytes: Seq<u8>)
    ensures
        be_value(bytes) < pow256(bytes.len()),
    decreases bytes.len(),
{
    if bytes.len() > 0 {
        lemma_be_value_bound(bytes.drop_last());
    }
}

/// Reading `front` followed by `back` shifts the value of `front` up by one
/// digit for every byte of `back`.
pub proof fn lemma_be_value_concat(front: Seq<u8>, back: Seq<u8>)
    ensures
        be_value(front + back) == be_value(front) * pow256(back.len()) + be_value(back),
    decreases back.len(),
{
    if back.len() == 0 {
        assert(be_value(front) * 1 == be_value(front));
    } else {
        let shorter = back.drop_last();
        assert((front + back).drop_last() =~= front + shorter);
        lemma_be_value_concat(front, shorter);
        let f = be_value(front);
        let p = pow256(shorter.len());
        let s = be_value(shorter);
        assert((f * p + s) * 256 == f * (256 * p) + s * 256) by (nonlinear_arith);
    }
}

/// Two big-endian readings of the same length agree only on the same bytes.
pub proof fn lemma_be_value_injective(a: Seq<u8>, b: Seq<u8>)
    requires
        a.len() == b.len(),
        be_value(a) == be_value(b),
    ensures
        a == b,
    decreases a.len(),
{
    if a.len() > 0 {
        lemma_be_value_injective(a.drop_last(), b.drop_last());
        assert(a =~= a.drop_last().push(a.last()));
        assert(b =~= b.drop_last().push(b.last()));
    }
}

impl U256 {
    /// The integer that the bytes spell, the most significant byte first,
    /// where there are 32 of them.
    pub open spec fn spec_from_be_bytes(bytes: Seq<u8>) -> U256 {
        U256 {
            hi: be_value(bytes.subrange(0, 16)) as u128,
            lo: be_value(bytes.subrange(16, 32)) as u128,
        }
    }

    /// The integer with the given halves.
    pub fn from_parts(hi: u128, lo: u128) -> (value: U256)
        ensures
            value == (U256 { hi, lo }),
            value@ == hi as nat * half_weight() + lo as nat,
    {
        U256 { hi, lo }
    }

    /// The integer equal to `v`.
    pub fn from_u128(v: u128) -> (value: U256)
        ensures
            value@ == v as nat,
            value == (U256 { hi: 0, lo: v }),
    {
        U256 { hi: 0, lo: v }
    }

    /// The integer that the 32 bytes spell, the most significant byte first.
    pub fn from_be_bytes(bytes: &[u8; 32]) -> (value: U256)
        ensures
            value@ == be_value(bytes@),
            value == U256::spec_from_be_bytes(bytes@),
    {
        let hi = read_half(bytes, 0);
        let lo = read_half(bytes, 16);
        proof {
            let front = bytes@.subrange(0, 16);
            let back = bytes@.subrange(16, 32);
            assert(bytes@ =~= front + back);
            lemma_be_value_concat(front, back);
            lemma_pow256_sixteen();
        }
        U256 { hi, lo }
    }

    /// The 32 bytes that spell the integer, the most significant byte
    /// first.
    pub fn to_be_bytes(&self) -> (bytes: [u8; 32])
        ensures
            be_value(bytes@) == self@,
            U256::spec_from_be_bytes(bytes@) == *self,
    {
        let mut bytes: [u8; 32] = [0u8; 32];
        write_half(&mut bytes, 0, self.hi);
        let ghost half_done = bytes@;
        write_half(&mut bytes, 16, self.lo);
        proof {
            let front = bytes@.subrange(0, 16);
            let back = bytes@.subrange(16, 32);
            assert(front =~= half_done.subrange(0, 16));
            assert(bytes@ =~= front + back);
            lemma_be_value_concat(front, back);
            lemma_pow256_sixteen();
        }
        bytes
    }

    /// Two integers are the same exactly when their halves are.
    pub proof fn lemma_view_injective(self, other: U256)
        ensures
            (self@ == other@) <==> (self == other),
    {
    }
}

/// Writes `half` big-endian into the sixteen bytes of `bytes` from `start`
/// on.
fn write_half(bytes: &mut [u8; 32], start: usize, half: u128)
    requires
        start <= 16,
    ensures
        be_value(final(bytes)@.subrange(start as int, start + 16)) == half as nat,
        forall|k: int|
            0 <= k < 32 && !(start <= k < start + 16) ==> final(bytes)@[k] == old(bytes)@[k],
{
    let mut rest: u128 = half;
    let mut i: usize = 16;
    proof {
        assert(rest as nat * 1 == rest as nat);
    }
    while i > 0
        invariant
            i <= 16,
            start <= 16,
            rest as nat * pow256((16 - i) as nat) + be_value(
                bytes@.subrange(start + i, start + 16),
            ) == half as nat,
            forall|k: int|
                0 <= k < 32 && !(start <= k < start + 16) ==> bytes@[k] == old(bytes)@[k],
        decreases i,
    {
        let ghost before = bytes@;
        let digit: u8 = (rest % 256) as u8;
        i = i - 1;
        bytes[start + i] = digit;
        proof {
            let tail = before.subrange(start + i + 1, start + 16);
            let head = seq![digit];
            assert(bytes@.subrange(start + i, start + 16) =~= head + tail);
            assert(be_value(head.drop_last()) == 0);
            lemma_be_value_concat(head, tail);
            let p = pow256(tail.len());
            let q = (rest / 256) as nat;
            assert((q * 256 + digit as nat) * p == q * (256 * p) + digit as nat * p)
                by (nonlinear_arith);
        }
        rest = rest / 256;
    }
    proof {
        lemma_pow256_sixteen();
        lemma_be_value_bound(bytes@.subrange(start as int, start + 16));
        assert(rest == 0) by (nonlinear_arith)
            requires
                rest as nat * pow256(16) <= half as nat,
                pow256(16) == 0x1_0000_0000_0000_0000_0000_0000_0000_0000nat,
                half <= u128::MAX,
        ;
    }
}

/// The sixteen bytes of `bytes` from `start` on, read big-endian.
fn read_half(bytes: &[u8; 32], start: usize) -> (half: u128)
    requires
        start <= 16,
    ensures
        half as nat == be_value(bytes@.subrange(start as int, start + 16)),
{
    let mut acc: u128 = 0;
    let mut i: usize = 0;
    while i < 16
        invariant
            i <= 16,
            start <= 16,
            acc as nat == be_value(bytes@.subrange(start as int, start + i)),
        decreases 16 - i,
    {
        let byte = bytes[start + i];
        proof {
            let seen = bytes@.subrange(start as int, start + i);
            let next = bytes@.subrange(start as int, start + i + 1);
            assert(next.drop_last() =~= seen);
            lemma_be_value_bound(seen);
            lemma_pow256_monotonic(i as nat, 15);
            lemma_pow256_sixteen();
        }
        acc = acc * 256 + byte as u128;
        i = i + 1;
    }
    acc
}

} // verus!
