//! 256-bit binary descriptors and their Hamming distance.

use vstd::prelude::*;

verus! {

/// Words of a descriptor.
pub const DESCRIPTOR_WORDS: usize = 8;

/// A 256-bit binary descriptor, as eight 32-bit words.
pub type Descriptor = [u32; 8];

/// The number of set bits of `x`.
pub open spec fn popcount(x: nat) -> nat
    decreases x,
{
    if x == 0 {
        0
    } else {
        x % 2 + popcount(x / 2)
    }
}

/// The number of bits that differ between the first `n` words of `a` and `b`.
pub open spec fn hamming_upto(a: Seq<u32>, b: Seq<u32>, n: int) -> nat
    decreases n,
{
    if n <= 0 {
        0
    } else {
        hamming_upto(a, b, n - 1) + popcount((a[n - 1] ^ b[n - 1]) as nat)
    }
}

/// The Hamming distance of two descriptors.
pub open spec fn hamming(a: Descriptor, b: Descriptor) -> nat {
    hamming_upto(a@, b@, DESCRIPTOR_WORDS as int)
}

proof fn lemma_popcount_bound(x: nat, bits: nat)
    requires
        x < pow2(bits),
    ensures
        popcount(x) <= bits,
    decreases bits,
{
    if bits > 0 && x > 0 {
        assert(x / 2 < pow2((bits - 1) as nat)) by {
            assert(pow2(bits) == 2 * pow2((bits - 1) as nat));
        }
        lemma_popcount_bound(x / 2, (bits - 1) as nat);
    } else if x > 0 {
        assert(pow2(0) == 1);
    }
}

pub open spec fn pow2(n: nat) -> nat
    decreases n,
{
    if n == 0 {
        1
    } else {
        2 * pow2((n - 1) as nat)
    }
}

pub proof fn lemma_pow2_32()
    ensures
        pow2(32) == 0x1_0000_0000,
{
    reveal_with_fuel(pow2, 33);
}

/// The number of set bits of a word.
pub fn popcount_u32(x: u32) -> (r: u32)
    ensures
        r == popcount(x as nat),
        r <= 32,
{
    proof {
        lemma_pow2_32();
        lemma_popcount_bound(x as nat, 32);
    }
    let mut y: u32 = x;
    let mut n: u32 = 0;
    while y > 0
        invariant
            n + popcount(y as nat) == popcount(x as nat),
            popcount(x as nat) <= 32,
        decreases y,
    {
        n = n + y % 2;
        y = y / 2;
    }
    n
}

/// The Hamming distance of two descriptors: the bits in which they differ.
pub fn hamming_distance(a: &Descriptor, b: &Descriptor) -> (r: u32)
    ensures
        r == hamming(*a, *b),
        r <= 256,
{
    let mut d: u32 = 0;
    let mut k: usize = 0;
    while k < DESCRIPTOR_WORDS
        invariant
            k <= DESCRIPTOR_WORDS,
            d == hamming_upto(a@, b@, k as int),
            d <= 32 * k,
        decreases DESCRIPTOR_WORDS - k,
    {
        let c = popcount_u32(a[k] ^ b[k]);
        d = d + c;
        k = k + 1;
    }
    d
}

} // verus!
