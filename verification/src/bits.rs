//! Bit-level model of 64-square masks: single-bit tests, population count,
//! and the handful of bitwise facts the board and evaluator proofs rest on.

use vstd::prelude::*;

verus! {

/// True when bit `k` of `m` is set.
pub open spec fn nth_bit(m: u64, k: u64) -> bool {
    (m >> k) & 1 == 1
}

/// Number of set bits among the low `n` bits of `m`.
pub open spec fn pop_upto(m: u64, n: int) -> int
    decreases n,
{
    if n <= 0 {
        0
    } else {
        pop_upto(m, n - 1) + if nth_bit(m, (n - 1) as u64) {
            1int
        } else {
            0int
        }
    }
}

/// Number of set bits of `m`.
pub open spec fn pop64(m: u64) -> int {
    pop_upto(m, 64)
}

/// Counts the set bits of `m`.
pub fn popcount(m: u64) -> (r: u32)
    ensures
        r as int == pop64(m),
        r <= 64,
{
    let mut k: u64 = 0;
    let mut acc: u32 = 0;
    while k < 64
        invariant
            k <= 64,
            acc as int == pop_upto(m, k as int),
            acc <= k,
        decreases 64 - k,
    {
        if (m >> k) & 1 == 1 {
            acc = acc + 1;
        }
        k = k + 1;
    }
    acc
}

/// Testing a bit with a mask agrees with `nth_bit`.
pub proof fn lemma_bit_test(m: u64, k: u64)
    requires
        k < 64,
    ensures
        nth_bit(m, k) <==> (m & (1u64 << k)) != 0,
{
    assert(((m >> k) & 1 == 1) <==> (m & (1u64 << k)) != 0) by (bit_vector)
        requires
            k < 64,
    ;
}

/// Bits of a union are the union of the bits.
pub proof fn lemma_or_bit(a: u64, b: u64, k: u64)
    requires
        k < 64,
    ensures
        nth_bit(a | b, k) <==> (nth_bit(a, k) || nth_bit(b, k)),
{
    assert((((a | b) >> k) & 1 == 1) <==> ((a >> k) & 1 == 1 || (b >> k) & 1 == 1))
        by (bit_vector);
}

/// A one-bit mask has exactly that bit.
pub proof fn lemma_shl_bit(k: u64, j: u64)
    requires
        k < 64,
        j < 64,
    ensures
        nth_bit(1u64 << k, j) <==> j == k,
{
    assert((((1u64 << k) >> j) & 1 == 1) <==> j == k) by (bit_vector)
        requires
            k < 64,
            j < 64,
    ;
}

/// The zero mask has no bits.
pub proof fn lemma_zero_bit(k: u64)
    ensures
        !nth_bit(0u64, k),
{
    assert(!((0u64 >> k) & 1 == 1)) by (bit_vector);
}

/// A union is zero exactly when both sides are.
pub proof fn lemma_or_zero(a: u64, b: u64)
    ensures
        (a | b) == 0 <==> (a == 0 && b == 0),
{
    assert(((a | b) == 0) <==> (a == 0 && b == 0)) by (bit_vector);
}

/// Disjoint masks share no bit.
pub proof fn lemma_disjoint_bit(a: u64, b: u64, k: u64)
    requires
        k < 64,
        a & b == 0,
    ensures
        !(nth_bit(a, k) && nth_bit(b, k)),
{
    assert(a & b == 0 ==> !((a >> k) & 1 == 1 && (b >> k) & 1 == 1)) by (bit_vector);
}

/// The population count of a disjoint union is the sum of the counts.
pub proof fn lemma_pop_disjoint(a: u64, b: u64)
    requires
        a & b == 0,
    ensures
        pop64(a | b) == pop64(a) + pop64(b),
{
    lemma_pop_upto_disjoint(a, b, 64);
}

proof fn lemma_pop_upto_disjoint(a: u64, b: u64, n: int)
    requires
        a & b == 0,
        n <= 64,
    ensures
        pop_upto(a | b, n) == pop_upto(a, n) + pop_upto(b, n),
    decreases n,
{
    if n > 0 {
        lemma_pop_upto_disjoint(a, b, n - 1);
        lemma_or_bit(a, b, (n - 1) as u64);
        lemma_disjoint_bit(a, b, (n - 1) as u64);
    }
}

/// The population count never exceeds the number of counted bits.
pub proof fn lemma_pop_bound(m: u64)
    ensures
        0 <= pop64(m) <= 64,
{
    lemma_pop_upto_bound(m, 64);
}

proof fn lemma_pop_upto_bound(m: u64, n: int)
    ensures
        0 <= pop_upto(m, n) <= if n <= 0 {
            0int
        } else {
            n
        },
    decreases n,
{
    if n > 0 {
        lemma_pop_upto_bound(m, n - 1);
    }
}

/// A one-bit mask has population count one.
pub proof fn lemma_pop_single(k: u64)
    requires
        k < 64,
    ensures
        pop64(1u64 << k) == 1,
{
    lemma_pop_upto_single(k, 64);
}

proof fn lemma_pop_upto_single(k: u64, n: int)
    requires
        k < 64,
        n <= 64,
    ensures
        pop_upto(1u64 << k, n) == if k < n {
            1int
        } else {
            0int
        },
    decreases n,
{
    if n > 0 {
        lemma_pop_upto_single(k, n - 1);
        lemma_shl_bit(k, (n - 1) as u64);
    }
}

/// A mask splits into the part inside and the part outside another mask.
pub proof fn lemma_pop_split(w: u64, f: u64)
    ensures
        pop64(w) == pop64(w & !f) + pop64(w & f),
{
    assert((w & !f) & (w & f) == 0 && ((w & !f) | (w & f)) == w) by (bit_vector);
    lemma_pop_disjoint(w & !f, w & f);
    assert(pop64((w & !f) | (w & f)) == pop64(w));
}

/// Commutativity of the bitwise intersection.
pub proof fn lemma_and_comm(a: u64, b: u64)
    ensures
        a & b == b & a,
{
    assert(a & b == b & a) by (bit_vector);
}

/// `x | 0 == x`, `0 | x == x` and `x | x == x`.
pub proof fn lemma_or_ident(x: u64)
    ensures
        x | 0 == x,
        0 | x == x,
        x | x == x,
{
    assert(x | 0 == x && 0 | x == x && x | x == x) by (bit_vector);
}

/// Associativity of the bitwise union.
pub proof fn lemma_or_assoc(a: u64, b: u64, c: u64)
    ensures
        a | (b | c) == (a | b) | c,
{
    assert(a | (b | c) == (a | b) | c) by (bit_vector);
}

} // verus!
