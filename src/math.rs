use vstd::prelude::*;
use vstd::arithmetic::power2::{
    pow2, lemma_pow2_pos, lemma_pow2_unfold, lemma_pow2_strictly_increases, lemma2_to64,
};

verus! {

/// `a + b` saturated to the `i64` range.
pub open spec fn sat_add_i64(a: i64, b: i64) -> int {
    let s = a as int + b as int;
    if s > i64::MAX { i64::MAX as int } else if s < i64::MIN { i64::MIN as int } else { s }
}

/// `a - b` saturated to the `i64` range.
pub open spec fn sat_sub_i64(a: i64, b: i64) -> int {
    let s = a as int - b as int;
    if s > i64::MAX { i64::MAX as int } else if s < i64::MIN { i64::MIN as int } else { s }
}

/// `x` saturated to the `u64` range from above.
pub open spec fn sat_u64(x: int) -> int {
    if x > u64::MAX { u64::MAX as int } else { x }
}

/// The smaller of two integers.
pub open spec fn min_int(a: int, b: int) -> int {
    if a <= b { a } else { b }
}

/// The larger of two integers.
pub open spec fn max_int(a: int, b: int) -> int {
    if a >= b { a } else { b }
}

/// `a + b`, saturating at the bounds of `i64`.
pub fn saturating_add_i64(a: i64, b: i64) -> (r: i64)
    ensures
        r == sat_add_i64(a, b),
{
    if b >= 0 {
        if a > i64::MAX - b { i64::MAX } else { a + b }
    } else {
        if a < i64::MIN - b { i64::MIN } else { a + b }
    }
}

/// `a - b`, saturating at the bounds of `i64`.
pub fn saturating_sub_i64(a: i64, b: i64) -> (r: i64)
    ensures
        r == sat_sub_i64(a, b),
{
    if b >= 0 {
        if a < i64::MIN + b { i64::MIN } else { a - b }
    } else {
        if a > i64::MAX + b { i64::MAX } else { a - b }
    }
}

/// The product of two `u64` values fits in a `u128`.
pub proof fn lemma_u64_product_fits(a: u64, b: u64)
    ensures
        a as int * b as int <= u128::MAX,
        0 <= a as int * b as int,
{
    assert(a as int * b as int <= u64::MAX as int * u64::MAX as int) by (nonlinear_arith);
    assert(0 <= a as int * b as int) by (nonlinear_arith);
}

/// `2^k` when it fits in a `u64`.
pub fn checked_pow2(k: u64) -> (r: Option<u64>)
    ensures
        k < 64 ==> r == Some(pow2(k as nat) as u64) && pow2(k as nat) <= u64::MAX,
        k >= 64 ==> r is None,
{
    if k >= 64 {
        return None;
    }
    let mut p: u64 = 1;
    let mut i: u64 = 0;
    proof {
        lemma2_to64();
    }
    while i < k
        invariant
            i <= k < 64,
            p == pow2(i as nat),
            pow2(64) == 0x10000000000000000,
        decreases k - i,
    {
        proof {
            lemma_pow2_unfold((i + 1) as nat);
            lemma_pow2_strictly_increases((i + 1) as nat, 64);
        }
        p = p * 2;
        i = i + 1;
    }
    proof {
        lemma_pow2_strictly_increases(k as nat, 64);
    }
    Some(p)
}

/// The little-endian `u64` held by the 8 bytes at `at`.
#[verifier::opaque]
pub open spec fn u64_le_at(h: Seq<u8>, at: int) -> int {
    h[at] + 256 * (h[at + 1] + 256 * (h[at + 2] + 256 * (h[at + 3] + 256 * (h[at + 4] + 256 * (h[at + 5]
        + 256 * (h[at + 6] + 256 * h[at + 7] as int) as int) as int) as int) as int) as int) as int
}

/// Reads the little-endian `u64` at `at`.
pub fn read_u64_le(h: &[u8; 32], at: usize) -> (r: u64)
    requires
        at + 8 <= 32,
    ensures
        r == u64_le_at(h@, at as int),
{
    reveal(u64_le_at);
    let mut v: u64 = 0;
    let mut k: usize = 8;
    while k > 0
        invariant
            k <= 8,
            at + 8 <= 32,
            h@.len() == 32,
            k == 7 ==> v < 0x100,
            k == 6 ==> v < 0x1_0000,
            k == 5 ==> v < 0x100_0000,
            k == 4 ==> v < 0x1_0000_0000,
            k == 3 ==> v < 0x100_0000_0000,
            k == 2 ==> v < 0x1_0000_0000_0000,
            k == 1 ==> v < 0x100_0000_0000_0000,
            k == 0 ==> v == u64_le_at(h@, at as int),
            k == 1 ==> v == (h@[at + 1] + 256 * (h@[at + 2] + 256 * (h@[at + 3] + 256 * (h@[at + 4] + 256 * (h@[at + 5] + 256 * (h@[at + 6] + 256 * h@[at + 7] as int) as int) as int) as int) as int) as int),
            k == 2 ==> v == (h@[at + 2] + 256 * (h@[at + 3] + 256 * (h@[at + 4] + 256 * (h@[at + 5] + 256 * (h@[at + 6] + 256 * h@[at + 7] as int) as int) as int) as int) as int),
            k == 3 ==> v == (h@[at + 3] + 256 * (h@[at + 4] + 256 * (h@[at + 5] + 256 * (h@[at + 6] + 256 * h@[at + 7] as int) as int) as int) as int),
            k == 4 ==> v == (h@[at + 4] + 256 * (h@[at + 5] + 256 * (h@[at + 6] + 256 * h@[at + 7] as int) as int) as int),
            k == 5 ==> v == (h@[at + 5] + 256 * (h@[at + 6] + 256 * h@[at + 7] as int) as int),
            k == 6 ==> v == (h@[at + 6] + 256 * h@[at + 7] as int),
            k == 7 ==> v == h@[at + 7],
            k == 8 ==> v == 0,
        decreases k,
    {
        proof {
            reveal(u64_le_at);
        }
        v = v * 256 + h[at + k - 1] as u64;
        k = k - 1;
    }
    v
}

/// The little-endian bytes of a `u64`.
pub open spec fn u64_le_bytes(v: u64) -> Seq<u8> {
    Seq::new(8, |i: int| ((v as int / pow2((8 * i) as nat) as int) % 256) as u8)
}

/// The little-endian bytes of `v`.
pub fn to_le_bytes(v: u64) -> (r: Vec<u8>)
    ensures
        r@ == u64_le_bytes(v),
{
    let mut out: Vec<u8> = Vec::new();
    let mut rest: u64 = v;
    let mut i: usize = 0;
    proof {
        lemma2_to64();
        assert(v as int / 1 == v as int);
    }
    while i < 8
        invariant
            i <= 8,
            out@.len() == i,
            rest as int == v as int / pow2((8 * i) as nat) as int,
            forall|k: int| 0 <= k < i ==> out@[k] == u64_le_bytes(v)[k],
        decreases 8 - i,
    {
        proof {
            lemma_pow2_pos((8 * i) as nat);
            lemma_pow2_step(v, (8 * i) as nat);
        }
        out.push((rest % 256) as u8);
        rest = rest / 256;
        i = i + 1;
    }
    assert(out@ == u64_le_bytes(v));
    out
}

proof fn lemma_pow2_step(v: u64, e: nat)
    ensures
        v as int / pow2(e) as int / 256 == v as int / pow2(e + 8) as int,
{
    vstd::arithmetic::power2::lemma_pow2_adds(e, 8);
    lemma2_to64();
    lemma_pow2_pos(e);
    vstd::arithmetic::div_mod::lemma_div_denominator(v as int, pow2(e) as int, 256);
}

/// The two's complement little-endian bytes of an `i64`.
pub open spec fn i64_le_bytes(v: i64) -> Seq<u8> {
    u64_le_bytes((if v < 0 { v + 0x1_0000_0000_0000_0000int } else { v as int }) as u64)
}

/// The two's complement little-endian bytes of `v`.
pub fn i64_to_le_bytes(v: i64) -> (r: Vec<u8>)
    ensures
        r@ == i64_le_bytes(v),
{
    let u: u64 = if v < 0 { (v as i128 + 0x1_0000_0000_0000_0000i128) as u64 } else { v as u64 };
    to_le_bytes(u)
}

} // verus!
