//! Arithmetic on 64-bit words and on their eight little-endian limbs.
use vstd::prelude::*;

verus! {

/// Two to the power 64, one more than the largest word.
pub open spec fn pow2_64() -> int {
    0x1_0000_0000_0000_0000
}

/// The sum of two words, reduced modulo two to the 64.
pub open spec fn add_mod_64(a: u64, b: u64) -> u64 {
    ((a + b) % pow2_64()) as u64
}

/// Whether the sum of two words leaves the 64-bit range.
pub open spec fn add_carries(a: u64, b: u64) -> bool {
    a + b >= pow2_64()
}

/// A word rotated to the right by `r` bits, for `0 < r < 64`.
pub open spec fn rotate_right(x: u64, r: u64) -> u64
    recommends
        0 < r < 64,
{
    (x >> r) | (x << ((64 - r) as u64))
}

/// The limb of a word at position `i`, counted from the least significant.
pub open spec fn limb(w: u64, i: int) -> u8
    recommends
        0 <= i < 8,
{
    ((w >> ((8 * i) as u64)) & 0xff) as u8
}

/// The eight limbs of a word, least significant first.
pub open spec fn limbs_of(w: u64) -> Seq<u8> {
    Seq::new(8, |i: int| limb(w, i))
}

/// The number that eight limbs spell, least significant first.
pub open spec fn limbs_value(l: Seq<u8>) -> int
    recommends
        l.len() == 8,
{
    l[0] + l[1] * 0x100 + l[2] * 0x1_0000 + l[3] * 0x100_0000 + l[4] * 0x1_0000_0000 + l[5]
        * 0x100_0000_0000 + l[6] * 0x1_0000_0000_0000 + l[7] * 0x100_0000_0000_0000
}

/// The limbs of a word, rotated by `k` positions towards the least significant:
/// the limb at position `j` is the one that stood at `(j + k) mod 8`.
pub open spec fn rotate_limbs(l: Seq<u8>, k: int) -> Seq<u8>
    recommends
        l.len() == 8,
        0 <= k < 8,
{
    Seq::new(8, |j: int| l[(j + k) % 8])
}

proof fn lemma_limb_sum(w: u64)
    by (bit_vector)
    ensures
        w == (w & 0xff) + ((w >> 8) & 0xff) * 0x100 + ((w >> 16) & 0xff) * 0x1_0000 + ((w >> 24)
            & 0xff) * 0x100_0000 + ((w >> 32) & 0xff) * 0x1_0000_0000 + ((w >> 40) & 0xff)
            * 0x100_0000_0000 + ((w >> 48) & 0xff) * 0x1_0000_0000_0000 + ((w >> 56) & 0xff)
            * 0x100_0000_0000_0000,
{
}

proof fn lemma_limb_is_byte(w: u64, s: u64)
    by (bit_vector)
    requires
        s < 64,
    ensures
        (w >> s) & 0xff < 0x100,
        w >> 0 == w,
{
}

/// The limbs of a word spell that word: the decomposition a row carries is exact.
pub proof fn lemma_limbs_value(w: u64)
    ensures
        limbs_value(limbs_of(w)) == w,
{
    lemma_limb_sum(w);
    lemma_limb_is_byte(w, 0);
    lemma_limb_is_byte(w, 8);
    lemma_limb_is_byte(w, 16);
    lemma_limb_is_byte(w, 24);
    lemma_limb_is_byte(w, 32);
    lemma_limb_is_byte(w, 40);
    lemma_limb_is_byte(w, 48);
    lemma_limb_is_byte(w, 56);
}

/// Eight limbs spell a number below two to the 64.
pub proof fn lemma_limbs_value_bound(l: Seq<u8>)
    requires
        l.len() == 8,
    ensures
        0 <= limbs_value(l) < pow2_64(),
{
}

proof fn lemma_peel(a: u8, b: u8, r: int, t: int)
    requires
        a + 0x100 * r == b + 0x100 * t,
    ensures
        a == b,
        r == t,
{
    assert((a + 0x100 * r) % 0x100 == a) by (nonlinear_arith)
        requires
            0 <= a < 0x100,
    ;
    assert((b + 0x100 * t) % 0x100 == b) by (nonlinear_arith)
        requires
            0 <= b < 0x100,
    ;
}

/// No two different sequences of eight limbs spell the same number.
pub proof fn lemma_limbs_value_injective(l: Seq<u8>, m: Seq<u8>)
    requires
        l.len() == 8,
        m.len() == 8,
        limbs_value(l) == limbs_value(m),
    ensures
        l == m,
{
    let l6 = l[6] + 0x100 * l[7];
    let l5 = l[5] + 0x100 * l6;
    let l4 = l[4] + 0x100 * l5;
    let l3 = l[3] + 0x100 * l4;
    let l2 = l[2] + 0x100 * l3;
    let l1 = l[1] + 0x100 * l2;
    let m6 = m[6] + 0x100 * m[7];
    let m5 = m[5] + 0x100 * m6;
    let m4 = m[4] + 0x100 * m5;
    let m3 = m[3] + 0x100 * m4;
    let m2 = m[2] + 0x100 * m3;
    let m1 = m[1] + 0x100 * m2;
    lemma_peel(l[0], m[0], l1, m1);
    lemma_peel(l[1], m[1], l2, m2);
    lemma_peel(l[2], m[2], l3, m3);
    lemma_peel(l[3], m[3], l4, m4);
    lemma_peel(l[4], m[4], l5, m5);
    lemma_peel(l[5], m[5], l6, m6);
    lemma_peel(l[6], m[6], l[7] as int, m[7] as int);
    assert(l =~= m);
}

/// Limbs that spell a word are the limbs of that word.
pub proof fn lemma_limbs_unique(l: Seq<u8>, w: u64)
    requires
        l.len() == 8,
        limbs_value(l) == w,
    ensures
        l == limbs_of(w),
{
    lemma_limbs_value(w);
    lemma_limbs_value_injective(l, limbs_of(w));
}

proof fn lemma_xor_shift(a: u64, b: u64, s: u64)
    by (bit_vector)
    requires
        s < 64,
    ensures
        (((a ^ b) >> s) & 0xff) as u8 == (((a >> s) & 0xff) as u8) ^ (((b >> s) & 0xff) as u8),
{
}

/// The limbs of the XOR of two words are the XORs of their limbs.
pub proof fn lemma_xor_limbs(a: u64, b: u64, i: int)
    requires
        0 <= i < 8,
    ensures
        limb(a ^ b, i) == limb(a, i) ^ limb(b, i),
{
    lemma_xor_shift(a, b, (8 * i) as u64);
}

/// XOR does not depend on the order of its operands.
pub proof fn lemma_xor_commutes(a: u64, b: u64)
    by (bit_vector)
    ensures
        a ^ b == b ^ a,
{
}

proof fn lemma_rotate_shift(a: u64, r: u64, s: u64)
    by (bit_vector)
    requires
        r == 8 || r == 16 || r == 24 || r == 32 || r == 40 || r == 48 || r == 56,
        s == 0 || s == 8 || s == 16 || s == 24 || s == 32 || s == 40 || s == 48 || s == 56,
    ensures
        ((((a >> r) | (a << ((64 - r) as u64))) >> s) & 0xff) as u8 == ((a >> (((s + r) % 64) as u64))
            & 0xff) as u8,
{
}

/// Rotating a word to the right by `8 * k` bits moves each limb `k` positions
/// towards the least significant end, and the lowest limbs wrap to the top.
pub proof fn lemma_rotate_limbs(a: u64, k: int)
    requires
        1 <= k <= 7,
    ensures
        limbs_of(rotate_right(a, (8 * k) as u64)) == rotate_limbs(limbs_of(a), k),
{
    let r = (8 * k) as u64;
    assert forall|j: int| 0 <= j < 8 implies limb(rotate_right(a, r), j) == limb(a, (j + k) % 8) by {
        lemma_rotate_shift(a, r, (8 * j) as u64);
        assert((8 * j + 8 * k) % 64 == 8 * ((j + k) % 8));
    }
    assert(limbs_of(rotate_right(a, r)) =~= rotate_limbs(limbs_of(a), k));
}

proof fn lemma_rotate_63_bits(a: u64)
    by (bit_vector)
    ensures
        a < 0x8000_0000_0000_0000 ==> ((a >> 63) | (a << 1)) == 2 * a,
        a >= 0x8000_0000_0000_0000 ==> ((a >> 63) | (a << 1)) == 2 * a - 0xffff_ffff_ffff_ffff,
{
}

/// Rotating a word to the right by 63 bits doubles it, and takes two to the 64
/// less one away where the doubling leaves the 64-bit range.
pub proof fn lemma_rotate_63(a: u64)
    ensures
        rotate_right(a, 63) == if a < 0x8000_0000_0000_0000 {
            2 * a
        } else {
            2 * a - (pow2_64() - 1)
        },
{
    lemma_rotate_63_bits(a);
}

/// The bitwise complement of a word is its distance from the largest word.
pub proof fn lemma_not_is_subtraction(a: u64)
    by (bit_vector)
    ensures
        !a == 0xffff_ffff_ffff_ffff - a,
{
}

} // verus!
