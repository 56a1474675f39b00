//! BLAKE2b as a function on values.
//!
//! A value is an `Option`: `None` stands for a witness that is not known, as
//! while keys are generated. Every operation gives `None` as soon as one of its
//! operands is `None`.
use vstd::prelude::*;
use crate::blake2b::utils::{ABCD, IV_CONSTANTS, SIGMA};
use crate::spec::words::{add_carries, add_mod_64, limb, limbs_value, rotate_right};

verus! {

/// The sum of two words modulo two to the 64.
pub open spec fn word_add(a: Option<u64>, b: Option<u64>) -> Option<u64> {
    match (a, b) {
        (Some(x), Some(y)) => Some(add_mod_64(x, y)),
        _ => None,
    }
}

/// The carry of the sum of two words.
pub open spec fn word_carry(a: Option<u64>, b: Option<u64>) -> Option<bool> {
    match (a, b) {
        (Some(x), Some(y)) => Some(add_carries(x, y)),
        _ => None,
    }
}

/// The bitwise exclusive or of two words.
pub open spec fn word_xor(a: Option<u64>, b: Option<u64>) -> Option<u64> {
    match (a, b) {
        (Some(x), Some(y)) => Some(x ^ y),
        _ => None,
    }
}

/// A word rotated to the right by `r` bits.
pub open spec fn word_rotate_right(a: Option<u64>, r: u64) -> Option<u64> {
    match a {
        Some(x) => Some(rotate_right(x, r)),
        None => None,
    }
}

/// The bitwise complement of a word.
pub open spec fn word_not(a: Option<u64>) -> Option<u64> {
    match a {
        Some(x) => Some(!x),
        None => None,
    }
}

/// The limb of a word at position `i`.
pub open spec fn word_limb(a: Option<u64>, i: int) -> Option<u8> {
    match a {
        Some(x) => Some(limb(x, i)),
        None => None,
    }
}

/// The eight limbs of a word, least significant first.
pub open spec fn word_limbs(a: Option<u64>) -> Seq<Option<u8>> {
    Seq::new(8, |i: int| word_limb(a, i))
}

/// Whether every value of a sequence is known.
pub open spec fn all_known<T>(s: Seq<Option<T>>) -> bool {
    forall|i: int| 0 <= i < s.len() ==> (#[trigger] s[i]) is Some
}

/// The word that eight bytes spell, least significant first; known when all
/// eight are.
pub open spec fn bytes_word(b: Seq<Option<u8>>) -> Option<u64>
    recommends
        b.len() == 8,
{
    if all_known(b) {
        Some(limbs_value(Seq::new(8, |i: int| b[i]->0)) as u64)
    } else {
        None
    }
}

/// The mixing function G, applied to the working vector `v` at the positions
/// `a`, `b`, `c`, `d` with the message words `x` and `y`.
pub open spec fn mix(
    v: Seq<Option<u64>>,
    a: int,
    b: int,
    c: int,
    d: int,
    x: Option<u64>,
    y: Option<u64>,
) -> Seq<Option<u64>> {
    let va = word_add(word_add(v[a], v[b]), x);
    let vd = word_rotate_right(word_xor(v[d], va), 32);
    let vc = word_add(v[c], vd);
    let vb = word_rotate_right(word_xor(v[b], vc), 24);
    let va = word_add(word_add(va, vb), y);
    let vd = word_rotate_right(word_xor(vd, va), 16);
    let vc = word_add(vc, vd);
    let vb = word_rotate_right(word_xor(vb, vc), 63);
    v.update(a, va).update(b, vb).update(c, vc).update(d, vd)
}

/// Mixing step `j` of round `round`: the positions come from `ABCD`, the
/// message words from the block `m` by the schedule `SIGMA`.
pub open spec fn mix_step(v: Seq<Option<u64>>, m: Seq<Option<u64>>, round: int, j: int) -> Seq<
    Option<u64>,
>
    recommends
        0 <= round < 12,
        0 <= j < 8,
{
    mix(
        v,
        ABCD[j][0] as int,
        ABCD[j][1] as int,
        ABCD[j][2] as int,
        ABCD[j][3] as int,
        m[SIGMA[round][2 * j] as int],
        m[SIGMA[round][2 * j + 1] as int],
    )
}

/// The working vector after the first `n` mixing steps. Eight steps make a
/// round, so step `k` is step `k mod 8` of round `k / 8`.
pub open spec fn mixed(v: Seq<Option<u64>>, m: Seq<Option<u64>>, n: nat) -> Seq<Option<u64>>
    decreases n,
{
    if n == 0 {
        v
    } else {
        mix_step(mixed(v, m, (n - 1) as nat), m, (n - 1) / 8, (n - 1) % 8)
    }
}

/// The working vector that a compression starts from: the hash state, then
/// the initialization vector with the count of processed bytes folded into
/// word 12 and, for the last block, word 14 complemented.
pub open spec fn initial_vector(h: Seq<Option<u64>>, t: u64, last: bool) -> Seq<Option<u64>> {
    Seq::new(
        16,
        |i: int|
            if i < 8 {
                h[i]
            } else if i == 12 {
                Some(IV_CONSTANTS[4] ^ t)
            } else if i == 14 && last {
                Some(!IV_CONSTANTS[6])
            } else {
                Some(IV_CONSTANTS[i - 8])
            },
    )
}

/// The compression function F: twelve rounds on the working vector, then
/// each state word is XORed with the two halves of the vector.
pub open spec fn compress(h: Seq<Option<u64>>, m: Seq<Option<u64>>, t: u64, last: bool) -> Seq<
    Option<u64>,
> {
    let v = mixed(initial_vector(h, t, last), m, 96);
    Seq::new(8, |i: int| word_xor(word_xor(h[i], v[i]), v[i + 8]))
}

/// The number of blocks that an input and a key of the given lengths are
/// hashed in: a key takes the first block alone, and an empty message with no
/// key still takes one.
pub open spec fn total_blocks(input_len: int, key_len: int) -> int {
    let input_blocks = (input_len + 127) / 128;
    if key_len == 0 {
        if input_len == 0 {
            1
        } else {
            input_blocks
        }
    } else if input_len == 0 {
        1
    } else {
        input_blocks + 1
    }
}

/// The count of bytes processed once block `i` has been compressed.
pub open spec fn processed_bytes(i: int, input_len: int, key_len: int) -> int {
    if i == total_blocks(input_len, key_len) - 1 {
        input_len + if key_len == 0 {
            0int
        } else {
            128int
        }
    } else {
        128 * (i + 1)
    }
}

/// The 128 bytes of block `i`: the key in block 0 when there is one, else the
/// next 128 bytes of the input, in both cases filled up with zeros at the end.
pub open spec fn block_bytes(input: Seq<Option<u8>>, key: Seq<Option<u8>>, i: int) -> Seq<
    Option<u8>,
> {
    let first = if key.len() == 0 {
        128 * i
    } else {
        128 * (i - 1)
    };
    Seq::new(
        128,
        |k: int|
            if key.len() > 0 && i == 0 {
                if k < key.len() {
                    key[k]
                } else {
                    Some(0u8)
                }
            } else if first + k < input.len() {
                input[first + k]
            } else {
                Some(0u8)
            },
    )
}

/// The sixteen words of a block of 128 bytes.
pub open spec fn block_words(bytes: Seq<Option<u8>>) -> Seq<Option<u64>>
    recommends
        bytes.len() == 128,
{
    Seq::new(16, |k: int| bytes_word(bytes.subrange(8 * k, 8 * k + 8)))
}

/// The hash state before the first block: the initialization vector, with the
/// key length and the digest length folded into word 0.
pub open spec fn initial_state(key_len: int, output_size: int) -> Seq<Option<u64>> {
    Seq::new(
        8,
        |i: int|
            if i == 0 {
                Some(
                    IV_CONSTANTS[0] ^ 0x01010000u64 ^ ((key_len as u64) << 8) ^ (output_size as u64),
                )
            } else {
                Some(IV_CONSTANTS[i])
            },
    )
}

/// The hash state after the first `n` blocks, where `h0` is the state before
/// the first.
pub open spec fn state_after(
    h0: Seq<Option<u64>>,
    input: Seq<Option<u8>>,
    key: Seq<Option<u8>>,
    n: nat,
) -> Seq<Option<u64>>
    decreases n,
{
    if n == 0 {
        h0
    } else {
        compress(
            state_after(h0, input, key, (n - 1) as nat),
            block_words(block_bytes(input, key, n - 1)),
            processed_bytes(n - 1, input.len() as int, key.len() as int) as u64,
            n == total_blocks(input.len() as int, key.len() as int),
        )
    }
}

/// The 64 bytes that a hash state spells: the limbs of its eight words.
pub open spec fn state_bytes(h: Seq<Option<u64>>) -> Seq<Option<u8>> {
    Seq::new(64, |i: int| word_limb(h[i / 8], i % 8))
}

/// The 64 bytes of the final hash state. The digest of length `output_size` is
/// their first `output_size` bytes.
pub open spec fn digest(input: Seq<Option<u8>>, key: Seq<Option<u8>>, output_size: int) -> Seq<
    Option<u8>,
> {
    state_bytes(
        state_after(
            initial_state(key.len() as int, output_size),
            input,
            key,
            total_blocks(input.len() as int, key.len() as int) as nat,
        ),
    )
}

/// A mixing step on a working vector of known words, with known message
/// words, gives a working vector of known words.
pub proof fn lemma_mix_known(
    v: Seq<Option<u64>>,
    a: int,
    b: int,
    c: int,
    d: int,
    x: Option<u64>,
    y: Option<u64>,
)
    requires
        v.len() == 16,
        all_known(v),
        0 <= a < 16,
        0 <= b < 16,
        0 <= c < 16,
        0 <= d < 16,
        x is Some,
        y is Some,
    ensures
        mix(v, a, b, c, d, x, y).len() == 16,
        all_known(mix(v, a, b, c, d, x, y)),
{
    assert(v[a] is Some && v[b] is Some && v[c] is Some && v[d] is Some);
}

/// Any number of mixing steps, up to the 96 of a compression, keeps a working
/// vector of known words known, where the block is known.
pub proof fn lemma_mixed_known(v: Seq<Option<u64>>, m: Seq<Option<u64>>, n: nat)
    requires
        v.len() == 16,
        all_known(v),
        m.len() == 16,
        all_known(m),
        n <= 96,
    ensures
        mixed(v, m, n).len() == 16,
        all_known(mixed(v, m, n)),
    decreases n,
{
    if n > 0 {
        lemma_mixed_known(v, m, (n - 1) as nat);
        let round = (n - 1) / 8;
        let j = (n - 1) % 8;
        let before = mixed(v, m, (n - 1) as nat);
        assert(0 <= round < 12 && 0 <= j < 8);
        assert(SIGMA[round][2 * j] < 16 && SIGMA[round][2 * j + 1] < 16);
        assert(ABCD[j][0] < 16 && ABCD[j][1] < 16 && ABCD[j][2] < 16 && ABCD[j][3] < 16);
        assert(m[SIGMA[round][2 * j] as int] is Some);
        assert(m[SIGMA[round][2 * j + 1] as int] is Some);
        lemma_mix_known(
            before,
            ABCD[j][0] as int,
            ABCD[j][1] as int,
            ABCD[j][2] as int,
            ABCD[j][3] as int,
            m[SIGMA[round][2 * j] as int],
            m[SIGMA[round][2 * j + 1] as int],
        );
    }
}

/// The compression of a known block into a known hash state gives a known
/// hash state.
pub proof fn lemma_compress_known(h: Seq<Option<u64>>, m: Seq<Option<u64>>, t: u64, last: bool)
    requires
        h.len() == 8,
        all_known(h),
        m.len() == 16,
        all_known(m),
    ensures
        compress(h, m, t, last).len() == 8,
        all_known(compress(h, m, t, last)),
{
    let v0 = initial_vector(h, t, last);
    assert forall|i: int| 0 <= i < 16 implies (#[trigger] v0[i]) is Some by {
        if i < 8 {
            assert(h[i] is Some);
        }
    }
    lemma_mixed_known(v0, m, 96);
    let v = mixed(v0, m, 96);
    assert forall|i: int| 0 <= i < 8 implies (#[trigger] compress(h, m, t, last)[i]) is Some by {
        assert(h[i] is Some && v[i] is Some && v[i + 8] is Some);
    }
}

/// Every block of a known input and a known key is made of known words.
pub proof fn lemma_block_known(input: Seq<Option<u8>>, key: Seq<Option<u8>>, i: int)
    requires
        all_known(input),
        all_known(key),
        0 <= i,
    ensures
        block_words(block_bytes(input, key, i)).len() == 16,
        all_known(block_words(block_bytes(input, key, i))),
{
    let bytes = block_bytes(input, key, i);
    assert forall|k: int| 0 <= k < 128 implies (#[trigger] bytes[k]) is Some by {
        let first = if key.len() == 0 {
            128 * i
        } else {
            128 * (i - 1)
        };
        if key.len() > 0 && i == 0 {
            if k < key.len() {
                assert(key[k] is Some);
            }
        } else if first + k < input.len() {
            assert(input[first + k] is Some);
        }
    }
    assert forall|k: int| 0 <= k < 16 implies (#[trigger] block_words(bytes)[k]) is Some by {
        let part = bytes.subrange(8 * k, 8 * k + 8);
        assert forall|j: int| 0 <= j < 8 implies (#[trigger] part[j]) is Some by {
            assert(bytes[8 * k + j] is Some);
        }
    }
}

/// The hash state after any number of blocks of a known input and a known
/// key is known, where the state before the first block is.
pub proof fn lemma_state_known(
    h0: Seq<Option<u64>>,
    input: Seq<Option<u8>>,
    key: Seq<Option<u8>>,
    n: nat,
)
    requires
        h0.len() == 8,
        all_known(h0),
        all_known(input),
        all_known(key),
    ensures
        state_after(h0, input, key, n).len() == 8,
        all_known(state_after(h0, input, key, n)),
    decreases n,
{
    if n > 0 {
        lemma_state_known(h0, input, key, (n - 1) as nat);
        lemma_block_known(input, key, n - 1);
        lemma_compress_known(
            state_after(h0, input, key, (n - 1) as nat),
            block_words(block_bytes(input, key, n - 1)),
            processed_bytes(n - 1, input.len() as int, key.len() as int) as u64,
            n == total_blocks(input.len() as int, key.len() as int),
        );
    }
}

/// Where every byte of the input and of the key is known, every byte of the
/// digest is: a witness for the whole hash follows from a witness for its input.
pub proof fn lemma_digest_known(input: Seq<Option<u8>>, key: Seq<Option<u8>>, output_size: int)
    requires
        all_known(input),
        all_known(key),
    ensures
        digest(input, key, output_size).len() == 64,
        all_known(digest(input, key, output_size)),
{
    let h0 = initial_state(key.len() as int, output_size);
    let blocks = total_blocks(input.len() as int, key.len() as int);
    lemma_state_known(h0, input, key, blocks as nat);
    let h = state_after(h0, input, key, blocks as nat);
    assert forall|i: int| 0 <= i < 64 implies (#[trigger] digest(input, key, output_size)[i])
        is Some by {
        assert(h[i / 8] is Some);
    }
}

} // verus!
