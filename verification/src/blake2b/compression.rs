//! The compression function of BLAKE2b, laid out in the trace.
//!
//! A compression sets a working vector up, mixes it for twelve rounds of eight
//! steps with the words of one block, and folds it back into the hash state.
use vstd::prelude::*;
use midnight_proofs::plonk::Error;
use crate::backend::{extends, has_rows, is_enabled, region_rows, RegionHandle};
use crate::blake2b::utils::{word_values, ABCD, IV_CONSTANTS, SIGMA};
use crate::spec::hash::{initial_vector, mix_step, mixed, state_bytes, word_limb, word_xor};
use crate::spec::words::lemma_xor_commutes;
use crate::types::blake2b_word::{lemma_copy_kept, AssignedBlake2bWord, Blake2bWord};
use crate::types::byte::AssignedByte;
use crate::types::row::AssignedRow;
use crate::blake2b::blake2b_chip::{
    byte_values, holds_iv, Blake2bChip, COMPRESS_ROWS, MIX_ROWS, NEGATION_ROWS,
};
use crate::blake2b::mixing::MixRows;

verus! {

impl Blake2bChip {
    /// The region holds what sets a working vector up from `start` on:
    /// `vector` takes its first eight words from the hash state `h` and the
    /// others from the initialization vector `iv`, but for word 12, which is a
    /// constant of the circuit, and, in the last block, word 14, which is the
    /// negation of the word of `iv` at its position.
    #[verifier::opaque]
    pub open spec fn vector_at(
        &self,
        region: RegionHandle<'_>,
        start: int,
        h: Seq<AssignedBlake2bWord>,
        iv: Seq<AssignedBlake2bWord>,
        t: u64,
        last: bool,
        vector: Seq<AssignedBlake2bWord>,
    ) -> bool {
        &&& vector.len() == 16
        &&& forall|i: int| 0 <= i < 8 ==> (#[trigger] vector[i]) == h[i]
        &&& forall|i: int|
            8 <= i < 16 && i != 12 && !(last && i == 14) ==> (#[trigger] vector[i]) == iv[i - 8]
        &&& vector[12].fixed_at(region, self@.full_number_u64, start)
        &&& vector[12]@ == Some(IV_CONSTANTS[4] ^ t)
        &&& last ==> {
            &&& is_enabled(region, self@.negate_config.q_negate, start + 1)
            &&& iv[6].copied_to(region, self@.full_number_u64, start + 1)
            &&& vector[14].stands_at(region, self@.full_number_u64, start + 2)
        }
    }

    /// A region that is further filled still holds a set-up that it held.
    pub proof fn lemma_vector_kept(
        &self,
        earlier: RegionHandle<'_>,
        later: RegionHandle<'_>,
        start: int,
        h: Seq<AssignedBlake2bWord>,
        iv: Seq<AssignedBlake2bWord>,
        t: u64,
        last: bool,
        vector: Seq<AssignedBlake2bWord>,
    )
        requires
            extends(later, earlier),
            self.vector_at(earlier, start, h, iv, t, last, vector),
        ensures
            self.vector_at(later, start, h, iv, t, last, vector),
    {
        reveal(Blake2bChip::vector_at);
        if last {
            lemma_copy_kept(earlier, later, iv[6], self@.full_number_u64, start + 1);
        }
    }

    /// Sets the working vector of a compression up: the hash state, then the
    /// initialization vector, with the count of processed bytes folded into word
    /// 12 as a constant of the circuit and, for the last block, word 14 negated.
    fn set_working_vector_up(
        &self,
        region: &mut RegionHandle<'_>,
        row_offset: &mut usize,
        iv_constants: &[AssignedBlake2bWord; 8],
        global_state: &[AssignedBlake2bWord; 8],
        processed_bytes_count: u64,
        is_last_block: bool,
    ) -> (r: Result<[AssignedBlake2bWord; 16], Error>)
        requires
            has_rows(*old(region), *old(row_offset), 1 + if is_last_block {
                NEGATION_ROWS as int
            } else {
                0
            }),
            holds_iv(iv_constants@),
        ensures
            extends(*final(region), *old(region)),
            r matches Ok(state) ==> {
                &&& *final(row_offset) == *old(row_offset) + 1 + if is_last_block {
                    NEGATION_ROWS as int
                } else {
                    0
                }
                &&& word_values(state@) == initial_vector(
                    word_values(global_state@),
                    processed_bytes_count,
                    is_last_block,
                )
                &&& self.vector_at(
                    *final(region),
                    *old(row_offset) as int,
                    global_state@,
                    iv_constants@,
                    processed_bytes_count,
                    is_last_block,
                    state@,
                )
            },
    {
        let mut state: [AssignedBlake2bWord; 16] = [global_state[0];16];
        let mut k: usize = 0;
        while k < 8
            invariant
                0 <= k <= 8,
                forall|i: int| 0 <= i < k ==> (#[trigger] state[i]) == global_state[i],
                forall|i: int| 8 <= i < 8 + k ==> (#[trigger] state[i]) == iv_constants[i - 8],
            decreases 8 - k,
        {
            state[k] = global_state[k];
            state[8 + k] = iv_constants[k];
            k = k + 1;
        }

        // The counter of processed bytes is public, so the word it is folded
        // into is a constant of the circuit.
        let new_state_12 = processed_bytes_count ^ IV_CONSTANTS[4];
        proof {
            lemma_xor_commutes(processed_bytes_count, IV_CONSTANTS[4]);
        }
        state[12] = AssignedBlake2bWord::assign_fixed_word(
            region,
            "New state[12]",
            &self.config().full_number_u64,
            *row_offset,
            Blake2bWord(new_state_12),
        )?;
        *row_offset = *row_offset + 1;

        if is_last_block {
            let state_14 = state[14];
            state[14] = self.not(&state_14, region, row_offset)?;
        }
        proof {
            let h = word_values(global_state@);
            let v0 = initial_vector(h, processed_bytes_count, is_last_block);
            assert forall|i: int| 0 <= i < 16 implies word_values(state@)[i] == v0[i] by {
                if 8 <= i {
                    assert(iv_constants@[i - 8]@ == Some(IV_CONSTANTS[i - 8]));
                }
            }
            assert(word_values(state@) =~= v0);
            assert(self.vector_at(
                *region,
                *old(row_offset) as int,
                global_state@,
                iv_constants@,
                processed_bytes_count,
                is_last_block,
                state@,
            )) by {
                reveal(Blake2bChip::vector_at);
            }
        }
        Ok(state)
    }

    /// The region holds mixing step `n` of a compression from `start` on: it
    /// mixes the words of the working vector `before` that `ABCD` names with
    /// the words of the block that `SIGMA` names, and `after` is the working
    /// vector with the four words that the step leaves in their places.
    #[verifier::opaque]
    pub open spec fn step_at(
        &self,
        region: RegionHandle<'_>,
        start: int,
        n: int,
        block: Seq<AssignedBlake2bWord>,
        before: Seq<AssignedBlake2bWord>,
        after: Seq<AssignedBlake2bWord>,
    ) -> bool {
        let a = ABCD[n % 8][0] as int;
        let b = ABCD[n % 8][1] as int;
        let c = ABCD[n % 8][2] as int;
        let d = ABCD[n % 8][3] as int;
        exists|rows: MixRows| #[trigger]
            self.mix_at(
                region,
                start,
                before[a],
                before[b],
                before[c],
                before[d],
                block[SIGMA[n / 8][2 * (n % 8)] as int],
                block[SIGMA[n / 8][2 * (n % 8) + 1] as int],
                rows,
            ) && after == before.update(a, rows.last_a.full_number).update(b, rows.last_b).update(
                c,
                rows.last_c.full_number,
            ).update(d, rows.last_d)
    }

    /// A region that is further filled still holds a step that it held.
    pub proof fn lemma_step_kept(
        &self,
        earlier: RegionHandle<'_>,
        later: RegionHandle<'_>,
        start: int,
        n: int,
        block: Seq<AssignedBlake2bWord>,
        before: Seq<AssignedBlake2bWord>,
        after: Seq<AssignedBlake2bWord>,
    )
        requires
            extends(later, earlier),
            self.step_at(earlier, start, n, block, before, after),
        ensures
            self.step_at(later, start, n, block, before, after),
    {
        reveal(Blake2bChip::step_at);
        let a = ABCD[n % 8][0] as int;
        let b = ABCD[n % 8][1] as int;
        let c = ABCD[n % 8][2] as int;
        let d = ABCD[n % 8][3] as int;
        let x = block[SIGMA[n / 8][2 * (n % 8)] as int];
        let y = block[SIGMA[n / 8][2 * (n % 8) + 1] as int];
        let rows = choose|rows: MixRows| #[trigger]
            self.mix_at(earlier, start, before[a], before[b], before[c], before[d], x, y, rows)
                && after == before.update(a, rows.last_a.full_number).update(
                b,
                rows.last_b,
            ).update(c, rows.last_c.full_number).update(d, rows.last_d);
        self.lemma_mix_kept(
            earlier,
            later,
            start,
            before[a],
            before[b],
            before[c],
            before[d],
            x,
            y,
            rows,
        );
    }

    /// Mixing step `j` of round `i` holds as step `8 i + j` of a compression
    /// where the chip has just laid it out.
    proof fn lemma_step_laid_out(
        &self,
        region: RegionHandle<'_>,
        start: int,
        i: int,
        j: int,
        block: Seq<AssignedBlake2bWord>,
        before: Seq<AssignedBlake2bWord>,
        after: Seq<AssignedBlake2bWord>,
    )
        requires
            0 <= i < 12,
            0 <= j < 8,
            exists|rows: MixRows| #[trigger]
                self.mix_at(
                    region,
                    start,
                    before[ABCD[j][0] as int],
                    before[ABCD[j][1] as int],
                    before[ABCD[j][2] as int],
                    before[ABCD[j][3] as int],
                    block[SIGMA[i][2 * j] as int],
                    block[SIGMA[i][2 * j + 1] as int],
                    rows,
                ) && after == before.update(ABCD[j][0] as int, rows.last_a.full_number).update(
                    ABCD[j][1] as int,
                    rows.last_b,
                ).update(ABCD[j][2] as int, rows.last_c.full_number).update(
                    ABCD[j][3] as int,
                    rows.last_d,
                ),
        ensures
            self.step_at(region, start, 8 * i + j, block, before, after),
    {
        reveal(Blake2bChip::step_at);
        assert((8 * i + j) / 8 == i && (8 * i + j) % 8 == j);
    }

    /// The region holds the 96 mixing steps of a compression from `start` on,
    /// 25 rows each: `vectors` are the working vectors before each step and
    /// after the last.
    #[verifier::opaque]
    pub open spec fn rounds_at(
        &self,
        region: RegionHandle<'_>,
        start: int,
        block: Seq<AssignedBlake2bWord>,
        vectors: Seq<Seq<AssignedBlake2bWord>>,
    ) -> bool {
        &&& vectors.len() == 97
        &&& forall|n: int|
            0 <= n < 96 ==> self.step_at(
                region,
                start + 25 * n,
                n,
                block,
                #[trigger] vectors[n],
                vectors[n + 1],
            )
    }

    /// A region that is further filled still holds the steps that it held.
    pub proof fn lemma_rounds_kept(
        &self,
        earlier: RegionHandle<'_>,
        later: RegionHandle<'_>,
        start: int,
        block: Seq<AssignedBlake2bWord>,
        vectors: Seq<Seq<AssignedBlake2bWord>>,
    )
        requires
            extends(later, earlier),
            self.rounds_at(earlier, start, block, vectors),
        ensures
            self.rounds_at(later, start, block, vectors),
    {
        reveal(Blake2bChip::rounds_at);
        assert forall|n: int| 0 <= n < 96 implies self.step_at(
            later,
            start + 25 * n,
            n,
            block,
            #[trigger] vectors[n],
            vectors[n + 1],
        ) by {
            self.lemma_step_kept(earlier, later, start + 25 * n, n, block, vectors[n], vectors[n + 1]);
        }
    }

    /// The 96 mixing steps of a compression: twelve rounds of eight steps on
    /// the working vector `state`, with the words of `current_block`.
    fn mix_rounds(
        &self,
        region: &mut RegionHandle<'_>,
        row_offset: &mut usize,
        current_block: &[AssignedBlake2bWord; 16],
        state: &mut [AssignedBlake2bWord; 16],
    ) -> (r: Result<Ghost<Seq<Seq<AssignedBlake2bWord>>>, Error>)
        requires
            has_rows(*old(region), *old(row_offset), 96 * MIX_ROWS),
        ensures
            extends(*final(region), *old(region)),
            r matches Ok(vectors) ==> {
                &&& *final(row_offset) == *old(row_offset) + 96 * MIX_ROWS
                &&& word_values(final(state)@) == mixed(
                    word_values(old(state)@),
                    word_values(current_block@),
                    96,
                )
                &&& vectors@.len() == 97
                &&& vectors@[0] == old(state)@
                &&& vectors@[96] == final(state)@
                &&& self.rounds_at(
                    *final(region),
                    *old(row_offset) as int,
                    current_block@,
                    vectors@,
                )
            },
    {
        let ghost v0 = word_values(state@);
        let ghost m = word_values(current_block@);
        let ghost start = *row_offset as int;
        let ghost first_vector = state@;
        let ghost mut vectors: Seq<Seq<AssignedBlake2bWord>> = seq![state@];
        let mut i: usize = 0;
        while i < 12
            invariant
                0 <= i <= 12,
                extends(*region, *old(region)),
                *row_offset == start + 200 * i,
                start + 2400 <= region_rows(*region),
                start + 2400 <= usize::MAX,
                m == word_values(current_block@),
                word_values(state@) == mixed(v0, m, (8 * i) as nat),
                vectors.len() == 8 * i + 1,
                vectors[0] == first_vector,
                vectors[8 * i] == state@,
                forall|n: int|
                    0 <= n < 8 * i ==> self.step_at(
                        *region,
                        start + 25 * n,
                        n,
                        current_block@,
                        #[trigger] vectors[n],
                        vectors[n + 1],
                    ),
            decreases 12 - i,
        {
            let mut j: usize = 0;
            while j < 8
                invariant
                    0 <= i < 12,
                    0 <= j <= 8,
                    extends(*region, *old(region)),
                    *row_offset == start + 200 * i + 25 * j,
                    start + 2400 <= region_rows(*region),
                    start + 2400 <= usize::MAX,
                    m == word_values(current_block@),
                    word_values(state@) == mixed(v0, m, (8 * i + j) as nat),
                    vectors.len() == 8 * i + j + 1,
                    vectors[0] == first_vector,
                    vectors[8 * i + j] == state@,
                    forall|n: int|
                        0 <= n < 8 * i + j ==> self.step_at(
                            *region,
                            start + 25 * n,
                            n,
                            current_block@,
                            #[trigger] vectors[n],
                            vectors[n + 1],
                        ),
                decreases 8 - j,
            {
                let ghost before = word_values(state@);
                let ghost earlier = *region;
                let ghost vector = state@;
                let x = current_block[SIGMA[i][2 * j]];
                let y = current_block[SIGMA[i][2 * j + 1]];
                self.mix(
                    [ABCD[j][0], ABCD[j][1], ABCD[j][2], ABCD[j][3]],
                    x,
                    y,
                    state,
                    region,
                    row_offset,
                )?;
                proof {
                    let n = (8 * i + j + 1) as nat;
                    assert((n - 1) / 8 == i as int && (n - 1) % 8 == j as int);
                    assert(word_values(state@) == mix_step(before, m, i as int, j as int));
                    self.lemma_step_laid_out(
                        *region,
                        start + 25 * (8 * i + j),
                        i as int,
                        j as int,
                        current_block@,
                        vector,
                        state@,
                    );
                    assert forall|k: int| 0 <= k < 8 * i + j implies self.step_at(
                        *region,
                        start + 25 * k,
                        k,
                        current_block@,
                        #[trigger] vectors[k],
                        vectors[k + 1],
                    ) by {
                        self.lemma_step_kept(
                            earlier,
                            *region,
                            start + 25 * k,
                            k,
                            current_block@,
                            vectors[k],
                            vectors[k + 1],
                        );
                    }
                    vectors = vectors.push(state@);
                }
                j = j + 1;
            }
            i = i + 1;
        }
        proof {
            assert(self.rounds_at(*region, start, current_block@, vectors)) by {
                reveal(Blake2bChip::rounds_at);
            }
        }
        Ok(Ghost(vectors))
    }

    /// The region holds the two XORs that fold a word of the working vector
    /// back into the hash state, from `start` on: `h XOR low`, and the result of
    /// that `XOR high`, which is written on the row `row`.
    pub open spec fn fold_rows_at(
        &self,
        region: RegionHandle<'_>,
        start: int,
        h: AssignedBlake2bWord,
        low: AssignedBlake2bWord,
        high: AssignedBlake2bWord,
        folded: AssignedRow,
        row: AssignedRow,
    ) -> bool {
        let xor = self@.xor_config;
        &&& is_enabled(region, xor.q_xor, start)
        &&& xor.operand_at(region, h, start)
        &&& xor.operand_at(region, low, start + 1)
        &&& xor.result_at(region, folded, start + 2)
        &&& is_enabled(region, xor.q_xor, start + 3)
        &&& xor.operand_at(region, folded.full_number, start + 3)
        &&& xor.operand_at(region, high, start + 4)
        &&& xor.result_at(region, row, start + 5)
    }

    /// The region holds, from `start` on, the two XORs that fold a word of
    /// the working vector back into the hash state: `out` is the new word of the
    /// state, and `limbs` are the limbs beside it.
    #[verifier::opaque]
    pub open spec fn folded_at(
        &self,
        region: RegionHandle<'_>,
        start: int,
        h: AssignedBlake2bWord,
        low: AssignedBlake2bWord,
        high: AssignedBlake2bWord,
        out: AssignedBlake2bWord,
        limbs: Seq<AssignedByte>,
    ) -> bool {
        exists|folded: AssignedRow, row: AssignedRow| #[trigger]
            self.fold_rows_at(region, start, h, low, high, folded, row) && row.full_number == out
                && row.limbs@ == limbs
    }

    /// A region that is further filled still holds a fold that it held.
    pub proof fn lemma_folded_kept(
        &self,
        earlier: RegionHandle<'_>,
        later: RegionHandle<'_>,
        start: int,
        h: AssignedBlake2bWord,
        low: AssignedBlake2bWord,
        high: AssignedBlake2bWord,
        out: AssignedBlake2bWord,
        limbs: Seq<AssignedByte>,
    )
        requires
            extends(later, earlier),
            self.folded_at(earlier, start, h, low, high, out, limbs),
        ensures
            self.folded_at(later, start, h, low, high, out, limbs),
    {
        reveal(Blake2bChip::folded_at);
        let xor = self@.xor_config;
        let (folded, row) = choose|folded: AssignedRow, row: AssignedRow| #[trigger]
            self.fold_rows_at(earlier, start, h, low, high, folded, row) && row.full_number == out
                && row.limbs@ == limbs;
        xor.lemma_operand_kept(earlier, later, h, start);
        xor.lemma_operand_kept(earlier, later, low, start + 1);
        xor.lemma_operand_kept(earlier, later, folded.full_number, start + 3);
        xor.lemma_operand_kept(earlier, later, high, start + 4);
        assert(self.fold_rows_at(later, start, h, low, high, folded, row));
    }

    /// The region holds, from `start` on, the sixteen XORs that fold the
    /// working vector `vector` into the hash state `h`, six rows for each word:
    /// `new_state` is the state that they leave, and `bytes` are its limbs.
    #[verifier::opaque]
    pub open spec fn state_folded_at(
        &self,
        region: RegionHandle<'_>,
        start: int,
        h: Seq<AssignedBlake2bWord>,
        vector: Seq<AssignedBlake2bWord>,
        new_state: Seq<AssignedBlake2bWord>,
        bytes: Seq<AssignedByte>,
    ) -> bool {
        forall|i: int|
            0 <= i < 8 ==> self.folded_at(
                region,
                start + 6 * i,
                h[i],
                vector[i],
                vector[i + 8],
                #[trigger] new_state[i],
                bytes.subrange(8 * i, 8 * i + 8),
            )
    }

    /// A region that is further filled still holds the folds that it held.
    pub proof fn lemma_state_folded_kept(
        &self,
        earlier: RegionHandle<'_>,
        later: RegionHandle<'_>,
        start: int,
        h: Seq<AssignedBlake2bWord>,
        vector: Seq<AssignedBlake2bWord>,
        new_state: Seq<AssignedBlake2bWord>,
        bytes: Seq<AssignedByte>,
    )
        requires
            extends(later, earlier),
            self.state_folded_at(earlier, start, h, vector, new_state, bytes),
        ensures
            self.state_folded_at(later, start, h, vector, new_state, bytes),
    {
        reveal(Blake2bChip::state_folded_at);
        assert forall|i: int| 0 <= i < 8 implies self.folded_at(
            later,
            start + 6 * i,
            h[i],
            vector[i],
            vector[i + 8],
            #[trigger] new_state[i],
            bytes.subrange(8 * i, 8 * i + 8),
        ) by {
            self.lemma_folded_kept(
                earlier,
                later,
                start + 6 * i,
                h[i],
                vector[i],
                vector[i + 8],
                new_state[i],
                bytes.subrange(8 * i, 8 * i + 8),
            );
        }
    }

    /// The region holds the 64 cells of a hash state on eight rows, six rows
    /// apart, the last of them the row before `end`: each byte stands in the limb
    /// column of its position, beside the word it is a limb of, on a row where the
    /// decomposition is enabled.
    pub open spec fn state_rows_at(
        &self,
        region: RegionHandle<'_>,
        state: Seq<AssignedBlake2bWord>,
        bytes: Seq<AssignedByte>,
        end: int,
    ) -> bool {
        forall|k: int|
            0 <= k < 64 ==> {
                &&& (#[trigger] bytes[k]).stands_at(
                    region,
                    self@.limbs[k % 8],
                    end - 43 + 6 * (k / 8),
                )
                &&& state[k / 8].stands_at(region, self@.full_number_u64, end - 43 + 6 * (k / 8))
                &&& is_enabled(region, self@.xor_config.q_decompose, end - 43 + 6 * (k / 8))
            }
    }

    /// Folds the working vector into the hash state: each word of the state
    /// is XORed with the two words of the vector at its position, and the limbs
    /// of the second XOR are kept, as they are the limbs of the new state.
    fn fold_into_state(
        &self,
        region: &mut RegionHandle<'_>,
        row_offset: &mut usize,
        global_state: &mut [AssignedBlake2bWord; 8],
        state: &[AssignedBlake2bWord; 16],
    ) -> (r: Result<[AssignedByte; 64], Error>)
        requires
            has_rows(*old(region), *old(row_offset), 48),
        ensures
            extends(*final(region), *old(region)),
            r matches Ok(bytes) ==> {
                &&& *final(row_offset) == *old(row_offset) + 48
                &&& forall|i: int|
                    0 <= i < 8 ==> (#[trigger] final(global_state)[i])@ == word_xor(
                        word_xor(old(global_state)[i]@, state[i]@),
                        state[i + 8]@,
                    )
                &&& forall|k: int|
                    0 <= k < 64 ==> (#[trigger] bytes[k])@ == word_limb(
                        final(global_state)[k / 8]@,
                        k % 8,
                    )
                &&& self.state_rows_at(
                    *final(region),
                    final(global_state)@,
                    bytes@,
                    *final(row_offset) as int,
                )
                &&& self.state_folded_at(
                    *final(region),
                    *old(row_offset) as int,
                    old(global_state)@,
                    state@,
                    final(global_state)@,
                    bytes@,
                )
            },
    {
        proof {
            use_type_invariant(self);
        }
        let ghost h = word_values(global_state@);
        let ghost h_cells = global_state@;
        let ghost folding_start = *row_offset as int;
        let ghost mut outs: Seq<AssignedBlake2bWord> = Seq::empty();
        let ghost mut out_limbs: Seq<Seq<AssignedByte>> = Seq::empty();

        let first = self.xor(&global_state[0], &state[0], region, row_offset)?;
        let ghost first_folded = *region;
        let mut global_state_bytes: [AssignedByte; 64] = [first.limbs[0];64];
        let mut i: usize = 0;
        while i < 8
            invariant
                0 <= i <= 8,
                extends(*region, *old(region)),
                extends(*region, first_folded),
                *row_offset == folding_start + 6 * i + if i == 0 {
                    3int
                } else {
                    0int
                },
                folding_start + 48 <= region_rows(*region),
                folding_start + 48 <= usize::MAX,
                self@.well_formed(),
                h_cells.len() == 8,
                h == word_values(h_cells),
                forall|k: int| i <= k < 8 ==> (#[trigger] global_state[k]) == h_cells[k],
                i == 0 ==> {
                    &&& first.full_number@ == word_xor(h[0], state[0]@)
                    &&& is_enabled(first_folded, self@.xor_config.q_xor, folding_start)
                    &&& self@.xor_config.operand_at(first_folded, h_cells[0], folding_start)
                    &&& self@.xor_config.operand_at(first_folded, state[0], folding_start + 1)
                    &&& self@.xor_config.result_at(first_folded, first, folding_start + 2)
                },
                outs.len() == i,
                out_limbs.len() == i,
                forall|k: int| 0 <= k < i ==> (#[trigger] outs[k]) == global_state[k],
                forall|k: int| 0 <= k < i ==> (#[trigger] out_limbs[k]).len() == 8,
                forall|k: int|
                    0 <= k < i ==> (#[trigger] outs[k])@ == word_xor(
                        word_xor(h[k], state[k]@),
                        state[k + 8]@,
                    ),
                forall|k: int|
                    0 <= k < i ==> (#[trigger] outs[k]).stands_at(
                        *region,
                        self@.full_number_u64,
                        folding_start + 5 + 6 * k,
                    ) && is_enabled(
                        *region,
                        self@.xor_config.q_decompose,
                        folding_start + 5 + 6 * k,
                    ),
                forall|k: int|
                    0 <= k < 8 * i ==> {
                        &&& (#[trigger] global_state_bytes[k]) == out_limbs[k / 8][k % 8]
                        &&& global_state_bytes[k]@ == word_limb(outs[k / 8]@, k % 8)
                        &&& global_state_bytes[k].stands_at(
                            *region,
                            self@.limbs[k % 8],
                            folding_start + 5 + 6 * (k / 8),
                        )
                    },
                forall|k: int|
                    0 <= k < i ==> self.folded_at(
                        *region,
                        folding_start + 6 * k,
                        h_cells[k],
                        state[k],
                        state[k + 8],
                        #[trigger] outs[k],
                        out_limbs[k],
                    ),
            decreases 8 - i,
        {
            let ghost entry = *region;
            let folded = if i == 0 {
                first
            } else {
                self.xor(&global_state[i], &state[i], region, row_offset)?
            };
            let ghost half = if i == 0 {
                first_folded
            } else {
                *region
            };
            global_state[i] = folded.full_number;
            let row = self.xor(&global_state[i], &state[i + 8], region, row_offset)?;
            proof {
                let xor = self@.xor_config;
                let at = folding_start + 6 * i;
                xor.lemma_operand_kept(half, *region, h_cells[i as int], at);
                xor.lemma_operand_kept(half, *region, state[i as int], at + 1);
                assert(self.fold_rows_at(
                    *region,
                    at,
                    h_cells[i as int],
                    state[i as int],
                    state[i + 8],
                    folded,
                    row,
                ));
                assert(self.folded_at(
                    *region,
                    at,
                    h_cells[i as int],
                    state[i as int],
                    state[i + 8],
                    row.full_number,
                    row.limbs@,
                )) by {
                    reveal(Blake2bChip::folded_at);
                }
                assert forall|k: int| 0 <= k < i implies self.folded_at(
                    *region,
                    folding_start + 6 * k,
                    h_cells[k],
                    state[k],
                    state[k + 8],
                    #[trigger] outs[k],
                    out_limbs[k],
                ) by {
                    self.lemma_folded_kept(
                        entry,
                        *region,
                        folding_start + 6 * k,
                        h_cells[k],
                        state[k],
                        state[k + 8],
                        outs[k],
                        out_limbs[k],
                    );
                }
                outs = outs.push(row.full_number);
                out_limbs = out_limbs.push(row.limbs@);
            }
            let mut limb: usize = 0;
            while limb < 8
                invariant
                    0 <= i < 8,
                    0 <= limb <= 8,
                    row.decomposed(),
                    self@.well_formed(),
                    self@.xor_config.result_at(*region, row, folding_start + 5 + 6 * i),
                    outs.len() == i + 1,
                    out_limbs.len() == i + 1,
                    outs[i as int] == row.full_number,
                    out_limbs[i as int] == row.limbs@,
                    forall|k: int|
                        0 <= k < 8 * i + limb ==> {
                            &&& (#[trigger] global_state_bytes[k]) == out_limbs[k / 8][k % 8]
                            &&& global_state_bytes[k]@ == word_limb(outs[k / 8]@, k % 8)
                            &&& global_state_bytes[k].stands_at(
                                *region,
                                self@.limbs[k % 8],
                                folding_start + 5 + 6 * (k / 8),
                            )
                        },
                decreases 8 - limb,
            {
                global_state_bytes[8 * i + limb] = row.limbs[limb];
                limb = limb + 1;
            }
            global_state[i] = row.full_number;
            i = i + 1;
        }
        proof {
            assert forall|k: int| 0 <= k < 8 implies (#[trigger] global_state[k])@ == word_xor(
                word_xor(h_cells[k]@, state[k]@),
                state[k + 8]@,
            ) by {
                assert(outs[k] == global_state[k]);
            }
            assert forall|k: int| 0 <= k < 64 implies (#[trigger] global_state_bytes[k])@
                == word_limb(global_state[k / 8]@, k % 8) by {
                assert(outs[k / 8] == global_state[k / 8]);
            }
            assert forall|k: int| 0 <= k < 64 implies {
                &&& (#[trigger] global_state_bytes@[k]).stands_at(
                    *region,
                    self@.limbs[k % 8],
                    *row_offset - 43 + 6 * (k / 8),
                )
                &&& global_state@[k / 8].stands_at(
                    *region,
                    self@.full_number_u64,
                    *row_offset - 43 + 6 * (k / 8),
                )
                &&& is_enabled(
                    *region,
                    self@.xor_config.q_decompose,
                    *row_offset - 43 + 6 * (k / 8),
                )
            } by {
                assert(global_state_bytes[k].stands_at(
                    *region,
                    self@.limbs[k % 8],
                    folding_start + 5 + 6 * (k / 8),
                ));
                assert(outs[k / 8] == global_state[k / 8]);
                assert(outs[k / 8].stands_at(
                    *region,
                    self@.full_number_u64,
                    folding_start + 5 + 6 * (k / 8),
                ));
            }
            assert(self.state_rows_at(
                *region,
                global_state@,
                global_state_bytes@,
                *row_offset as int,
            ));
            assert(self.state_folded_at(
                *region,
                folding_start,
                h_cells,
                state@,
                global_state@,
                global_state_bytes@,
            )) by {
                reveal(Blake2bChip::state_folded_at);
                assert forall|k: int| 0 <= k < 8 implies self.folded_at(
                    *region,
                    folding_start + 6 * k,
                    h_cells[k],
                    state@[k],
                    state@[k + 8],
                    #[trigger] global_state@[k],
                    global_state_bytes@.subrange(8 * k, 8 * k + 8),
                ) by {
                    assert(outs[k] == global_state[k]);
                    assert(global_state_bytes@.subrange(8 * k, 8 * k + 8) =~= out_limbs[k]) by {
                        assert forall|l: int| 0 <= l < 8 implies global_state_bytes@[8 * k + l]
                            == out_limbs[k][l] by {
                            assert(global_state_bytes[8 * k + l] == out_limbs[(8 * k + l) / 8][(8
                                * k + l) % 8]);
                        }
                    }
                }
            }
        }
        Ok(global_state_bytes)
    }

    /// What a compression leaves in the region from `start` on. `h` are the
    /// cells of the hash state before it, `iv` those of the initialization
    /// vector and `block` the sixteen words of the block. `vectors` are the
    /// working vectors on the way: the one that the mixing starts from, and the
    /// one after each of the 96 mixing steps. The last of them is folded into
    /// `h`, which gives `new_state`, and `bytes` are the limbs of `new_state`.
    pub open spec fn compress_at(
        &self,
        region: RegionHandle<'_>,
        start: int,
        h: Seq<AssignedBlake2bWord>,
        iv: Seq<AssignedBlake2bWord>,
        block: Seq<AssignedBlake2bWord>,
        t: u64,
        last: bool,
        vectors: Seq<Seq<AssignedBlake2bWord>>,
        new_state: Seq<AssignedBlake2bWord>,
        bytes: Seq<AssignedByte>,
    ) -> bool {
        let mixing = start + 1 + if last {
            2int
        } else {
            0int
        };
        &&& vectors.len() == 97
        &&& self.vector_at(region, start, h, iv, t, last, vectors[0])
        &&& self.rounds_at(region, mixing, block, vectors)
        &&& self.state_folded_at(region, mixing + 2400, h, vectors[96], new_state, bytes)
    }

    /// A region that is further filled still holds a compression that it held.
    pub proof fn lemma_compress_kept(
        &self,
        earlier: RegionHandle<'_>,
        later: RegionHandle<'_>,
        start: int,
        h: Seq<AssignedBlake2bWord>,
        iv: Seq<AssignedBlake2bWord>,
        block: Seq<AssignedBlake2bWord>,
        t: u64,
        last: bool,
        vectors: Seq<Seq<AssignedBlake2bWord>>,
        new_state: Seq<AssignedBlake2bWord>,
        bytes: Seq<AssignedByte>,
    )
        requires
            extends(later, earlier),
            self.compress_at(earlier, start, h, iv, block, t, last, vectors, new_state, bytes),
        ensures
            self.compress_at(later, start, h, iv, block, t, last, vectors, new_state, bytes),
    {
        let mixing = start + 1 + if last {
            2int
        } else {
            0int
        };
        self.lemma_vector_kept(earlier, later, start, h, iv, t, last, vectors[0]);
        self.lemma_rounds_kept(earlier, later, mixing, block, vectors);
        self.lemma_state_folded_kept(
            earlier,
            later,
            mixing + 2400,
            h,
            vectors[96],
            new_state,
            bytes,
        );
    }

    /// Compresses one block into the hash state: the working vector is set
    /// up from the state and the initialization vector, mixed for twelve
    /// rounds, and folded back into the state. The 64 bytes handed back are the
    /// limbs of the new state.
    pub fn compress(
        &self,
        region: &mut RegionHandle<'_>,
        row_offset: &mut usize,
        iv_constants: &[AssignedBlake2bWord; 8],
        global_state: &mut [AssignedBlake2bWord; 8],
        current_block: [AssignedBlake2bWord; 16],
        processed_bytes_count: u64,
        is_last_block: bool,
    ) -> (r: Result<[AssignedByte; 64], Error>)
        requires
            has_rows(*old(region), *old(row_offset), COMPRESS_ROWS + if is_last_block {
                NEGATION_ROWS as int
            } else {
                0
            }),
            holds_iv(iv_constants@),
        ensures
            extends(*final(region), *old(region)),
            r matches Ok(bytes) ==> {
                &&& *final(row_offset) == *old(row_offset) + COMPRESS_ROWS + if is_last_block {
                    NEGATION_ROWS as int
                } else {
                    0
                }
                &&& word_values(final(global_state)@) == crate::spec::hash::compress(
                    word_values(old(global_state)@),
                    word_values(current_block@),
                    processed_bytes_count,
                    is_last_block,
                )
                &&& byte_values(bytes@) == state_bytes(word_values(final(global_state)@))
                &&& self.state_rows_at(
                    *final(region),
                    final(global_state)@,
                    bytes@,
                    *final(row_offset) as int,
                )
                &&& exists|vectors: Seq<Seq<AssignedBlake2bWord>>| #[trigger]
                    self.compress_at(
                        *final(region),
                        *old(row_offset) as int,
                        old(global_state)@,
                        iv_constants@,
                        current_block@,
                        processed_bytes_count,
                        is_last_block,
                        vectors,
                        final(global_state)@,
                        bytes@,
                    )
            },
    {
        let ghost h = word_values(global_state@);
        let ghost h_cells = global_state@;
        let ghost m = word_values(current_block@);
        let ghost start = *row_offset as int;
        let mut state = self.set_working_vector_up(
            region,
            row_offset,
            iv_constants,
            global_state,
            processed_bytes_count,
            is_last_block,
        )?;
        let ghost set_up = *region;
        let ghost mixing_start = *row_offset as int;
        let ghost v0 = state@;
        let vectors = self.mix_rounds(region, row_offset, &current_block, &mut state)?;
        let ghost mixed_up = *region;
        let bytes = self.fold_into_state(region, row_offset, global_state, &state)?;
        proof {
            let expected = crate::spec::hash::compress(h, m, processed_bytes_count, is_last_block);
            assert(word_values(global_state@) =~= expected);
            assert(byte_values(bytes@) =~= state_bytes(expected));
            self.lemma_vector_kept(
                set_up,
                *region,
                start,
                h_cells,
                iv_constants@,
                processed_bytes_count,
                is_last_block,
                v0,
            );
            self.lemma_rounds_kept(mixed_up, *region, mixing_start, current_block@, vectors@);
            assert(self.compress_at(
                *region,
                start,
                h_cells,
                iv_constants@,
                current_block@,
                processed_bytes_count,
                is_last_block,
                vectors@,
                global_state@,
                bytes@,
            ));
        }
        Ok(bytes)
    }
}

} // verus!
