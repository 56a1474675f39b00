//! The mixing function of BLAKE2b, laid out in the trace.
//!
//! One mixing step is four additions, four XORs and four rotations, chained so
//! that each reads its first operand on the row that the one before has just
//! written. It takes 25 rows.
use vstd::prelude::*;
use midnight_proofs::plonk::Error;
use crate::backend::{extends, has_rows, is_enabled, RegionHandle};
use crate::blake2b::utils::word_values;
use crate::spec::words::lemma_xor_commutes;
use crate::types::blake2b_word::AssignedBlake2bWord;
use crate::types::row::AssignedRow;
use crate::blake2b::blake2b_chip::{Blake2bChip, MIX_ROWS};

verus! {

/// The rows and words that one mixing step writes on its way, in the order
/// in which it writes them.
pub struct MixRows {
    /// `a + b`.
    pub a_plus_b: AssignedRow,
    /// `a + b + x`.
    pub a: AssignedRow,
    /// `d XOR a`.
    pub d_xor_a: AssignedRow,
    /// `d XOR a`, rotated by 32 bits.
    pub d: AssignedBlake2bWord,
    /// `c + d`.
    pub c: AssignedRow,
    /// `b XOR c`.
    pub b_xor_c: AssignedRow,
    /// `b XOR c`, rotated by 24 bits.
    pub b: AssignedBlake2bWord,
    /// `a + b`, with the new `a` and `b`.
    pub second_a_plus_b: AssignedRow,
    /// `a + b + y`: the `a` that the step leaves.
    pub last_a: AssignedRow,
    /// `d XOR a`, with the new `d` and the last `a`.
    pub second_d_xor_a: AssignedRow,
    /// `d XOR a`, rotated by 16 bits: the `d` that the step leaves.
    pub last_d: AssignedBlake2bWord,
    /// `c + d`: the `c` that the step leaves.
    pub last_c: AssignedRow,
    /// `b XOR c`, with the new `b` and the last `c`.
    pub second_b_xor_c: AssignedRow,
    /// `b XOR c`, rotated by 63 bits: the `b` that the step leaves.
    pub last_b: AssignedBlake2bWord,
}

impl Blake2bChip {
    /// What one mixing step leaves in the region from `start` on: four
    /// additions, four XORs and four rotations, each but the first reading its
    /// first operand on the row that the one before has just written. `v_a`,
    /// `v_b`, `v_c` and `v_d` are the four words of the working vector that the
    /// step mixes, `x` and `y` the two message words, and `rows` what the step
    /// writes on its way.
    #[verifier::opaque]
    pub open spec fn mix_at(
        &self,
        region: RegionHandle<'_>,
        start: int,
        v_a: AssignedBlake2bWord,
        v_b: AssignedBlake2bWord,
        v_c: AssignedBlake2bWord,
        v_d: AssignedBlake2bWord,
        x: AssignedBlake2bWord,
        y: AssignedBlake2bWord,
        rows: MixRows,
    ) -> bool {
        let xor = self@.xor_config;
        // a = a + b + x
        &&& self.sum_at(region, start, v_a, v_b, false, rows.a_plus_b)
        &&& self.sum_at(region, start + 2, rows.a_plus_b.full_number, x, true, rows.a)
        // d = (d ^ a) >>> 32
        &&& is_enabled(region, xor.q_xor, start + 4)
        &&& xor.operand_at(region, v_d, start + 5)
        &&& xor.result_at(region, rows.d_xor_a, start + 6)
        &&& self.rotated_at(region, rows.d_xor_a, 4, rows.d, start + 7)
        // c = c + d
        &&& self.sum_at(region, start + 7, rows.d, v_c, true, rows.c)
        // b = (b ^ c) >>> 24
        &&& is_enabled(region, xor.q_xor, start + 9)
        &&& xor.operand_at(region, v_b, start + 10)
        &&& xor.result_at(region, rows.b_xor_c, start + 11)
        &&& self.rotated_at(region, rows.b_xor_c, 3, rows.b, start + 12)
        // a = a + b + y
        &&& self.sum_at(region, start + 12, rows.b, rows.a.full_number, true, rows.second_a_plus_b)
        &&& self.sum_at(region, start + 14, rows.second_a_plus_b.full_number, y, true, rows.last_a)
        // d = (d ^ a) >>> 16
        &&& is_enabled(region, xor.q_xor, start + 16)
        &&& xor.operand_at(region, rows.d, start + 17)
        &&& xor.result_at(region, rows.second_d_xor_a, start + 18)
        &&& self.rotated_at(region, rows.second_d_xor_a, 2, rows.last_d, start + 19)
        // c = c + d
        &&& self.sum_at(region, start + 19, rows.last_d, rows.c.full_number, true, rows.last_c)
        // b = (b ^ c) >>> 63
        &&& is_enabled(region, xor.q_xor, start + 21)
        &&& xor.operand_at(region, rows.b, start + 22)
        &&& xor.result_at(region, rows.second_b_xor_c, start + 23)
        &&& is_enabled(region, self@.rotate_63_config.q_rot63, start + 23)
        &&& self@.rotate_63_config.output_at(
            region,
            self@.full_number_u64,
            self@.limbs,
            rows.last_b,
            start + 24,
        )
    }

    /// A region that is further filled still holds a mixing step that it held.
    pub proof fn lemma_mix_kept(
        &self,
        before: RegionHandle<'_>,
        after: RegionHandle<'_>,
        start: int,
        v_a: AssignedBlake2bWord,
        v_b: AssignedBlake2bWord,
        v_c: AssignedBlake2bWord,
        v_d: AssignedBlake2bWord,
        x: AssignedBlake2bWord,
        y: AssignedBlake2bWord,
        rows: MixRows,
    )
        requires
            extends(after, before),
            self.mix_at(before, start, v_a, v_b, v_c, v_d, x, y, rows),
        ensures
            self.mix_at(after, start, v_a, v_b, v_c, v_d, x, y, rows),
    {
        reveal(Blake2bChip::mix_at);
        let xor = self@.xor_config;
        self.lemma_sum_kept(before, after, start, v_a, v_b, false, rows.a_plus_b);
        self.lemma_sum_kept(before, after, start + 2, rows.a_plus_b.full_number, x, true, rows.a);
        xor.lemma_operand_kept(before, after, v_d, start + 5);
        self.lemma_rotated_kept(before, after, rows.d_xor_a, 4, rows.d, start + 7);
        self.lemma_sum_kept(before, after, start + 7, rows.d, v_c, true, rows.c);
        xor.lemma_operand_kept(before, after, v_b, start + 10);
        self.lemma_rotated_kept(before, after, rows.b_xor_c, 3, rows.b, start + 12);
        self.lemma_sum_kept(
            before,
            after,
            start + 12,
            rows.b,
            rows.a.full_number,
            true,
            rows.second_a_plus_b,
        );
        self.lemma_sum_kept(
            before,
            after,
            start + 14,
            rows.second_a_plus_b.full_number,
            y,
            true,
            rows.last_a,
        );
        xor.lemma_operand_kept(before, after, rows.d, start + 17);
        self.lemma_rotated_kept(before, after, rows.second_d_xor_a, 2, rows.last_d, start + 19);
        self.lemma_sum_kept(
            before,
            after,
            start + 19,
            rows.last_d,
            rows.c.full_number,
            true,
            rows.last_c,
        );
        xor.lemma_operand_kept(before, after, rows.b, start + 22);
        self@.rotate_63_config.lemma_output_kept(
            before,
            after,
            self@.full_number_u64,
            self@.limbs,
            rows.last_b,
            start + 24,
        );
    }

    /// One mixing step: the words of `state` at the four positions
    /// `state_indexes` are mixed with the message words `x` and `y`.
    pub fn mix(
        &self,
        state_indexes: [usize; 4],
        x: AssignedBlake2bWord,
        y: AssignedBlake2bWord,
        state: &mut [AssignedBlake2bWord; 16],
        region: &mut RegionHandle<'_>,
        offset: &mut usize,
    ) -> (r: Result<(), Error>)
        requires
            has_rows(*old(region), *old(offset), MIX_ROWS as int),
            forall|i: int| 0 <= i < 4 ==> state_indexes[i] < 16,
        ensures
            extends(*final(region), *old(region)),
            r is Ok ==> {
                &&& *final(offset) == *old(offset) + MIX_ROWS
                &&& word_values(final(state)@) == crate::spec::hash::mix(
                    word_values(old(state)@),
                    state_indexes[0] as int,
                    state_indexes[1] as int,
                    state_indexes[2] as int,
                    state_indexes[3] as int,
                    x@,
                    y@,
                )
                &&& exists|rows: MixRows| #[trigger]
                    self.mix_at(
                        *final(region),
                        *old(offset) as int,
                        old(state)[state_indexes[0] as int],
                        old(state)[state_indexes[1] as int],
                        old(state)[state_indexes[2] as int],
                        old(state)[state_indexes[3] as int],
                        x,
                        y,
                        rows,
                    ) && final(state)@ == old(state)@.update(
                        state_indexes[0] as int,
                        rows.last_a.full_number,
                    ).update(state_indexes[1] as int, rows.last_b).update(
                        state_indexes[2] as int,
                        rows.last_c.full_number,
                    ).update(state_indexes[3] as int, rows.last_d)
            },
    {
        proof {
            use_type_invariant(self);
        }
        let ghost start = *offset as int;
        let ghost entry = state@;
        let v_a = state[state_indexes[0]];
        let v_b = state[state_indexes[1]];
        let v_c = state[state_indexes[2]];
        let v_d = state[state_indexes[3]];

        // a = a + b + x
        let a_plus_b = self.add(&v_a, &v_b, region, offset)?;
        let ghost r1 = *region;
        let a = self.add_copying_one_parameter(&a_plus_b.full_number, &x, region, offset)?;
        let ghost r2 = *region;

        // d = (d ^ a) >>> 32
        let d_xor_a = self.xor_copying_one_parameter(&a, &v_d, region, offset)?;
        let ghost r3 = *region;
        let d = self.rotate_right_32(d_xor_a, region, offset)?;
        let ghost r4 = *region;

        // c = c + d
        let c = self.add_copying_one_parameter(&d, &v_c, region, offset)?;
        let ghost r5 = *region;

        // b = (b ^ c) >>> 24
        let b_xor_c = self.xor_copying_one_parameter(&c, &v_b, region, offset)?;
        let ghost r6 = *region;
        let b = self.rotate_right_24(b_xor_c, region, offset)?;
        let ghost r7 = *region;

        // a = a + b + y
        let second_a_plus_b = self.add_copying_one_parameter(&b, &a.full_number, region, offset)?;
        let ghost r8 = *region;
        let a2 = self.add_copying_one_parameter(&second_a_plus_b.full_number, &y, region, offset)?;
        let ghost r9 = *region;

        // d = (d ^ a) >>> 16
        let second_d_xor_a = self.xor_copying_one_parameter(&a2, &d, region, offset)?;
        let ghost r10 = *region;
        let d2 = self.rotate_right_16(second_d_xor_a, region, offset)?;
        let ghost r11 = *region;

        // c = c + d
        let c2 = self.add_copying_one_parameter(&d2, &c.full_number, region, offset)?;
        let ghost r12 = *region;

        // b = (b ^ c) >>> 63
        let second_b_xor_c = self.xor_copying_one_parameter(&c2, &b, region, offset)?;
        let ghost r13 = *region;
        let b2 = self.rotate_right_63(second_b_xor_c.full_number, region, offset)?;

        proof {
            let xor = self@.xor_config;
            let end = *region;
            self.lemma_sum_kept(r1, end, start, v_a, v_b, false, a_plus_b);
            self.lemma_sum_kept(r2, end, start + 2, a_plus_b.full_number, x, true, a);
            xor.lemma_operand_kept(r3, end, v_d, start + 5);
            self.lemma_rotated_kept(r4, end, d_xor_a, 4, d, start + 7);
            self.lemma_sum_kept(r5, end, start + 7, d, v_c, true, c);
            xor.lemma_operand_kept(r6, end, v_b, start + 10);
            self.lemma_rotated_kept(r7, end, b_xor_c, 3, b, start + 12);
            self.lemma_sum_kept(r8, end, start + 12, b, a.full_number, true, second_a_plus_b);
            self.lemma_sum_kept(r9, end, start + 14, second_a_plus_b.full_number, y, true, a2);
            xor.lemma_operand_kept(r10, end, d, start + 17);
            self.lemma_rotated_kept(r11, end, second_d_xor_a, 2, d2, start + 19);
            self.lemma_sum_kept(r12, end, start + 19, d2, c.full_number, true, c2);
            xor.lemma_operand_kept(r13, end, b, start + 22);
        }

        proof {
            if let (Some(pa), Some(pd)) = (a.full_number@, v_d@) {
                lemma_xor_commutes(pa, pd);
            }
            if let (Some(pc), Some(pb)) = (c.full_number@, v_b@) {
                lemma_xor_commutes(pc, pb);
            }
            if let (Some(pa), Some(pd)) = (a2.full_number@, d@) {
                lemma_xor_commutes(pa, pd);
            }
            if let (Some(pc), Some(pb)) = (c2.full_number@, b@) {
                lemma_xor_commutes(pc, pb);
            }
        }
        let ghost before = word_values(state@);
        state[state_indexes[0]] = a2.full_number;
        state[state_indexes[1]] = b2;
        state[state_indexes[2]] = c2.full_number;
        state[state_indexes[3]] = d2;
        proof {
            let rows = MixRows {
                a_plus_b,
                a,
                d_xor_a,
                d,
                c,
                b_xor_c,
                b,
                second_a_plus_b,
                last_a: a2,
                second_d_xor_a,
                last_d: d2,
                last_c: c2,
                second_b_xor_c,
                last_b: b2,
            };
            assert(self.mix_at(*region, start, v_a, v_b, v_c, v_d, x, y, rows)) by {
                reveal(Blake2bChip::mix_at);
            }
            assert(state@ =~= entry.update(state_indexes[0] as int, rows.last_a.full_number).update(
                state_indexes[1] as int,
                rows.last_b,
            ).update(state_indexes[2] as int, rows.last_c.full_number).update(
                state_indexes[3] as int,
                rows.last_d,
            ));
        }
        proof {
            let after = crate::spec::hash::mix(
                before,
                state_indexes[0] as int,
                state_indexes[1] as int,
                state_indexes[2] as int,
                state_indexes[3] as int,
                x@,
                y@,
            );
            assert(word_values(state@) =~= after);
        }
        Ok(())
    }
}

} // verus!
