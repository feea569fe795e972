//! The closed-form terminal predicate: seven digit relations that hold of a
//! valid candidate exactly when the accumulator transform folds it to zero.

use vstd::prelude::*;

use crate::transform::{
    lemma_block_a_grows, lemma_block_b_keeps, spec_alu, spec_alu_after_pairs, spec_alu_after_pop,
    spec_alu_seeded, spec_block_a, spec_block_b,
};

verus! {

use vstd::arithmetic::div_mod::{
    lemma_fundamental_div_mod_converse_div, lemma_fundamental_div_mod_converse_mod,
};

/// The seven digit relations (digits here are zero-indexed; the relation on
/// `s[4]` and `s[5]` is the one on the fifth and sixth digits, and so on).
pub open spec fn spec_check_alu(s: Seq<i64>) -> bool
    recommends
        s.len() == 14,
{
    &&& s[5] == s[4] + 7
    &&& s[6] == s[7] + 5
    &&& s[9] == s[10] + 4
    &&& s[3] == s[8] + 8
    &&& s[2] == s[11]
    &&& s[1] + 5 == s[12]
    &&& s[0] == s[13] + 1
}

/// Evaluates the seven digit relations of the terminal predicate.
pub fn check_alu(input: &[i64]) -> (r: bool)
    requires
        input@.len() == 14,
        forall|i: int| 0 <= i < 14 ==> 0 <= #[trigger] input@[i] <= 9,
    ensures
        r == spec_check_alu(input@),
{
    let w1 = input[0];
    let w2 = input[1];
    let w3 = input[2];
    let w4 = input[3];
    let w5 = input[4];
    let w6 = input[5];
    let w7 = input[6];
    let w8 = input[7];
    let w9 = input[8];
    let w10 = input[9];
    let w11 = input[10];
    let w12 = input[11];
    let w13 = input[12];
    let w14 = input[13];

    (w6 == w5 + 7) && (w7 == w8 + 5) && (w10 == w11 + 4) && (w4 == w9 + 8) && (w3 == w12) && (w2
        + 5 == w13) && (w1 == w14 + 1)
}

/// A base-26 push is undone exactly by one pop: dividing `a * 26 + r` by 26
/// gives back `a`, with remainder `r`.
proof fn lemma_push_pop(a: int, r: int)
    requires
        0 <= r < 26,
    ensures
        (a * 26 + r) / 26 == a,
        (a * 26 + r) % 26 == r,
{
    lemma_fundamental_div_mod_converse_div(a * 26 + r, 26, a, r);
    lemma_fundamental_div_mod_converse_mod(a * 26 + r, 26, a, r);
}

/// The accumulator transform folds a valid candidate (all fourteen digits
/// between one and nine) to zero if and only if the candidate satisfies the
/// seven digit relations of the terminal predicate.
pub proof fn lemma_zero_iff_check(s: Seq<i64>)
    requires
        s.len() == 14,
        forall|i: int| 0 <= i < 14 ==> 1 <= #[trigger] s[i] <= 9,
    ensures
        spec_alu(s) == 0 <==> spec_check_alu(s),
{
    let w1 = s[0] as int;
    let w2 = s[1] as int;
    let w3 = s[2] as int;
    let w4 = s[3] as int;
    let w5 = s[4] as int;
    let w6 = s[5] as int;
    let w7 = s[6] as int;
    let w8 = s[7] as int;
    let w9 = s[8] as int;
    let w10 = s[9] as int;
    let w11 = s[10] as int;
    let w12 = s[11] as int;
    let w13 = s[12] as int;
    let w14 = s[13] as int;

    let z1 = w1 * 26 + w2 + 6;
    let z2 = z1 * 26 + w3 + 4;
    let z3 = z2 * 26 + w4 + 2;
    assert(z3 == spec_alu_seeded(s));
    assert(26 <= z1 && 676 <= z2 && 17576 <= z3);

    let z4 = spec_block_a(z3, w5, w6, -7, 1);
    let z5 = spec_block_a(z4, w7, w8, 5, 6);
    let z6 = spec_block_b(z5, w9, 10, 4);
    let z7 = spec_block_a(z6, w10, w11, 4, 3);
    let z8 = spec_block_b(z7, w12, 4, 9);
    let z9 = spec_block_b(z8, w13, 1, 15);
    let z10 = spec_block_b(z9, w14, 1, 5);
    assert(z10 == spec_alu(s));

    if w6 != w5 + 7 {
        // The first pair pushes; five or more base-26 digits stay stacked
        // against only four pops, so the fold cannot reach zero.
        assert(z4 == z3 * 26 + w6 + 1);
        assert(z4 >= 456976);
        lemma_block_a_grows(z4, w7, w8, 5, 6);
        lemma_block_b_keeps(z5, w9, 10, 4, 17576);
        lemma_block_a_grows(z6, w10, w11, 4, 3);
        lemma_block_b_keeps(z7, w12, 4, 9, 676);
        lemma_block_b_keeps(z8, w13, 1, 15, 26);
        lemma_block_b_keeps(z9, w14, 1, 5, 1);
        assert(z10 >= 1);
    } else if w7 != w8 + 5 {
        // The second pair pushes; as above, one push too many.
        assert(z4 == z3);
        assert(z5 == z4 * 26 + w8 + 6);
        assert(z5 >= 456976);
        lemma_block_b_keeps(z5, w9, 10, 4, 17576);
        lemma_block_a_grows(z6, w10, w11, 4, 3);
        lemma_block_b_keeps(z7, w12, 4, 9, 676);
        lemma_block_b_keeps(z8, w13, 1, 15, 26);
        lemma_block_b_keeps(z9, w14, 1, 5, 1);
        assert(z10 >= 1);
    } else {
        assert(z5 == z3);
        lemma_push_pop(z2, w4 + 2);
        if w4 != w9 + 8 {
            // The ninth digit replaces instead of popping; the stack never
            // gets back below one digit.
            assert(z6 == z2 * 26 + w9 + 4);
            assert(z6 >= 17576);
            lemma_block_a_grows(z6, w10, w11, 4, 3);
            lemma_block_b_keeps(z7, w12, 4, 9, 676);
            lemma_block_b_keeps(z8, w13, 1, 15, 26);
            lemma_block_b_keeps(z9, w14, 1, 5, 1);
            assert(z10 >= 1);
        } else {
            assert(z6 == z2);
            if w10 != w11 + 4 {
                assert(z7 == z2 * 26 + w11 + 3);
                assert(z7 >= 17576);
                lemma_block_b_keeps(z7, w12, 4, 9, 676);
                lemma_block_b_keeps(z8, w13, 1, 15, 26);
                lemma_block_b_keeps(z9, w14, 1, 5, 1);
                assert(z10 >= 1);
            } else {
                assert(z7 == z2);
                lemma_push_pop(z1, w3 + 4);
                if w3 != w12 {
                    assert(z8 == z1 * 26 + w12 + 9);
                    assert(z8 >= 676);
                    lemma_block_b_keeps(z8, w13, 1, 15, 26);
                    lemma_block_b_keeps(z9, w14, 1, 5, 1);
                    assert(z10 >= 1);
                } else {
                    assert(z8 == z1);
                    lemma_push_pop(w1, w2 + 6);
                    if w2 + 5 != w13 {
                        assert(z9 == w1 * 26 + w13 + 15);
                        assert(z9 >= 26);
                        lemma_block_b_keeps(z9, w14, 1, 5, 1);
                        assert(z10 >= 1);
                    } else {
                        assert(z9 == w1);
                        lemma_push_pop(0, w1);
                        assert(w1 % 26 == w1 && w1 / 26 == 0);
                        if w1 != w14 + 1 {
                            assert(z10 == w14 + 5);
                            assert(z10 >= 6);
                        } else {
                            assert(z10 == 0);
                        }
                    }
                }
            }
        }
    }
}

} // verus!
