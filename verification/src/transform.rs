//! The accumulator transform: a base-26 fold over a 14-digit sequence.
//!
//! The accumulator behaves like a stack of base-26 digits. The first four
//! digits are pushed unconditionally (with fixed offsets); the remaining
//! steps either push, pop, or replace the low base-26 digit depending on a
//! fixed comparison against the digit consumed by the step.

use vstd::prelude::*;

verus! {

/// Paired policy: the pair `(wa, wb)` leaves the accumulator alone exactly
/// when `wa - wb` equals the expected difference `w_diff`; otherwise it
/// pushes `wb + offset` onto the base-26 accumulator.
pub open spec fn spec_block_a(z: int, wa: int, wb: int, w_diff: int, offset: int) -> int {
    if wa - wb == w_diff {
        z
    } else {
        z * 26 + wb + offset
    }
}

/// Single policy: pop the low base-26 digit when it equals `w + dx`;
/// otherwise replace it with `w + offset` (still shifting the old one out).
pub open spec fn spec_block_b(z: int, w: int, dx: int, offset: int) -> int {
    if z % 26 == w + dx {
        z / 26
    } else {
        (z / 26) * 26 + w + offset
    }
}

/// Accumulator value after the three unconditional push steps, which consume
/// the first four digits.
pub open spec fn spec_alu_seeded(s: Seq<i64>) -> int
    recommends
        s.len() == 14,
{
    ((s[0] * 26 + s[1] + 6) * 26 + s[2] + 4) * 26 + s[3] + 2
}

/// Accumulator value after the first two paired steps (digits five to
/// eight). For valid candidates it stays at or above `26 * 26 * 26`.
pub open spec fn spec_alu_after_pairs(s: Seq<i64>) -> int
    recommends
        s.len() == 14,
{
    spec_block_a(
        spec_block_a(spec_alu_seeded(s), s[4] as int, s[5] as int, -7, 1),
        s[6] as int,
        s[7] as int,
        5,
        6,
    )
}

/// Accumulator value after the single step that consumes the ninth digit.
/// For valid candidates it stays at or above `26 * 26`.
pub open spec fn spec_alu_after_pop(s: Seq<i64>) -> int
    recommends
        s.len() == 14,
{
    spec_block_b(spec_alu_after_pairs(s), s[8] as int, 10, 4)
}

/// The full transform: the accumulator folded over all fourteen digits.
pub open spec fn spec_alu(s: Seq<i64>) -> int
    recommends
        s.len() == 14,
{
    let z = spec_block_a(spec_alu_after_pop(s), s[9] as int, s[10] as int, 4, 3);
    let z = spec_block_b(z, s[11] as int, 4, 9);
    let z = spec_block_b(z, s[12] as int, 1, 15);
    spec_block_b(z, s[13] as int, 1, 5)
}

/// Paired step of the transform (policy A).
pub fn block_a(z: i64, wa: i64, wb: i64, w_diff: i64, offset: i64) -> (r: i64)
    requires
        0 <= z,
        0 <= wb,
        0 <= offset,
        i64::MIN <= wa - wb,
        z * 26 + wb + offset <= i64::MAX,
    ensures
        r == spec_block_a(z as int, wa as int, wb as int, w_diff as int, offset as int),
{
    if wa - wb == w_diff {
        z
    } else {
        z * 26 + wb + offset
    }
}

/// Single step of the transform (policy B).
pub fn block_b(z: i64, w: i64, dx: i64, offset: i64) -> (r: i64)
    requires
        0 <= z,
        0 <= w,
        0 <= offset,
        i64::MIN <= w + dx,
        w + dx <= i64::MAX,
        z + w + offset <= i64::MAX,
    ensures
        r == spec_block_b(z as int, w as int, dx as int, offset as int),
        0 <= r <= z + w + offset,
{
    proof {
        lemma_block_b_range(z as int, w as int, dx as int, offset as int);
    }
    if z % 26 == w + dx {
        z / 26
    } else {
        (z / 26) * 26 + w + offset
    }
}

/// The single policy never drives the accumulator negative and never grows
/// it by more than the replacement value `w + offset`.
pub proof fn lemma_block_b_range(z: int, w: int, dx: int, offset: int)
    requires
        0 <= z,
        0 <= w,
        0 <= offset,
    ensures
        0 <= spec_block_b(z, w, dx, offset) <= z + w + offset,
{
    vstd::arithmetic::div_mod::lemma_fundamental_div_mod(z, 26);
    vstd::arithmetic::div_mod::lemma_mod_bound(z, 26);
}

/// The paired policy never shrinks a nonnegative accumulator.
pub proof fn lemma_block_a_grows(z: int, wa: int, wb: int, w_diff: int, offset: int)
    requires
        0 <= z,
        0 <= wb,
        0 <= offset,
    ensures
        spec_block_a(z, wa, wb, w_diff, offset) >= z,
{
}

/// The single policy keeps the accumulator at or above `b` whenever it
/// starts at or above `26 * b`.
pub proof fn lemma_block_b_keeps(z: int, w: int, dx: int, offset: int, b: int)
    requires
        0 <= b,
        26 * b <= z,
        0 <= w,
        0 <= offset,
    ensures
        spec_block_b(z, w, dx, offset) >= b,
{
    vstd::arithmetic::div_mod::lemma_fundamental_div_mod(z, 26);
    vstd::arithmetic::div_mod::lemma_mod_bound(z, 26);
}

/// The transform, applied as the original program applies it: fourteen
/// digits, each between zero and nine, folded left to right.
pub fn alu(input: &[i64]) -> (r: i64)
    requires
        input@.len() == 14,
        forall|i: int| 0 <= i < 14 ==> 0 <= #[trigger] input@[i] <= 9,
    ensures
        r == spec_alu(input@),
{
    let w1 = input[0];
    let w2 = input[1];
    let w3 = input[2];
    let w4 = input[3];
    let w5 = input[4];
    let w6 = input[5];
    let w7 = input[6];
    let w8 = input[7];
    let w9 = input[8];
    let w10 = input[9];
    let w11 = input[10];
    let w12 = input[11];
    let w13 = input[12];
    let w14 = input[13];

    let z = w1 * 26 + w2 + 6;
    let z = z * 26 + w3 + 4;
    let z = z * 26 + w4 + 2;
    assert(z == spec_alu_seeded(input@));

    let z = block_a(z, w5, w6, -7, 1);
    let z = block_a(z, w7, w8, 5, 6);
    assert(z == spec_alu_after_pairs(input@));
    let z = block_b(z, w9, 10, 4);
    assert(z == spec_alu_after_pop(input@));
    let z = block_a(z, w10, w11, 4, 3);
    let z = block_b(z, w12, 4, 9);
    let z = block_b(z, w13, 1, 15);
    block_b(z, w14, 1, 5)
}

/// Multiplies the accumulator by the base, shifting its digits up one place.
#[allow(unused_variables)]
pub fn modshift(z: i64, n: i64) -> (r: i64)
    requires
        i64::MIN <= z * 26 <= i64::MAX,
    ensures
        r == z * 26,
{
    z * 26
}

/// Structural sanity bounds of the fold for valid candidates (all digits
/// between one and nine): after the first two paired steps the accumulator
/// holds at least four base-26 digits, and still at least three after the
/// ninth-digit single step.
pub proof fn lemma_structural_bounds(s: Seq<i64>)
    requires
        s.len() == 14,
        forall|i: int| 0 <= i < 14 ==> 1 <= #[trigger] s[i] <= 9,
    ensures
        spec_alu_after_pairs(s) >= 26 * 26 * 26,
        spec_alu_after_pop(s) >= 26 * 26,
{
    let z3 = spec_alu_seeded(s);
    assert(z3 >= 22441);
    lemma_block_a_grows(z3, s[4] as int, s[5] as int, -7, 1);
    lemma_block_a_grows(
        spec_block_a(z3, s[4] as int, s[5] as int, -7, 1),
        s[6] as int,
        s[7] as int,
        5,
        6,
    );
    lemma_block_b_keeps(spec_alu_after_pairs(s), s[8] as int, 10, 4, 676int);
}

} // verus!
