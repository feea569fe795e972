use alu_search::predicate::check_alu;
use alu_search::transform::alu;

const MAX_DIGITS: [i64; 14] = [9, 4, 9, 9, 2, 9, 9, 4, 1, 9, 5, 9, 9, 8];
const MIN_DIGITS: [i64; 14] = [2, 1, 1, 9, 1, 8, 6, 1, 1, 5, 1, 1, 6, 1];

#[test]
fn check_alu_accepts_both_known_zeroes() {
    assert!(check_alu(&MAX_DIGITS));
    assert!(check_alu(&MIN_DIGITS));
}

#[test]
fn check_alu_rejects_each_broken_relation() {
    // Breaking any one of the seven digit relations must flip the answer.
    // Positions paired by a relation: (4,5), (6,7), (9,10), (3,8), (2,11),
    // (1,12), (0,13).
    for &pos in &[5usize, 6, 9, 3, 2, 1, 0] {
        let mut digits = MAX_DIGITS;
        digits[pos] = if digits[pos] == 9 { 8 } else { digits[pos] + 1 };
        assert!(!check_alu(&digits));
    }
}

#[test]
fn check_alu_agrees_with_alu_on_samples() {
    // A deterministic sweep of valid candidates: the predicate answers true
    // exactly where the transform folds to zero.
    let mut digits = [1i64; 14];
    let mut step = 0u64;
    loop {
        assert_eq!(check_alu(&digits), alu(&digits) == 0);
        // Walk a coarse lattice of candidates rather than all 9^14.
        step += 1;
        if step > 5000 {
            break;
        }
        let mut carry = 3i64;
        for d in digits.iter_mut().rev() {
            *d += carry;
            if *d > 9 {
                *d -= 9;
                carry = 1;
            } else {
                carry = 0;
                break;
            }
        }
    }
}
