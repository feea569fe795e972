use alu_search::search::decrement;

#[test]
fn decrement_steps_last_digit() {
    let mut digits = vec![9i64; 14];
    decrement(&mut digits);
    assert_eq!(digits, vec![9, 9, 9, 9, 9, 9, 9, 9, 9, 9, 9, 9, 9, 8]);
}

#[test]
fn decrement_borrows_through_trailing_one() {
    // A last digit at the floor wraps to nine and borrows leftward.
    let mut digits = vec![3i64, 3, 3, 3, 3, 3, 3, 3, 3, 3, 3, 3, 5, 1];
    decrement(&mut digits);
    assert_eq!(digits, vec![3, 3, 3, 3, 3, 3, 3, 3, 3, 3, 3, 3, 4, 9]);
}

#[test]
fn decrement_borrows_through_a_run_of_ones() {
    // The borrow runs through every trailing one, wrapping each to nine,
    // and stops at the first digit that can go down by one.
    let mut digits = vec![1i64, 9, 1, 1, 1, 1, 1, 1, 1, 1, 1, 1, 1, 1];
    decrement(&mut digits);
    assert_eq!(digits, vec![1, 8, 9, 9, 9, 9, 9, 9, 9, 9, 9, 9, 9, 9]);
}

#[test]
fn decrement_wraps_all_ones_to_all_nines() {
    let mut digits = vec![1i64; 14];
    decrement(&mut digits);
    assert_eq!(digits, vec![9i64; 14]);
}

#[test]
fn decrement_counts_down_in_order() {
    // 2000 successive steps from all nines stay strictly descending when the
    // digits are read as a number.
    let as_number = |d: &Vec<i64>| d.iter().fold(0i64, |acc, &x| acc * 10 + x);
    let mut digits = vec![9i64; 14];
    let mut previous = as_number(&digits);
    for _ in 0..2000 {
        decrement(&mut digits);
        let current = as_number(&digits);
        assert!(current < previous);
        previous = current;
    }
}
