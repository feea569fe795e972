use alu_search::transform::{alu, block_a, block_b, modshift};

#[test]
fn isok() {
    assert_eq!(alu(&[1, 1, 1, 1, 1, 1, 1, 1, 1, 1, 1, 1, 1, 1]), 394424504);
    assert_eq!(alu(&[9, 9, 9, 9, 9, 9, 9, 9, 9, 9, 9, 9, 9, 9]), 2964603760);
    assert_eq!(alu(&[1, 2, 3, 4, 5, 6, 7, 8, 9, 1, 2, 3, 4, 5]), 407276152);
    assert_eq!(alu(&[9, 8, 7, 6, 5, 4, 3, 2, 1, 0, 0, 0, 0, 0]), 2951752107);
    assert_eq!(alu(&[0, 0, 0, 0, 0, 0, 0, 0, 0, 0, 0, 0, 0, 0]), 73152097);
    assert_eq!(alu(&[0, 0, 0, 0, 1, 8, 0, 0, 0, 0, 0, 0, 0, 0]), 2813621);
    assert_eq!(alu(&[0, 0, 0, 0, 0, 0, 7, 2, 0, 0, 0, 0, 0, 0]), 2813621);
    assert_eq!(alu(&[0, 0, 0, 0, 0, 0, 0, 0, 0, 7, 3, 0, 0, 0]), 4165);

    assert_eq!(alu(&[9, 4, 9, 9, 2, 9, 9, 4, 1, 9, 5, 9, 9, 8]), 0);
    assert_eq!(alu(&[2, 1, 1, 9, 1, 8, 6, 1, 1, 5, 1, 1, 6, 1]), 0);
}

#[test]
fn block_a_skips_on_expected_difference() {
    assert_eq!(block_a(100, 8, 1, 7, 3), 100);
    assert_eq!(block_a(17576, 2, 9, -7, 1), 17576);
}

#[test]
fn block_a_pushes_otherwise() {
    assert_eq!(block_a(100, 5, 1, 7, 3), 100 * 26 + 1 + 3);
    assert_eq!(block_a(0, 1, 1, 5, 6), 1 + 6);
}

#[test]
fn block_b_pops_on_match() {
    // 135 == 5 * 26 + 5, so the low base-26 digit is 5 == 4 + 1.
    assert_eq!(block_b(135, 4, 1, 7), 5);
}

#[test]
fn block_b_replaces_otherwise() {
    // 135 == 5 * 26 + 5, and 5 != 4 + 2: the low digit becomes 4 + 7.
    assert_eq!(block_b(135, 4, 2, 7), 5 * 26 + 4 + 7);
}

#[test]
fn modshift_multiplies_by_base() {
    assert_eq!(modshift(5, 3), 130);
    assert_eq!(modshift(0, 9), 0);
}
