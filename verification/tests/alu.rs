use chippy::alu::{add_carry, shift_left, shift_right, sub_borrow};

#[test]
fn add_wraps_with_carry() {
    assert_eq!(add_carry(255, 1), (0, 1));
    assert_eq!(add_carry(200, 100), (44, 1));
    assert_eq!(add_carry(1, 2), (3, 0));
    assert_eq!(add_carry(255, 255), (254, 1));
    assert_eq!(add_carry(255, 0), (255, 0));
}

#[test]
fn sub_wraps_with_borrow() {
    assert_eq!(sub_borrow(0, 1), (255, 1));
    assert_eq!(sub_borrow(5, 3), (2, 0));
    assert_eq!(sub_borrow(3, 5), (254, 1));
    assert_eq!(sub_borrow(7, 7), (0, 0));
}

#[test]
fn shifts_give_the_bit_moved_out() {
    assert_eq!(shift_right(0b0000_0101), (0b0000_0010, 1));
    assert_eq!(shift_right(0b1000_0000), (0b0100_0000, 0));
    assert_eq!(shift_left(0b1000_0001), (0b0000_0010, 1));
    assert_eq!(shift_left(0b0100_0000), (0b1000_0000, 0));
}

#[test]
fn arithmetic_agrees_with_wrapping_arithmetic_on_all_pairs() {
    for a in 0..=255u8 {
        assert_eq!(shift_right(a), (a >> 1, a & 1));
        assert_eq!(shift_left(a), (a.wrapping_shl(1), a >> 7));
        for b in 0..=255u8 {
            let (sum, carry) = a.overflowing_add(b);
            assert_eq!(add_carry(a, b), (sum, carry as u8));
            let (difference, borrow) = a.overflowing_sub(b);
            assert_eq!(sub_borrow(a, b), (difference, borrow as u8));
        }
    }
}
