use stepper_arm::frame_bits::FrameBits;

#[test]
fn new_frame_packs_to_zero_bytes() {
    let f = FrameBits::new(24);
    assert_eq!(f.to_bytes(), vec![0, 0, 0]);
}

#[test]
fn first_bit_is_high_order_bit_of_first_byte() {
    let mut f = FrameBits::new(24);
    f.set(0, true);
    f.set(9, true);
    f.set(23, true);
    assert_eq!(f.to_bytes(), vec![0b1000_0000, 0b0100_0000, 0b0000_0001]);
}

#[test]
fn partial_last_byte_is_padded_with_zeros() {
    let mut f = FrameBits::new(3);
    f.set(0, true);
    f.set(2, true);
    assert_eq!(f.to_bytes(), vec![0b1010_0000]);
    let mut g = FrameBits::new(9);
    g.set(2, true);
    g.set(8, true);
    assert_eq!(g.to_bytes(), vec![0b0010_0000, 0b1000_0000]);
}

#[test]
fn clearing_a_bit_turns_it_off() {
    let mut f = FrameBits::new(8);
    f.set(4, true);
    f.set(4, false);
    f.set(7, true);
    assert_eq!(f.to_bytes(), vec![1]);
}

#[test]
fn bytes_read_back_bit_for_bit() {
    let pattern: Vec<bool> = (0..24).map(|i| (i * 7) % 5 < 2).collect();
    let mut f = FrameBits::new(24);
    for (i, b) in pattern.iter().enumerate() {
        f.set(i, *b);
    }
    let bytes = f.to_bytes();
    for i in 0..24 {
        assert_eq!((bytes[i / 8] >> (7 - i % 8)) & 1 == 1, pattern[i]);
    }
}
