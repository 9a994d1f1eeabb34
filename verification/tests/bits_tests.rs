use organic_chess::player::binary_util::get_segment;
use organic_chess::player::brain::flip_bit;

#[test]
fn segment_of_high_nibble() {
    assert_eq!(get_segment(0b1011_0110, 0b1111_0000), 0b1011);
}

#[test]
fn segment_of_middle_byte() {
    assert_eq!(get_segment(0xABCD_EF12, 0x00FF_0000), 0xCD);
}

#[test]
fn segment_with_low_mask_is_plain_and() {
    assert_eq!(get_segment(0xFFFF_FFFF, 0b101), 0b101);
    assert_eq!(get_segment(0x1234_5678, 0xFFFF_FFFF), 0x1234_5678);
}

#[test]
fn segment_shifted_back_gives_masked_bits() {
    let cases = [(0xDEAD_BEEFu32, 0x0FF0_0000u32), (0x1234_5678, 0x8000_0000), (7, 6)];
    for (i, mask) in cases {
        let seg = get_segment(i, mask);
        assert_eq!(seg << mask.trailing_zeros(), i & mask);
    }
}

#[test]
fn flip_bit_picks_draw_mod_eight() {
    assert_eq!(flip_bit(0, 3), 8);
    assert_eq!(flip_bit(0xFF, 10), 0xFB);
    assert_eq!(flip_bit(0x80, 15), 0x00);
    assert_eq!(flip_bit(0x01, 8), 0x00);
}
