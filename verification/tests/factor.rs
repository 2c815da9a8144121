use aetherment::factor::{scale, Factor};

fn product(chan: u8, bits: u32) -> u8 {
    (chan as f32 * f32::from_bits(bits)) as u8
}

fn factor(value: f32) -> Factor {
    Factor { bits: value.to_bits() }
}

fn agrees_for_every_byte(bits: u32) {
    for chan in 0..=255u8 {
        assert_eq!(
            scale(chan, Factor { bits }),
            product(chan, bits),
            "channel {} under the encoding {:#010x}",
            chan,
            bits
        );
    }
}

#[test]
fn half_of_two_hundred_is_one_hundred() {
    assert_eq!(scale(200, factor(0.5)), 100);
}

#[test]
fn a_product_is_cut_not_rounded() {
    // 200 * 0.503 is 100.6
    assert_eq!(scale(200, factor(0.503)), 100);
    // 255 * 0.5 is 127.5
    assert_eq!(scale(255, factor(0.5)), 127);
    // 3 * 0.9 is 2.7
    assert_eq!(scale(3, factor(0.9)), 2);
}

#[test]
fn one_keeps_every_byte() {
    for chan in 0..=255u8 {
        assert_eq!(scale(chan, factor(1.0)), chan);
    }
}

#[test]
fn zero_clears_every_byte() {
    for chan in 0..=255u8 {
        assert_eq!(scale(chan, factor(0.0)), 0);
        assert_eq!(scale(chan, factor(-0.0)), 0);
    }
}

#[test]
fn a_product_above_the_range_is_held_at_the_top() {
    assert_eq!(scale(200, factor(2.0)), 255);
    assert_eq!(scale(1, factor(255.0)), 255);
    assert_eq!(scale(1, factor(256.0)), 255);
    assert_eq!(scale(1, factor(1.0e30)), 255);
    assert_eq!(scale(1, factor(f32::MAX)), 255);
    assert_eq!(scale(255, factor(f32::MAX)), 255);
}

#[test]
fn a_negative_product_is_held_at_zero() {
    assert_eq!(scale(200, factor(-0.5)), 0);
    assert_eq!(scale(200, factor(-1.0e30)), 0);
    assert_eq!(scale(1, factor(f32::NEG_INFINITY)), 0);
}

#[test]
fn infinity_fills_all_but_zero() {
    assert_eq!(scale(1, factor(f32::INFINITY)), 255);
    assert_eq!(scale(255, factor(f32::INFINITY)), 255);
    // zero times infinity is no number
    assert_eq!(scale(0, factor(f32::INFINITY)), 0);
}

#[test]
fn no_number_gives_zero() {
    assert_eq!(scale(200, factor(f32::NAN)), 0);
    assert_eq!(scale(200, Factor { bits: 0x7f80_0001 }), 0);
    assert_eq!(scale(200, Factor { bits: 0xffc0_0000 }), 0);
    assert_eq!(scale(0, factor(f32::NAN)), 0);
}

#[test]
fn a_tiny_multiplier_gives_zero() {
    assert_eq!(scale(255, factor(f32::MIN_POSITIVE)), 0);
    assert_eq!(scale(255, Factor { bits: 1 }), 0);
    assert_eq!(scale(255, Factor { bits: 0x007f_ffff }), 0);
    assert_eq!(scale(255, factor(1.0e-3)), 0);
}

#[test]
fn a_product_that_rounds_up_to_a_whole_number_reaches_it() {
    // 192 times this multiplier lies below 5 by less than half a step of the
    // format, so the product is 5 itself
    assert_eq!(product(192, 0x3cd5_5555), 5);
    assert_eq!(scale(192, Factor { bits: 0x3cd5_5555 }), 5);
    assert_eq!(scale(96, Factor { bits: 0x3d55_5555 }), 5);
    assert_eq!(scale(192, Factor { bits: 0x3d55_5555 }), 10);
    assert_eq!(scale(48, Factor { bits: 0x3dd5_5555 }), 5);
}

#[test]
fn a_product_just_below_a_whole_number_stays_below() {
    // the largest value below one
    let below_one = Factor { bits: 0x3f7f_ffff };
    assert_eq!(scale(255, below_one), 254);
    assert_eq!(scale(3, below_one), 2);
    assert_eq!(scale(2, below_one), 1);
    assert_eq!(scale(1, below_one), 0);
}

#[test]
fn agrees_with_the_hardware_around_common_multipliers() {
    for centre in [0.25f32, 0.5, 0.503, 0.75, 0.9, 1.0, 1.5, 2.0, 100.0, 254.0, 255.0, 256.0] {
        let bits = centre.to_bits();
        for near in bits - 300..=bits + 300 {
            agrees_for_every_byte(near);
        }
    }
}

#[test]
fn agrees_with_the_hardware_for_every_exponent() {
    for exponent in 0..=255u32 {
        for fraction in [0u32, 1, 2, 0x2a_aaaa, 0x3f_ffff, 0x40_0000, 0x40_0001, 0x55_5555, 0x7f_fffe, 0x7f_ffff] {
            agrees_for_every_byte(exponent << 23 | fraction);
            agrees_for_every_byte(1 << 31 | exponent << 23 | fraction);
        }
    }
}

#[test]
fn agrees_with_the_hardware_on_a_sweep_of_all_encodings() {
    let mut bits: u32 = 0;
    loop {
        agrees_for_every_byte(bits);
        match bits.checked_add(1_299_709) {
            Some(next) => bits = next,
            None => break,
        }
    }
}

#[test]
fn agrees_with_the_hardware_where_products_fall_in_the_byte_range() {
    // multipliers between 2^-9 and 2^9, fractions drawn by a fixed recurrence
    let mut state: u32 = 0x1234_5678;
    for exponent in 118..=136u32 {
        for _ in 0..400 {
            state = state.wrapping_mul(1_664_525).wrapping_add(1_013_904_223);
            agrees_for_every_byte(exponent << 23 | state >> 9);
        }
    }
}
