use rtl433_parser::binary64::Binary64;

fn ours(x: f64) -> String {
    Binary64 { bits: x.to_bits() }.to_one_decimal()
}

fn theirs(bits: u64) -> String {
    format!("{:.1}", f64::from_bits(bits))
}

#[test]
fn one_digit_is_kept_behind_the_point() {
    assert_eq!(ours(21.5), "21.5");
    assert_eq!(ours(21.0), "21.0");
    assert_eq!(ours(0.0), "0.0");
    assert_eq!(ours(47.0), "47.0");
    assert_eq!(ours(-12.3), "-12.3");
    assert_eq!(ours(1234567.8), "1234567.8");
}

#[test]
fn the_nearest_text_is_written() {
    assert_eq!(ours(21.44), "21.4");
    assert_eq!(ours(21.46), "21.5");
    assert_eq!(ours(0.05), "0.1");
    assert_eq!(ours(0.049), "0.0");
    assert_eq!(ours(99.96), "100.0");
    assert_eq!(ours(-0.96), "-1.0");
}

#[test]
fn of_two_texts_equally_near_the_even_one_is_written() {
    assert_eq!(ours(0.25), "0.2");
    assert_eq!(ours(0.75), "0.8");
    assert_eq!(ours(1.25), "1.2");
    assert_eq!(ours(1.75), "1.8");
    assert_eq!(ours(-3.25), "-3.2");
    assert_eq!(ours(-3.75), "-3.8");
    assert_eq!(ours(1024.25), "1024.2");
}

#[test]
fn a_number_is_rounded_as_it_is_stored_and_not_as_it_is_written() {
    assert_eq!(ours(0.35), "0.3");
    assert_eq!(ours(0.45), "0.5");
    assert_eq!(ours(2.675), "2.7");
    assert_eq!(ours(1.005), "1.0");
}

#[test]
fn a_set_sign_shows_also_before_a_zero() {
    assert_eq!(ours(-0.0), "-0.0");
    assert_eq!(ours(-0.04), "-0.0");
    assert_eq!(ours(-1e-300), "-0.0");
}

#[test]
fn what_is_no_number_is_written_in_words() {
    assert_eq!(ours(f64::INFINITY), "inf");
    assert_eq!(ours(f64::NEG_INFINITY), "-inf");
    assert_eq!(ours(f64::NAN), "NaN");
    assert_eq!(Binary64 { bits: 0xfff8_0000_0000_0001 }.to_one_decimal(), "NaN");
    assert_eq!(Binary64 { bits: 0x7ff0_0000_0000_0001 }.to_one_decimal(), "NaN");
}

#[test]
fn the_smallest_numbers_are_written_as_zero() {
    assert_eq!(Binary64 { bits: 0 }.to_one_decimal(), "0.0");
    assert_eq!(Binary64 { bits: 1 }.to_one_decimal(), "0.0");
    assert_eq!(ours(f64::MIN_POSITIVE), "0.0");
    assert_eq!(ours(5e-324), "0.0");
}

#[test]
fn the_largest_numbers_are_written_in_full() {
    assert_eq!(ours(4503599627370496.0), "4503599627370496.0");
    assert_eq!(ours(9007199254740993.0), "9007199254740992.0");
    assert_eq!(ours(1e22), "10000000000000000000000.0");
    assert_eq!(ours(1e23), "99999999999999991611392.0");
    assert_eq!(ours(f64::MAX), theirs(f64::MAX.to_bits()));
    assert_eq!(ours(f64::MAX).len(), 311);
    assert_eq!(ours(f64::MIN), theirs(f64::MIN.to_bits()));
}

#[test]
fn one_decimal_agrees_with_the_standard_library_on_chosen_numbers() {
    let numbers = [
        0.0, -0.0, 0.05, 0.15, 0.25, 0.35, 0.45, 0.55, 0.65, 0.75, 0.85, 0.95, 1.0, 1.05, 9.95,
        9.949999, 9.950001, 10.0, 99.95, 99.9, 100.0, 123.456, -273.15, 21.5, 21.55, 21.65,
        36.6, 451.0, 1e-1, 1e-2, 1e-10, 1e-320, 1e15, 1e16, 1e17, 1e100, 1e300, 1.7976931348623157e308,
        2.2250738585072014e-308, 4.9e-324, 0.1 + 0.2, 1.0 / 3.0, 2.0 / 3.0, 4503599627370495.5,
        4503599627370496.5, 2251799813685247.8, 2251799813685248.2, 1125899906842623.9,
    ];
    for x in numbers {
        for y in [x, -x] {
            assert_eq!(ours(y), theirs(y.to_bits()), "{:e}", y);
        }
    }
}

#[test]
fn one_decimal_agrees_with_the_standard_library_on_every_small_exponent() {
    for biased in 0..1140u64 {
        for fraction in [0u64, 1, 0x8_0000_0000_0000, 0xf_ffff_ffff_ffff, 0x4_cccc_cccc_cccd, 0x9_9999_9999_999a] {
            for sign in [0u64, 1] {
                let bits = (sign << 63) | (biased << 52) | fraction;
                assert_eq!(Binary64 { bits }.to_one_decimal(), theirs(bits), "{:#x}", bits);
            }
        }
    }
}

#[test]
fn one_decimal_agrees_with_the_standard_library_on_large_exponents() {
    let mut biased = 1140u64;
    while biased < 2048 {
        for fraction in [0u64, 0xf_ffff_ffff_ffff, 0x4_cccc_cccc_cccd] {
            let bits = (biased << 52) | fraction;
            assert_eq!(Binary64 { bits }.to_one_decimal(), theirs(bits), "{:#x}", bits);
        }
        biased += 5;
    }
    for biased in [2043u64, 2044, 2045, 2046, 2047] {
        for sign in [0u64, 1] {
            let bits = (sign << 63) | (biased << 52) | 0x8_0000_0000_0001;
            assert_eq!(Binary64 { bits }.to_one_decimal(), theirs(bits), "{:#x}", bits);
        }
    }
}

#[test]
fn one_decimal_agrees_with_the_standard_library_on_scattered_bits() {
    let mut state: u64 = 0x9e37_79b9_7f4a_7c15;
    for _ in 0..1500 {
        state = state.wrapping_mul(6364136223846793005).wrapping_add(1442695040888963407);
        let bits = state ^ (state >> 29);
        assert_eq!(Binary64 { bits }.to_one_decimal(), theirs(bits), "{:#x}", bits);
    }
}

#[test]
fn one_decimal_agrees_with_the_standard_library_on_scattered_everyday_numbers() {
    let mut state: u64 = 0x2545_f491_4f6c_dd1d;
    for _ in 0..20000 {
        state = state.wrapping_mul(6364136223846793005).wrapping_add(1442695040888963407);
        let biased = 1000 + (state >> 58);
        let bits = (state & 0x800f_ffff_ffff_ffff) | (biased << 52);
        assert_eq!(Binary64 { bits }.to_one_decimal(), theirs(bits), "{:#x}", bits);
    }
}

#[test]
fn one_decimal_agrees_with_the_standard_library_near_the_ties() {
    for k in 0..4000u64 {
        let quarter = (k as f64) * 0.25 + 0.05 * ((k % 3) as f64);
        for x in [quarter, f64::from_bits(quarter.to_bits() + 1), f64::from_bits(quarter.to_bits().wrapping_sub(1))] {
            assert_eq!(ours(x), theirs(x.to_bits()), "{:e}", x);
        }
        let twentieth = (k as f64) / 20.0;
        assert_eq!(ours(twentieth), theirs(twentieth.to_bits()), "{:e}", twentieth);
        assert_eq!(ours(-twentieth), theirs((-twentieth).to_bits()), "{:e}", twentieth);
    }
}
