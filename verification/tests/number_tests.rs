use stepper_control::decimal::{i32_text, parse_i32, u32_text};
use stepper_control::num::{Num, SMALLEST_MOVE_BITS};

fn num(x: f32) -> Num {
    Num { bits: x.to_bits() }
}

const SAMPLES: [f32; 18] = [
    0.0, -0.0, 1.0, -1.0, 0.5, 0.999_999, 799.9, 800.0, 1e-40, 16_777_215.0, 16_777_216.0, 3e9,
    4_294_967_040.0, 4_294_967_296.0, 1e30, f32::INFINITY, f32::NEG_INFINITY, f32::NAN,
];

#[test]
fn order_is_that_of_floats() {
    for a in SAMPLES {
        for b in SAMPLES {
            assert_eq!(num(a).lt(num(b)), a < b, "{} {}", a, b);
            assert_eq!(num(a).le(num(b)), a <= b, "{} {}", a, b);
            assert_eq!(num(a).abs_lt(num(b)), a.abs() < b, "{} {}", a, b);
        }
        assert_eq!(num(a).nan(), a.is_nan());
    }
}

#[test]
fn clamp_is_that_of_floats() {
    for a in SAMPLES {
        for (lo, hi) in [(5.0f32, 500.0f32), (0.0, 0.0), (-3.0, 1e20)] {
            assert_eq!(num(a).clamp(num(lo), num(hi)), num(a.clamp(lo, hi)), "{}", a);
        }
    }
}

#[test]
fn whole_numbers_are_those_of_casts() {
    for a in SAMPLES {
        assert_eq!(num(a).to_u32(), a as u32, "{}", a);
    }
    let mut bits: u32 = 0;
    while bits < 0xff00_0000 {
        assert_eq!(Num { bits }.to_u32(), f32::from_bits(bits) as u32, "{:x}", bits);
        bits += 0x0001_2345;
    }
}

#[test]
fn smallest_move_is_a_hundredth() {
    assert_eq!(f32::from_bits(SMALLEST_MOVE_BITS), 0.01);
}

#[test]
fn decimals_of_whole_numbers() {
    assert_eq!(u32_text(0), "0");
    assert_eq!(u32_text(800), "800");
    assert_eq!(u32_text(u32::MAX), "4294967295");
    assert_eq!(i32_text(-1), "-1");
    assert_eq!(i32_text(i32::MIN), "-2147483648");
    assert_eq!(i32_text(1), "1");
}

#[test]
fn reading_whole_numbers_is_that_of_std() {
    for s in [
        "", "+", "-", "1", "+1", "-1", "-0", "007", "2147483647", "2147483648", "-2147483648",
        "-2147483649", "99999999999999999999", "1 ", " 1", "1.0", "١", "--1", "+-1", "99999999999x",
    ] {
        assert_eq!(parse_i32(s), s.parse::<i32>().ok(), "{:?}", s);
    }
}

#[test]
fn whole_numbers_read_back() {
    for n in [i32::MIN, -1, 0, 1, 10, 99, i32::MAX] {
        assert_eq!(parse_i32(&i32_text(n)), Some(n));
    }
}
