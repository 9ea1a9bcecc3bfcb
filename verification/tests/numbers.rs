use mediachat_native::seconds::{Seconds, DEFAULT_DURATION};
use mediachat_native::single::round;

const SAMPLES: [f64; 15] = [
    0.0,
    -0.0,
    5e-324,
    -5e-324,
    2.2250738585072014e-308,
    2.225073858507201e-308,
    0.1,
    1.0,
    -1.0,
    5.0,
    4.999999999999999,
    1.7976931348623157e308,
    f64::INFINITY,
    f64::NEG_INFINITY,
    f64::NAN,
];

#[test]
fn seconds_compare_as_numbers_do() {
    for a in SAMPLES {
        for b in SAMPLES {
            let (x, y) = (Seconds { bits: a.to_bits() }, Seconds { bits: b.to_bits() });
            assert_eq!(x.at_most(y), a <= b, "{a} <= {b}");
        }
    }
}

#[test]
fn negative_nan_compares_with_nothing() {
    let nan = Seconds { bits: (-f64::NAN).to_bits() };
    let one = Seconds { bits: 1.0f64.to_bits() };
    assert!(!nan.at_most(one));
    assert!(!one.at_most(nan));
    assert!(!nan.at_most(nan));
}

#[test]
fn comparing_is_transitive_and_total_on_numbers() {
    for a in SAMPLES {
        for b in SAMPLES {
            let (x, y) = (Seconds { bits: a.to_bits() }, Seconds { bits: b.to_bits() });
            assert_eq!(x.at_most(y) || y.at_most(x), !a.is_nan() && !b.is_nan());
            for c in SAMPLES {
                let z = Seconds { bits: c.to_bits() };
                assert!(!(x.at_most(y) && y.at_most(z)) || x.at_most(z));
            }
        }
    }
}

#[test]
fn default_duration_is_five_seconds() {
    assert_eq!(f64::from_bits(DEFAULT_DURATION), 5.0);
}

#[test]
fn rounding_is_that_of_a_conversion() {
    let mut n: u128 = 1;
    for step in 0..4000u128 {
        assert_eq!(round(n) as f32, n as f32);
        assert_eq!(round(n), (n as f32) as u128, "{n}");
        n = (n * 5 / 4 + step) % (1 << 72) + 1;
    }
}

#[test]
fn rounding_of_ties_is_to_even() {
    assert_eq!(round(0x100_0000), 0x100_0000);
    assert_eq!(round(0x100_0001), 0x100_0000);
    assert_eq!(round(0x100_0003), 0x100_0004);
    assert_eq!(round(0x1ff_ffff), 0x200_0000);
    assert_eq!(round(0), 0);
}

#[test]
fn the_default_font_size_is_36_points() {
    assert_eq!(f32::from_bits(mediachat_native::scene::DEFAULT_FONT_SIZE), 36.0);
}
