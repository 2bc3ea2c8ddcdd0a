use des_kernel::time::Time;
use des_kernel::time::INFINITY_BITS;
use des_kernel::time::NAN_BITS;
use des_kernel::time::SIGN_BIT;
use ordered_float::OrderedFloat;
use std::cmp::Ordering;

fn at(value: f64) -> Time {
    Time::from_bits(value.to_bits())
}

fn samples() -> Vec<f64> {
    vec![
        f64::NEG_INFINITY,
        f64::MIN,
        -1.0e300,
        -3.5,
        -1.0,
        -f64::MIN_POSITIVE,
        -5.0e-324,
        -0.0,
        0.0,
        5.0e-324,
        f64::MIN_POSITIVE,
        0.5,
        1.0,
        1.0000000000000002,
        3.0,
        5.0,
        2.0 * std::f64::consts::PI,
        1.0e300,
        f64::MAX,
        f64::INFINITY,
    ]
}

#[test]
fn zero_is_the_time_of_zero() {
    assert_eq!(Time::zero().to_bits(), 0);
    assert_eq!(Time::zero(), at(0.0));
    assert_eq!(Time::default(), Time::zero());
    assert!(!Time::zero().is_nan());
}

#[test]
fn bits_of_numbers_survive_the_round_trip() {
    for value in samples() {
        if value == 0.0 {
            continue;
        }
        assert_eq!(at(value).to_bits(), value.to_bits());
        assert_eq!(f64::from_bits(at(value).to_bits()), value);
    }
}

#[test]
fn exact_bits_of_some_times() {
    assert_eq!(at(1.0).to_bits(), 0x3ff0_0000_0000_0000);
    assert_eq!(at(-1.0).to_bits(), 0xbff0_0000_0000_0000);
    assert_eq!(at(5.0).to_bits(), 0x4014_0000_0000_0000);
    assert_eq!(at(f64::INFINITY).to_bits(), INFINITY_BITS);
    assert_eq!(at(f64::NEG_INFINITY).to_bits(), SIGN_BIT + INFINITY_BITS);
}

#[test]
fn negative_zero_is_zero() {
    assert_eq!(at(-0.0), at(0.0));
    assert_eq!(at(-0.0).to_bits(), 0);
    assert_eq!(Time::from_bits(SIGN_BIT), Time::zero());
    assert!(!at(-0.0).precedes(&at(0.0)));
    assert!(!at(0.0).precedes(&at(-0.0)));
}

#[test]
fn every_nan_is_the_same_time() {
    let quiet = at(f64::NAN);
    let signalling = Time::from_bits(0x7ff0_0000_0000_0001);
    let negative = Time::from_bits(0xfff8_0000_0000_0000);
    let full = Time::from_bits(u64::MAX);
    assert!(quiet.is_nan());
    assert!(signalling.is_nan());
    assert!(negative.is_nan());
    assert!(full.is_nan());
    assert_eq!(quiet, signalling);
    assert_eq!(quiet, negative);
    assert_eq!(quiet, full);
    assert_eq!(quiet.to_bits(), NAN_BITS);
    assert_eq!(negative.to_bits(), NAN_BITS);
    assert!(f64::from_bits(full.to_bits()).is_nan());
}

#[test]
fn numbers_are_not_nan() {
    for value in samples() {
        assert!(!at(value).is_nan());
    }
}

#[test]
fn nan_is_after_every_number() {
    let nan = at(f64::NAN);
    for value in samples() {
        assert!(at(value).precedes(&nan));
        assert!(!nan.precedes(&at(value)));
        assert!(at(value) < nan);
    }
    assert!(!nan.precedes(&nan));
}

#[test]
fn times_are_ordered_as_their_values() {
    for a in samples() {
        for b in samples() {
            assert_eq!(at(a).precedes(&at(b)), a < b, "{a} before {b}");
            assert_eq!(at(a) < at(b), a < b, "{a} < {b}");
            assert_eq!(at(a) <= at(b), a <= b, "{a} <= {b}");
            assert_eq!(at(a) > at(b), a > b, "{a} > {b}");
            assert_eq!(at(a) >= at(b), a >= b, "{a} >= {b}");
            assert_eq!(at(a) == at(b), a == b, "{a} == {b}");
        }
    }
}

#[test]
fn times_compare_as_ordered_floats_do() {
    let mut values = samples();
    values.push(f64::NAN);
    for a in values.clone() {
        for b in values.clone() {
            let expected = OrderedFloat(a).cmp(&OrderedFloat(b));
            assert_eq!(at(a).cmp(&at(b)), expected);
            assert_eq!(at(a).partial_cmp(&at(b)), Some(expected));
        }
    }
}

#[test]
fn partial_cmp_of_times() {
    assert_eq!(at(1.0).partial_cmp(&at(3.0)), Some(Ordering::Less));
    assert_eq!(at(3.0).partial_cmp(&at(3.0)), Some(Ordering::Equal));
    assert_eq!(at(3.0).partial_cmp(&at(1.0)), Some(Ordering::Greater));
    assert_eq!(at(-2.0).partial_cmp(&at(-1.0)), Some(Ordering::Less));
}

#[test]
fn sorting_times_sorts_their_values() {
    let mut times: Vec<Time> = vec![at(3.0), at(-1.0), at(f64::INFINITY), at(0.0), at(-7.5), at(2.5)];
    times.sort();
    let values: Vec<f64> = times.iter().map(|time| f64::from_bits(time.to_bits())).collect();
    assert_eq!(values, vec![-7.5, -1.0, 0.0, 2.5, 3.0, f64::INFINITY]);
}
