//! The bit-level float conversions against the machine's own.

use fbx_direct::common::OwnedProperty;

fn check_narrow(v: f64) {
    let expect = (v as f32).to_bits();
    let got = OwnedProperty::F64(v.to_bits()).get_f32().unwrap();
    assert_eq!(got, expect, "narrowing {v:?}");
}

fn check_widen(v: f32) {
    let expect = f64::from(v).to_bits();
    let got = OwnedProperty::F32(v.to_bits()).get_f64().unwrap();
    assert_eq!(got, expect, "widening {v:?}");
}

#[test]
fn widening_matches_the_machine() {
    let samples: [f32; 14] = [
        0.0,
        -0.0,
        1.0,
        -1.5,
        0.1,
        3.4028235e38,
        -3.4028235e38,
        1.1754944e-38,  // least normal
        1e-45,          // subnormal
        -1e-40,
        f32::INFINITY,
        f32::NEG_INFINITY,
        6.1e-39,
        123456.78,
    ];
    for &v in samples.iter() {
        check_widen(v);
    }
}

#[test]
fn narrowing_matches_the_machine() {
    let samples: [f64; 18] = [
        0.0,
        -0.0,
        1.0,
        -1.5,
        0.1,
        1e300,
        -1e300,         // overflow to infinity
        1e-300,         // underflow to zero
        5e-324,         // least double subnormal
        3.4028235e38,
        3.5e38,         // just above the single range
        1.1754944e-38,
        1e-40,          // single subnormal range
        1e-45,
        7e-46,          // rounds to the least single subnormal or to zero
        f64::INFINITY,
        f64::NEG_INFINITY,
        1.0000000596046448,  // halfway case, ties to even
    ];
    for &v in samples.iter() {
        check_narrow(v);
    }
}

#[test]
fn narrowing_rounds_ties_to_even() {
    // Exactly between two singles: 1 + 2^-24.
    let tie = f64::from_bits(0x3ff0000010000000);
    check_narrow(tie);
    // And just above the tie.
    check_narrow(f64::from_bits(0x3ff0000010000001));
}

#[test]
fn nan_stays_nan_both_ways() {
    let narrowed = OwnedProperty::F64(f64::NAN.to_bits()).get_f32().unwrap();
    assert!(f32::from_bits(narrowed).is_nan());
    let widened = OwnedProperty::F32(f32::NAN.to_bits()).get_f64().unwrap();
    assert!(f64::from_bits(widened).is_nan());
}

#[test]
fn vec_float_conversions_are_elementwise() {
    let doubles: Vec<f64> = vec![1.5, -2.25, 1e300, 5e-324];
    let bits: Vec<u64> = doubles.iter().map(|v| v.to_bits()).collect();
    let narrowed = OwnedProperty::VecF64(bits.clone()).get_vec_f32().unwrap();
    let expect: Vec<u32> = doubles.iter().map(|&v| (v as f32).to_bits()).collect();
    assert_eq!(narrowed, expect);

    let singles: Vec<f32> = vec![0.5, -1e-40, 3.25];
    let sbits: Vec<u32> = singles.iter().map(|v| v.to_bits()).collect();
    let widened = OwnedProperty::VecF32(sbits).get_vec_f64().unwrap();
    let wexpect: Vec<u64> = singles.iter().map(|&v| f64::from(v).to_bits()).collect();
    assert_eq!(widened, wexpect);
}
