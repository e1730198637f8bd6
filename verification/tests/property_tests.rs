//! Conversions of the property model.

use fbx_direct::common::{OwnedProperty, Property};

#[test]
fn owned_vec_i32_to_vec_i64() {
    let vec_i32: Vec<i32> = vec![1, -1, 2, -3, 5, -8, 13, -21, 34];
    let vec_i64 = vec_i32.iter().map(|&v| i64::from(v)).collect::<Vec<_>>();
    let src = OwnedProperty::VecI32(vec_i32.clone());
    let dst = src.get_vec_i64().unwrap();
    let dst2 = src.into_vec_i64().unwrap();
    assert_eq!(vec_i64, dst);
    assert_eq!(vec_i64, dst2);
}

#[test]
fn borrowed_vec_i32_to_vec_i64() {
    let vec_i32: Vec<i32> = vec![1, -1, 2, -3, 5, -8, 13, -21, 34];
    let vec_i64 = vec_i32.iter().map(|&v| i64::from(v)).collect::<Vec<_>>();
    let src_owned = OwnedProperty::VecI32(vec_i32.clone());
    let src = src_owned.borrow();
    let dst = src.get_vec_i64().unwrap();
    assert_eq!(vec_i64, dst);
}

#[test]
fn bool_widens_to_integers() {
    let t = OwnedProperty::Bool(true);
    let f = OwnedProperty::Bool(false);
    assert_eq!(t.get_bool(), Some(true));
    assert_eq!(t.get_i16(), Some(1));
    assert_eq!(f.get_i16(), Some(0));
    assert_eq!(t.get_i32(), Some(1));
    assert_eq!(t.get_i64(), Some(1));
    assert_eq!(t.get_f64(), None);
    assert_eq!(t.get_string(), None);
}

#[test]
fn integer_widenings_preserve_values() {
    let p = OwnedProperty::I16(-300);
    assert_eq!(p.get_i32(), Some(-300));
    assert_eq!(p.get_i64(), Some(-300));
    let q = OwnedProperty::I32(-70000);
    assert_eq!(q.get_i16(), None);
    assert_eq!(q.get_i64(), Some(-70000));
}

#[test]
fn narrowing_integers_is_refused() {
    // Conversion safety: a lossy integer conversion returns absent.
    let p = OwnedProperty::I64(1 << 40);
    assert_eq!(p.get_i32(), None);
    assert_eq!(p.get_i16(), None);
    assert_eq!(p.get_bool(), None);
    let small = OwnedProperty::I64(7);
    // Even a representable value is refused: the variant decides.
    assert_eq!(small.get_i32(), None);
}

#[test]
fn into_conversions_return_input_on_failure() {
    let p = OwnedProperty::String("xyz".to_string());
    match p.into_i32() {
        Ok(_) => panic!("a string must not convert to an integer"),
        Err(back) => assert_eq!(back, OwnedProperty::String("xyz".to_string())),
    }
}

#[test]
fn vec_bool_widens_elementwise() {
    let p = OwnedProperty::VecBool(vec![true, false, true]);
    assert_eq!(p.get_vec_i32(), Some(vec![1, 0, 1]));
    assert_eq!(p.get_vec_i64(), Some(vec![1, 0, 1]));
    assert_eq!(p.get_vec_bool(), Some(vec![true, false, true]));
}

#[test]
fn string_to_binary_needs_explicit_base64() {
    let p = OwnedProperty::String("aGk=".to_string());
    // Not requested: absent.
    assert_eq!(p.get_binary(false), None);
    // Requested: decoded.
    assert_eq!(p.get_binary(true), Some(b"hi".to_vec()));
    // Malformed base64: absent.
    let bad = OwnedProperty::String("a?(".to_string());
    assert_eq!(bad.get_binary(true), None);
    // into_binary hands the input back on failure.
    match bad.into_binary(true) {
        Ok(_) => panic!("malformed base64 must not decode"),
        Err(back) => assert_eq!(back, OwnedProperty::String("a?(".to_string())),
    }
}

#[test]
fn binary_passes_through() {
    let p = OwnedProperty::Binary(vec![0, 159, 146, 150]);
    assert_eq!(p.get_binary(false), Some(vec![0, 159, 146, 150]));
    assert_eq!(p.get_string(), None);
}

#[test]
fn borrowed_conversions_match_owned() {
    let owned = OwnedProperty::VecBool(vec![false, true]);
    let b: Property<'_> = owned.borrow();
    assert_eq!(b.get_vec_i32(), Some(vec![0, 1]));
    let s = OwnedProperty::String("aGk=".to_string());
    assert_eq!(s.borrow().get_binary(true), Some(b"hi".to_vec()));
    assert_eq!(s.borrow().get_string(), Some("aGk="));
}
