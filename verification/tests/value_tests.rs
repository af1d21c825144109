use boundnum::value::{Numeral, Outer, ToValue, TypeBound, Width};

#[test]
fn width_extremes() {
    assert_eq!(Width::I8.min_of(), -128);
    assert_eq!(Width::I8.max_of(), 127);
    assert_eq!(Width::I16.min_of(), -32768);
    assert_eq!(Width::I16.max_of(), 32767);
    assert_eq!(Width::I32.min_of(), -2147483648);
    assert_eq!(Width::I32.max_of(), 2147483647);
    assert_eq!(Width::I64.min_of(), i64::MIN as i128);
    assert_eq!(Width::I64.max_of(), i64::MAX as i128);
    assert_eq!(Width::Isize.min_of(), i64::MIN as i128);
    assert_eq!(Width::U8.min_of(), 0);
    assert_eq!(Width::U8.max_of(), 255);
    assert_eq!(Width::U16.max_of(), 65535);
    assert_eq!(Width::U32.max_of(), 4294967295);
    assert_eq!(Width::U64.max_of(), u64::MAX as i128);
    assert_eq!(Width::Usize.max_of(), u64::MAX as i128);
}

#[test]
fn width_shape() {
    assert!(Width::I8.signed_of());
    assert!(!Width::U64.signed_of());
    assert_eq!(Width::I8.bits_of(), 8);
    assert_eq!(Width::U16.bits_of(), 16);
    assert_eq!(Width::I32.bits_of(), 32);
    assert_eq!(Width::Usize.bits_of(), 64);
    assert!(Width::I8.holds(-128));
    assert!(!Width::I8.holds(-129));
    assert!(Width::U8.holds(255));
    assert!(!Width::U8.holds(256));
}

#[test]
fn numeral_materialization() {
    let n = Numeral::new(42);
    assert_eq!(n.value(Width::U8), 42);
    assert_eq!(n.value(Width::I64), 42);
    let m = Numeral::new(-7);
    assert_eq!(m.value(Width::I8), -7);
}

#[test]
fn type_bound_numerals() {
    assert_eq!(Width::I8.min_numeral().value(Width::I8), -128);
    assert_eq!(Width::I8.max_numeral().value(Width::I8), 127);
    assert_eq!(Width::U16.min_numeral().value(Width::U16), 0);
    assert_eq!(Width::U16.max_numeral().value(Width::U16), 65535);
}

#[test]
fn outer_steps_away_from_zero() {
    assert_eq!(Numeral::new(3).outer().value(Width::I8), 4);
    assert_eq!(Numeral::new(-3).outer().value(Width::I8), -4);
    assert_eq!(Numeral::new(0).outer().value(Width::I8), 1);
    // The value one step outside a representation's extreme no longer
    // materializes there.
    let past_max = Width::I8.max_numeral().outer();
    assert_eq!(past_max.value(Width::I16), 128);
    assert!(!Width::I8.holds(past_max.value(Width::I16)));
    let past_min = Width::I8.min_numeral().outer();
    assert_eq!(past_min.value(Width::I16), -129);
    assert!(!Width::I8.holds(past_min.value(Width::I16)));
}
