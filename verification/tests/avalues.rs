use dermis::value::AValue;
use dermis::value::Number;
use dermis::value::OwnedValue;
use dermis::value::Symbol;
use dermis::value::Value;
use dermis::Interpreter;
use std::cmp::Ordering;

fn num() -> Number {
    Number::from_bits(12.0f64.to_bits())
}

#[test]
fn avalue_owned_a_equal() {
    let num: Number = num();
    let val: Value = num.clone().into();
    let owned: OwnedValue = num.clone().into();

    let a: AValue = val.into();
    let b: AValue = owned.into();

    assert_eq!(a, b);
}

#[test]
fn avalue_variant_cmp_ne() {
    let num: Number = num();
    let val: Value = num.clone().into();
    let owned: OwnedValue = num.clone().into();

    let a: AValue = val.into();
    let b: AValue = owned.into();
    let a_c = a.cmp_variants();
    let b_c = b.cmp_variants();

    assert_ne!(a_c, b_c);
}

#[test]
fn avalue_variant_cmp_a_eq() {
    let num: Number = num();
    let val1: Value = num.clone().into();
    let val2: Value = num.clone().into();

    let a: AValue = val1.into();
    let b: AValue = val2.into();
    let a_c = a.cmp_variants();
    let b_c = b.cmp_variants();

    assert_eq!(a_c, b_c);
}

#[test]
fn avalue_cmp_a_eq() {
    let num: Number = num();
    let val1: Value = num.clone().into();
    let val2: Value = num.clone().into();

    let a: AValue = val1.into();
    let b: AValue = val2.into();

    assert_eq!(a, b);
}

#[test]
fn avalue_into_owned_and_back() {
    let mut i = Interpreter::new();
    let sym = Symbol::new_global("s".to_string(), &mut i).unwrap();
    let a: AValue = Value::from(sym.clone()).into();

    let owned = a.clone().into_owned();

    assert_eq!(owned, OwnedValue::from_value(&Value::from(sym.clone())));
    let b: AValue = owned.clone().into();
    assert_eq!(a, b);
    assert_eq!(a.compare(&b), Ordering::Equal);
    assert_eq!(b.clone().into_unowned(&mut i).unwrap(), Value::from(sym.clone()));
    assert_eq!(a.clone().into_unowned(&mut i).unwrap(), Value::from(sym));
    assert_eq!(b.into_owned(), owned);
    let other: AValue = Value::from("t").into();
    assert!(a != other);
    assert_eq!(other.compare(&a), Ordering::Less);
}

#[test]
fn avalues_compare_with_operators() {
    let a = AValue::from(OwnedValue::from("a"));
    let b = AValue::from(Value::from("b"));

    assert!(a < b);
    assert!(b > a);
    assert_eq!(a.partial_cmp(&b), Some(Ordering::Less));
    assert_eq!(a.partial_cmp(&AValue::from(Value::from("a"))), Some(Ordering::Equal));
    assert_eq!(a.cmp_variants().partial_cmp(&b.cmp_variants()), Some(Ordering::Less));
    assert_eq!(b.cmp_variants().partial_cmp(&a.cmp_variants()), Some(Ordering::Greater));
    assert!(AValue::from(OwnedValue::from("z")).cmp_variants() < AValue::from(Value::from("a")).cmp_variants());
    assert_eq!(b.cmp_variants().partial_cmp(&b.cmp_variants()), Some(Ordering::Equal));
    assert_eq!(a.cmp_variants().partial_cmp(&a.cmp_variants()), Some(Ordering::Equal));
}
