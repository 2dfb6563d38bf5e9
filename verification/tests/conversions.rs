use dermis::value::owned::array::OwnedArray;
use dermis::value::owned::object::OwnedObject;
use dermis::value::owned::symbol::OwnedSymbol;
use dermis::value::owned::value::OwnedValue;
use dermis::value::Array;
use dermis::value::Number;
use dermis::value::Object;
use dermis::value::Symbol;
use dermis::value::Value;
use dermis::Interpreter;

fn num(x: f64) -> Value {
    Value::from(Number::from_bits(x.to_bits()))
}

fn onum(x: f64) -> OwnedValue {
    OwnedValue::from(Number::from_bits(x.to_bits()))
}

fn bits_of(v: &OwnedValue) -> u64 {
    match v {
        OwnedValue::Number(n) => n.to_bits(),
        _ => panic!("not a number"),
    }
}

#[test]
fn owned_array_from_array() {
    let array: Array = Array::from_vec(vec![num(12.0)]);
    let owned: OwnedArray = OwnedArray::from_array(&array);
    assert_eq!(*owned.get_unwrapped(0), onum(12.0));
}

#[test]
fn owned_value_keeps_numbers_in_full() {
    let owned = OwnedValue::from_value(&num(12.75));

    assert_eq!(bits_of(&owned), 12.75f64.to_bits());
    let mut i = Interpreter::new();
    match Value::from_owned(&owned, &mut i).unwrap() {
        Value::Number(n) => assert_eq!(n.to_bits(), 12.75f64.to_bits()),
        _ => panic!("not a number"),
    }
}

#[test]
fn owned_symbol_keeps_the_whole_chain() {
    let mut i = Interpreter::new();
    let a = Symbol::new_global("a".to_string(), &mut i).unwrap();
    let b = Symbol::new_local("b".to_string(), a, &mut i).unwrap();
    let c = Symbol::new_local("c".to_string(), b, &mut i).unwrap();

    let owned = c.owned();

    assert_eq!(owned.to_text(), "'a::b::c");
    let expected = OwnedSymbol::new_local(
        "c".to_string(),
        OwnedSymbol::new_local("b".to_string(), OwnedSymbol::new_global("a".to_string()).unwrap())
            .unwrap(),
    )
    .unwrap();
    assert_eq!(owned, expected);
    match OwnedValue::from_value(&Value::from(c)) {
        OwnedValue::Symbol(s) => assert_eq!(s, expected),
        _ => panic!("not a symbol"),
    }
}

#[test]
fn round_trip_without_symbols() {
    let mut obj = Object::empty();
    obj.set_mut("n".into(), num(1.5));
    obj.set_mut("list".into(), Array::from_vec(vec![num(1.0), Value::from("x")]).into());
    obj.set_mut(num(3.0), Value::from(Object::empty()));
    let v = Value::from(Array::from_vec(vec![obj.into(), Value::from("end"), num(-2.0)]));
    let mut rt = Interpreter::new();

    let back = Value::from_owned(&OwnedValue::from_value(&v.clone()), &mut rt).unwrap();

    assert_eq!(back, v);
}

#[test]
fn round_trip_with_symbols() {
    let mut rt = Interpreter::new();
    let ns = Symbol::new_global("ns".to_string(), &mut rt).unwrap();
    let key = Symbol::new_local("key".to_string(), ns.clone(), &mut rt).unwrap();
    let mut obj = Object::empty();
    obj.set_mut(key.clone().into(), Value::from(ns.clone()));
    let v = Value::from(Array::from_vec(vec![obj.into(), key.clone().into()]));

    let owned = OwnedValue::from_value(&v);
    let back = Value::from_owned(&owned, &mut rt).unwrap();

    assert_eq!(back, v);
    let mut other = Interpreter::new();
    let elsewhere = Value::from_owned(&owned, &mut other).unwrap();
    assert!(elsewhere != v);
    assert_eq!(OwnedValue::from_value(&elsewhere), owned);
    match &elsewhere {
        Value::Array(a) => match &*a.get(1) {
            Value::Symbol(s) => {
                assert_eq!(s.to_text(), "'ns::key");
                assert!(*s == Symbol::new_local(
                    "key".to_string(),
                    Symbol::new_global("ns".to_string(), &mut other).unwrap(),
                    &mut other
                )
                .unwrap());
            }
            _ => panic!("not a symbol"),
        },
        _ => panic!("not an array"),
    }
}

#[test]
fn owned_object_from_object() {
    let mut obj = Object::empty();
    for i in 0..40 {
        obj.set_mut(num(i as f64), Value::from("v"));
    }

    let owned = OwnedObject::from_object(&obj);

    assert_eq!(owned.len(), 40);
    for i in 0..40 {
        assert_eq!(*owned.get(&onum(i as f64)), OwnedValue::from("v"));
    }
    let mut rt = Interpreter::new();
    let back = Object::from_owned(&owned, &mut rt).unwrap();
    assert_eq!(back, obj);
    assert_eq!(back.len(), 40);
}

#[test]
fn owned_array_round_trip() {
    let owned = OwnedArray::from_vec(vec![onum(1.0), OwnedValue::from("two"), onum(3.0)]);
    let mut rt = Interpreter::new();

    let bound = Array::from_owned(&owned, &mut rt).unwrap();

    assert_eq!(bound.len(), 3);
    assert_eq!(*bound.get(1), Value::from("two"));
    assert_eq!(OwnedArray::from_array(&bound), owned);
}

#[test]
fn symbols_of_two_interpreters_fall_together_when_owned() {
    let mut rt1 = Interpreter::new();
    let mut rt2 = Interpreter::new();
    let mut obj = Object::empty();
    obj.set_mut(Symbol::new_global("x".to_string(), &mut rt1).unwrap().into(), num(1.0));
    obj.set_mut(Symbol::new_global("x".to_string(), &mut rt2).unwrap().into(), num(1.0));
    assert_eq!(obj.len(), 2);

    let owned = OwnedObject::from_object(&obj);

    assert_eq!(owned.len(), 1);
}

fn global(name: &str, interpreter: &mut Interpreter) -> Value {
    Value::from(Symbol::new_global(name.to_string(), interpreter).unwrap())
}

fn owned_global(name: &str) -> OwnedValue {
    OwnedValue::from(OwnedSymbol::new_global(name.to_string()).unwrap())
}

#[test]
fn owned_object_keeps_every_entry_under_symbol_keys() {
    let mut i = Interpreter::new();
    let mut object = Object::new();
    object.set_mut(global("a", &mut i), num(1.0));
    object.set_mut(global("b", &mut i), num(2.0));
    object.set_mut(global("c", &mut i), Value::from("three"));
    object.set_mut(num(4.0), global("d", &mut i));

    let owned = OwnedObject::from_object(&object);

    assert_eq!(owned.len(), 4);
    assert_eq!(*owned.get(&owned_global("a")), onum(1.0));
    assert_eq!(*owned.get(&owned_global("b")), onum(2.0));
    assert_eq!(*owned.get(&owned_global("c")), OwnedValue::from("three"));
    assert_eq!(*owned.get(&onum(4.0)), owned_global("d"));
    assert!(owned.get_opt(&owned_global("d")).is_none());
    assert_eq!(object.len(), 4);
}

#[test]
fn owned_value_keeps_every_entry_of_nested_objects() {
    let mut i = Interpreter::new();
    let mut inner = Object::new();
    inner.set_mut(global("x", &mut i), num(1.0));
    inner.set_mut(global("y", &mut i), num(2.0));
    let mut outer = Object::new();
    outer.set_mut(global("in", &mut i), Value::from(inner));
    let value = Value::from(Array::from_vec(vec![Value::from(outer), num(3.0)]));

    let owned = OwnedValue::from_value(&value);

    match &owned {
        OwnedValue::Array(items) => {
            assert_eq!(items.len(), 2);
            match &*items.get_unwrapped(0) {
                OwnedValue::Object(outer) => {
                    assert_eq!(outer.len(), 1);
                    match &*outer.get(&owned_global("in")) {
                        OwnedValue::Object(inner) => {
                            assert_eq!(inner.len(), 2);
                            assert_eq!(*inner.get(&owned_global("x")), onum(1.0));
                            assert_eq!(*inner.get(&owned_global("y")), onum(2.0));
                        }
                        _ => panic!("not an object"),
                    }
                }
                _ => panic!("not an object"),
            }
            assert_eq!(*items.get_unwrapped(1), onum(3.0));
        }
        _ => panic!("not an array"),
    }
}

#[test]
fn object_keeps_every_entry_under_symbol_keys() {
    let mut owned = OwnedObject::new();
    owned.set_mut(owned_global("a"), onum(1.0));
    owned.set_mut(owned_global("b"), onum(2.0));
    owned.set_mut(owned_global("c"), owned_global("a"));
    let mut i = Interpreter::new();

    let object = Object::from_owned(&owned, &mut i).unwrap();

    assert_eq!(object.len(), 3);
    assert_eq!(*object.get(&global("a", &mut i)), num(1.0));
    assert_eq!(*object.get(&global("b", &mut i)), num(2.0));
    assert_eq!(*object.get(&global("c", &mut i)), global("a", &mut i));
    let mut j = Interpreter::new();
    assert!(object.get_opt(&global("a", &mut j)).is_none());
}

#[test]
fn symbols_of_two_interpreters_under_one_owned_key() {
    let mut i = Interpreter::new();
    let mut j = Interpreter::new();
    let mut object = Object::new();
    object.set_mut(global("a", &mut i), num(1.0));
    object.set_mut(global("a", &mut j), num(2.0));
    assert_eq!(object.len(), 2);

    let owned = OwnedObject::from_object(&object);

    assert_eq!(owned.len(), 1);
    let kept = bits_of(&owned.get(&owned_global("a")));
    assert!(kept == 1.0f64.to_bits() || kept == 2.0f64.to_bits());
}

#[test]
fn value_from_owned_links_its_symbol_to_the_interpreter() {
    let mut i = Interpreter::new();
    let mut j = Interpreter::new();

    let here = Value::from_owned(&owned_global("a"), &mut i).unwrap();

    assert_eq!(here, global("a", &mut i));
    assert!(here != global("a", &mut j));
    assert_eq!(OwnedValue::from_value(&here), owned_global("a"));
}

#[test]
fn owned_symbol_values_are_equal_by_their_chains() {
    let a = owned_global("a");
    let b = owned_global("b");
    let a_x = OwnedValue::from(
        OwnedSymbol::new_local("x".to_string(), OwnedSymbol::new_global("a".to_string()).unwrap()).unwrap(),
    );
    let b_x = OwnedValue::from(
        OwnedSymbol::new_local("x".to_string(), OwnedSymbol::new_global("b".to_string()).unwrap()).unwrap(),
    );

    assert!(a == owned_global("a"));
    assert!(a == a.clone());
    assert!(a != b);
    assert!(a_x == a_x.clone());
    assert!(a_x != b_x);
    assert!(a_x != a);
    assert!(a != OwnedValue::from("a"));
}

#[test]
fn values_of_two_interpreters_do_not_stand_equal() {
    let mut i = Interpreter::new();
    let mut j = Interpreter::new();
    let here = global("a", &mut i);
    let there = global("a", &mut j);

    assert!(here.compare(&there) != std::cmp::Ordering::Equal);
    assert_eq!(here.compare(&there), there.compare(&here).reverse());
    assert_eq!(here.compare(&global("a", &mut i)), std::cmp::Ordering::Equal);
    assert_eq!(here.compare_shape(&there), std::cmp::Ordering::Equal);
    assert_eq!(here.compare(&global("b", &mut j)), std::cmp::Ordering::Less);
    assert_eq!(global("b", &mut j).compare(&here), std::cmp::Ordering::Greater);
    assert_eq!(here.compare(&num(1.0)), std::cmp::Ordering::Greater);
    assert_eq!(here.compare(&Value::from(Array::new())), std::cmp::Ordering::Less);

    let mine = Array::from_vec(vec![num(1.0), here.clone()]);
    let theirs = Array::from_vec(vec![num(1.5), there.clone()]);
    assert!(mine.compare(&theirs) != std::cmp::Ordering::Equal);
    assert_eq!(mine.compare(&mine.clone()), std::cmp::Ordering::Equal);
    assert_eq!(mine.compare_shape(&theirs), std::cmp::Ordering::Equal);

    let mut first = Object::new();
    first.set_mut(num(1.0), here);
    let mut second = Object::new();
    second.set_mut(num(1.0), there);
    assert!(first.compare(&second) != std::cmp::Ordering::Equal);
    assert_eq!(first.compare(&first.clone()), std::cmp::Ordering::Equal);
    assert_eq!(first.compare_shape(&second), std::cmp::Ordering::Equal);
}

#[test]
fn value_from_owned_links_nested_symbols_to_the_interpreter() {
    let mut inner = OwnedObject::new();
    inner.set_mut(owned_global("k"), owned_global("v"));
    let owned = OwnedValue::from(OwnedArray::from_vec(vec![
        owned_global("a"),
        OwnedValue::from(inner),
    ]));
    let mut i = Interpreter::new();
    let mut j = Interpreter::new();

    let bound = Value::from_owned(&owned, &mut i).unwrap();

    match &bound {
        Value::Array(items) => {
            assert_eq!(*items.get_unwrapped(0), global("a", &mut i));
            assert!(*items.get_unwrapped(0) != global("a", &mut j));
            match &*items.get_unwrapped(1) {
                Value::Object(inner) => {
                    assert_eq!(inner.len(), 1);
                    assert_eq!(*inner.get(&global("k", &mut i)), global("v", &mut i));
                    assert!(inner.get_opt(&global("k", &mut j)).is_none());
                    assert!(*inner.get(&global("k", &mut i)) != global("v", &mut j));
                }
                _ => panic!("not an object"),
            }
        }
        _ => panic!("not an array"),
    }
}
