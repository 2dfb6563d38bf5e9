use dermis::value::owned::object::OwnedObject;
use dermis::value::owned::value::OwnedValue;
use dermis::value::Number;
use dermis::value::Object;
use dermis::value::Value;
use std::sync::Arc;

fn num(x: f64) -> Value {
    Value::from(Number::from_bits(x.to_bits()))
}

fn onum(x: f64) -> OwnedValue {
    OwnedValue::from(Number::from_bits(x.to_bits()))
}

fn float_of(v: &Value) -> f64 {
    match v {
        Value::Number(n) => f64::from_bits(n.to_bits()),
        _ => panic!("not a number"),
    }
}

fn sum(a: Arc<Value>, b: Arc<Value>) -> Arc<Value> {
    Arc::new(num(float_of(&a) + float_of(&b)))
}

fn object_of(pairs: &[(&str, f64)]) -> Object {
    let mut obj = Object::empty();
    for (k, v) in pairs {
        obj.set_mut((*k).into(), num(*v));
    }
    obj
}

fn floats_of(obj: &Object) -> Vec<(String, f64)> {
    let mut out: Vec<(String, f64)> = obj
        .to_pairs()
        .iter()
        .map(|(k, v)| match k {
            Value::String(s) => (s.clone(), float_of(v)),
            _ => panic!("not a string"),
        })
        .collect();
    out.sort_by(|a, b| a.0.cmp(&b.0));
    out
}

fn expect(obj: &Object, pairs: &[(&str, f64)]) {
    let want: Vec<(String, f64)> = pairs.iter().map(|(k, v)| (k.to_string(), *v)).collect();
    assert_eq!(floats_of(obj), want);
}

#[test]
fn object_insert_with() {
    let obj = object_of(&[("a", 1.0)]);

    expect(&obj.clone().insert_with("a".into(), num(10.0), sum), &[("a", 11.0)]);
    expect(&obj.clone().insert_with("b".into(), num(10.0), sum), &[("a", 1.0), ("b", 10.0)]);
    let first = |old: Arc<Value>, _new: Arc<Value>| old;
    expect(&obj.clone().insert_with("a".into(), num(10.0), first), &[("a", 1.0)]);
    expect(&obj, &[("a", 1.0)]);
}

#[test]
fn object_insert_with_key() {
    let obj = object_of(&[("a", 1.0)]);
    let f = |key: Arc<Value>, old: Arc<Value>, new: Arc<Value>| {
        assert_eq!(*key, Value::from("a"));
        sum(old, new)
    };

    expect(&obj.clone().insert_with_key("a".into(), num(10.0), f), &[("a", 11.0)]);
    let never = |_: Arc<Value>, _: Arc<Value>, _: Arc<Value>| -> Arc<Value> { panic!("called") };
    expect(&obj.clone().insert_with_key("b".into(), num(10.0), never), &[("a", 1.0), ("b", 10.0)]);
}

#[test]
fn object_insert_lookup_with_key() {
    let obj = object_of(&[("a", 1.0)]);
    let f = |_: Arc<Value>, old: Arc<Value>, new: Arc<Value>| sum(old, new);

    let (old, after) = obj.clone().insert_lookup_with_key("a".into(), num(10.0), f);
    assert_eq!(*old.unwrap(), num(1.0));
    expect(&after, &[("a", 11.0)]);
    let (old, after) = obj.clone().insert_lookup_with_key("b".into(), num(10.0), f);
    assert!(old.is_none());
    expect(&after, &[("a", 1.0), ("b", 10.0)]);
}

#[test]
fn object_update() {
    let obj = object_of(&[("a", 1.0), ("b", 2.0)]);
    let double = |old: Arc<Value>| Some(Arc::new(num(float_of(&old) * 2.0)));
    let drop_it = |_: Arc<Value>| -> Option<Arc<Value>> { None };

    expect(&obj.update(&"a".into(), double), &[("a", 2.0), ("b", 2.0)]);
    expect(&obj.update(&"a".into(), drop_it), &[("b", 2.0)]);
    expect(&obj.update(&"zz".into(), double), &[("a", 1.0), ("b", 2.0)]);
    expect(&obj, &[("a", 1.0), ("b", 2.0)]);
}

#[test]
fn object_update_with_key() {
    let obj = object_of(&[("a", 1.0), ("b", 2.0)]);
    let f = |key: Arc<Value>, old: Arc<Value>| {
        if *key == Value::from("a") {
            Some(Arc::new(num(float_of(&old) + 100.0)))
        } else {
            None
        }
    };

    expect(&obj.update_with_key(&"a".into(), f), &[("a", 101.0), ("b", 2.0)]);
    expect(&obj.update_with_key(&"b".into(), f), &[("a", 1.0)]);
    expect(&obj.update_with_key(&"c".into(), f), &[("a", 1.0), ("b", 2.0)]);
}

#[test]
fn object_update_lookup_with_key() {
    let obj = object_of(&[("a", 1.0), ("b", 2.0)]);
    let f = |key: Arc<Value>, old: Arc<Value>| {
        if *key == Value::from("a") {
            Some(Arc::new(num(float_of(&old) + 100.0)))
        } else {
            None
        }
    };

    let (shown, after) = obj.update_lookup_with_key(&"a".into(), f);
    assert_eq!(*shown.unwrap(), num(101.0));
    expect(&after, &[("a", 101.0), ("b", 2.0)]);
    let (shown, after) = obj.update_lookup_with_key(&"b".into(), f);
    assert_eq!(*shown.unwrap(), num(2.0));
    expect(&after, &[("a", 1.0)]);
    let (shown, after) = obj.update_lookup_with_key(&"c".into(), f);
    assert!(shown.is_none());
    expect(&after, &[("a", 1.0), ("b", 2.0)]);
}

#[test]
fn object_alter() {
    let obj = object_of(&[("a", 1.0)]);
    let bump = |found: Option<Arc<Value>>| match found {
        Some(old) => Some(Arc::new(num(float_of(&old) + 1.0))),
        None => Some(Arc::new(num(0.0))),
    };
    let clear = |_: Option<Arc<Value>>| -> Option<Arc<Value>> { None };

    expect(&obj.alter(bump, "a".into()), &[("a", 2.0)]);
    expect(&obj.alter(bump, "b".into()), &[("a", 1.0), ("b", 0.0)]);
    expect(&obj.alter(clear, "a".into()), &[]);
    expect(&obj.alter(clear, "b".into()), &[("a", 1.0)]);
}

#[test]
fn object_union_with() {
    let a = object_of(&[("a", 1.0), ("b", 2.0)]);
    let b = object_of(&[("b", 20.0), ("c", 30.0)]);

    expect(&a.union_with(&b, sum), &[("a", 1.0), ("b", 22.0), ("c", 30.0)]);
    let keyed = |key: Arc<Value>, old: Arc<Value>, new: Arc<Value>| {
        assert_eq!(*key, Value::from("b"));
        Arc::new(num(float_of(&old) - float_of(&new)))
    };
    expect(&a.union_with_key(&b, keyed), &[("a", 1.0), ("b", -18.0), ("c", 30.0)]);
    expect(&a.union_with(&Object::empty(), sum), &[("a", 1.0), ("b", 2.0)]);
}

#[test]
fn object_difference_with() {
    let a = object_of(&[("a", 1.0), ("b", 2.0), ("c", 3.0)]);
    let b = object_of(&[("b", 20.0), ("c", 3.0), ("d", 4.0)]);
    let keep_unequal = |old: Arc<Value>, new: Arc<Value>| if old == new { None } else { Some(sum(old, new)) };

    expect(&a.difference_with(&b, keep_unequal), &[("a", 1.0), ("b", 22.0)]);
    let keyed = |key: Arc<Value>, old: Arc<Value>, _new: Arc<Value>| {
        if *key == Value::from("b") {
            Some(old)
        } else {
            None
        }
    };
    expect(&a.difference_with_key(&b, keyed), &[("a", 1.0), ("b", 2.0)]);
}

#[test]
fn object_intersection_with() {
    let a = object_of(&[("a", 1.0), ("b", 2.0), ("c", 3.0)]);
    let b = object_of(&[("b", 20.0), ("c", 30.0), ("d", 4.0)]);

    expect(&a.intersection_with(&b, sum), &[("b", 22.0), ("c", 33.0)]);
    let keyed = |_key: Arc<Value>, _old: Arc<Value>, new: Arc<Value>| new;
    expect(&a.intersection_with_key(&b, keyed), &[("b", 20.0), ("c", 30.0)]);
    expect(&a.intersection_with(&Object::empty(), sum), &[]);
}

#[test]
fn object_submap_by() {
    let a = object_of(&[("a", 1.0)]);
    let b = object_of(&[("a", 2.0), ("b", 2.0)]);
    let less = |here: Arc<Value>, there: Arc<Value>| float_of(&here) < float_of(&there);
    let never = |_: Arc<Value>, _: Arc<Value>| false;

    assert!(a.is_submap_by(&b, less));
    assert!(a.is_proper_submap_by(&b, less));
    assert!(!a.is_submap_by(&b, never));
    assert!(!b.is_submap_by(&a, less));
    assert!(!a.is_proper_submap_by(&a, |_, _| true));
    assert!(a.is_submap_by(&a, |_, _| true));
    assert!(Object::empty().is_submap_by(&a, never));
}

#[test]
fn owned_object_functions() {
    let mut a = OwnedObject::empty();
    a.set_mut("a".into(), onum(1.0));
    let pick_new = |_old: Arc<OwnedValue>, new: Arc<OwnedValue>| new;

    let b = a.clone().insert_with("a".into(), onum(5.0), pick_new);
    assert_eq!(*b.get(&"a".into()), onum(5.0));
    let c = a.alter(|_| Some(Arc::new(onum(9.0))), "z".into());
    assert_eq!(c.len(), 2);
    assert_eq!(*c.get(&"z".into()), onum(9.0));
    let u = a.union_with(&c, pick_new);
    assert_eq!(u.len(), 2);
    assert!(a.is_submap_by(&c, |x, y| x == y));
    assert!(a.is_proper_submap(&c));
    assert_eq!(a.union(&c), c);
    assert_eq!(c.difference(&a).len(), 1);
    assert_eq!(c.intersection(&a), a);
}

fn owned_float_of(v: &OwnedValue) -> f64 {
    match v {
        OwnedValue::Number(n) => f64::from_bits(n.to_bits()),
        _ => panic!("not a number"),
    }
}

fn owned_sum(a: Arc<OwnedValue>, b: Arc<OwnedValue>) -> Arc<OwnedValue> {
    Arc::new(onum(owned_float_of(&a) + owned_float_of(&b)))
}

fn owned_object_of(pairs: &[(&str, f64)]) -> OwnedObject {
    let mut obj = OwnedObject::empty();
    for (k, v) in pairs {
        obj.set_mut((*k).into(), onum(*v));
    }
    obj
}

fn owned_expect(obj: &OwnedObject, pairs: &[(&str, f64)]) {
    let mut got: Vec<(String, f64)> = obj
        .to_pairs()
        .iter()
        .map(|(k, v)| match k {
            OwnedValue::String(s) => (s.clone(), owned_float_of(v)),
            _ => panic!("not a string"),
        })
        .collect();
    got.sort_by(|a, b| a.0.cmp(&b.0));
    let want: Vec<(String, f64)> = pairs.iter().map(|(k, v)| (k.to_string(), *v)).collect();
    assert_eq!(got, want);
}

#[test]
fn owned_object_insert_with_a_function() {
    let obj = owned_object_of(&[("a", 1.0)]);
    let keyed = |key: Arc<OwnedValue>, old: Arc<OwnedValue>, new: Arc<OwnedValue>| {
        assert_eq!(*key, OwnedValue::from("a"));
        owned_sum(old, new)
    };

    owned_expect(&obj.clone().insert_with("a".into(), onum(10.0), owned_sum), &[("a", 11.0)]);
    owned_expect(&obj.clone().insert_with("b".into(), onum(10.0), owned_sum), &[("a", 1.0), ("b", 10.0)]);
    owned_expect(&obj.clone().insert_with_key("a".into(), onum(10.0), keyed), &[("a", 11.0)]);
    owned_expect(&obj.clone().insert_with_key("b".into(), onum(10.0), keyed), &[("a", 1.0), ("b", 10.0)]);
    let (old, after) = obj.clone().insert_lookup_with_key("a".into(), onum(10.0), keyed);
    assert_eq!(*old.unwrap(), onum(1.0));
    owned_expect(&after, &[("a", 11.0)]);
    let (old, after) = obj.clone().insert_lookup_with_key("b".into(), onum(10.0), keyed);
    assert!(old.is_none());
    owned_expect(&after, &[("a", 1.0), ("b", 10.0)]);
    owned_expect(&obj, &[("a", 1.0)]);
}

#[test]
fn owned_object_update_with_a_function() {
    let obj = owned_object_of(&[("a", 1.0), ("b", 2.0)]);
    let double = |old: Arc<OwnedValue>| Some(Arc::new(onum(owned_float_of(&old) * 2.0)));
    let drop_it = |_: Arc<OwnedValue>| -> Option<Arc<OwnedValue>> { None };
    let keyed = |key: Arc<OwnedValue>, old: Arc<OwnedValue>| {
        if *key == OwnedValue::from("a") {
            Some(Arc::new(onum(owned_float_of(&old) + 100.0)))
        } else {
            None
        }
    };

    owned_expect(&obj.update(&"a".into(), double), &[("a", 2.0), ("b", 2.0)]);
    owned_expect(&obj.update(&"a".into(), drop_it), &[("b", 2.0)]);
    owned_expect(&obj.update(&"zz".into(), double), &[("a", 1.0), ("b", 2.0)]);
    owned_expect(&obj.update_with_key(&"a".into(), keyed), &[("a", 101.0), ("b", 2.0)]);
    owned_expect(&obj.update_with_key(&"b".into(), keyed), &[("a", 1.0)]);
    owned_expect(&obj.update_with_key(&"c".into(), keyed), &[("a", 1.0), ("b", 2.0)]);
    let (shown, after) = obj.update_lookup_with_key(&"a".into(), keyed);
    assert_eq!(*shown.unwrap(), onum(101.0));
    owned_expect(&after, &[("a", 101.0), ("b", 2.0)]);
    let (shown, after) = obj.update_lookup_with_key(&"b".into(), keyed);
    assert_eq!(*shown.unwrap(), onum(2.0));
    owned_expect(&after, &[("a", 1.0)]);
    let (shown, after) = obj.update_lookup_with_key(&"c".into(), keyed);
    assert!(shown.is_none());
    owned_expect(&after, &[("a", 1.0), ("b", 2.0)]);
    let clear = |_: Option<Arc<OwnedValue>>| -> Option<Arc<OwnedValue>> { None };
    owned_expect(&obj.alter(clear, "a".into()), &[("b", 2.0)]);
    owned_expect(&obj.alter(clear, "c".into()), &[("a", 1.0), ("b", 2.0)]);
    owned_expect(&obj, &[("a", 1.0), ("b", 2.0)]);
}

#[test]
fn owned_object_algebra_with_a_function() {
    let a = owned_object_of(&[("a", 1.0), ("b", 2.0), ("c", 3.0)]);
    let b = owned_object_of(&[("b", 20.0), ("c", 3.0), ("d", 4.0)]);
    let minus = |key: Arc<OwnedValue>, old: Arc<OwnedValue>, new: Arc<OwnedValue>| {
        assert!(*key == OwnedValue::from("b") || *key == OwnedValue::from("c"));
        Arc::new(onum(owned_float_of(&old) - owned_float_of(&new)))
    };
    let keep_unequal = |old: Arc<OwnedValue>, new: Arc<OwnedValue>| {
        if old == new {
            None
        } else {
            Some(owned_sum(old, new))
        }
    };
    let keep_b = |key: Arc<OwnedValue>, old: Arc<OwnedValue>, _new: Arc<OwnedValue>| {
        if *key == OwnedValue::from("b") {
            Some(old)
        } else {
            None
        }
    };

    owned_expect(&a.union_with(&b, owned_sum), &[("a", 1.0), ("b", 22.0), ("c", 6.0), ("d", 4.0)]);
    owned_expect(&a.union_with_key(&b, minus), &[("a", 1.0), ("b", -18.0), ("c", 0.0), ("d", 4.0)]);
    owned_expect(&a.intersection_with(&b, owned_sum), &[("b", 22.0), ("c", 6.0)]);
    owned_expect(&a.intersection_with_key(&b, minus), &[("b", -18.0), ("c", 0.0)]);
    owned_expect(&a.difference_with(&b, keep_unequal), &[("a", 1.0), ("b", 22.0)]);
    owned_expect(&a.difference_with_key(&b, keep_b), &[("a", 1.0), ("b", 2.0)]);
    owned_expect(&a, &[("a", 1.0), ("b", 2.0), ("c", 3.0)]);
}

#[test]
fn owned_object_submap_by() {
    let a = owned_object_of(&[("a", 1.0)]);
    let b = owned_object_of(&[("a", 2.0), ("b", 2.0)]);
    let less =
        |here: Arc<OwnedValue>, there: Arc<OwnedValue>| owned_float_of(&here) < owned_float_of(&there);
    let never = |_: Arc<OwnedValue>, _: Arc<OwnedValue>| false;

    assert!(a.is_submap_by(&b, less));
    assert!(a.is_proper_submap_by(&b, less));
    assert!(!a.is_submap_by(&b, never));
    assert!(!b.is_submap_by(&a, less));
    assert!(!a.is_proper_submap_by(&a, |_, _| true));
    assert!(a.is_submap_by(&a, |_, _| true));
    assert!(OwnedObject::empty().is_submap_by(&a, never));
}
