use dermis::value::get_null;
use dermis::value::owned::object::OwnedObject;
use dermis::value::owned::value::OwnedValue;
use dermis::value::Number;
use dermis::value::Object;
use dermis::value::Symbol;
use dermis::value::Value;
use dermis::Interpreter;

fn num(x: f64) -> Value {
    Value::from(Number::from_bits(x.to_bits()))
}

fn onum(x: f64) -> OwnedValue {
    OwnedValue::from(Number::from_bits(x.to_bits()))
}

#[test]
fn object_get_set() {
    let mut obj = Object::default();
    obj.set_mut("bar".into(), num(12.0));
    let b = obj.get(&"bar".into());

    assert_eq!(&*b, &num(12.0));
}

#[test]
fn object_get_of_a_missing_key_is_null() {
    let mut obj = Object::default();
    obj.set_mut("bar".into(), num(12.0));

    assert_eq!(obj.get(&"foo".into()), get_null());
    assert!(obj.get_opt(&"foo".into()).is_none());
    assert!(!obj.contains_key(&"foo".into()));
    assert!(obj.contains_key(&"bar".into()));
    assert_eq!(*obj.get_or(&"foo".into(), num(3.0)), num(3.0));
    assert_eq!(*obj.get_or(&"bar".into(), num(3.0)), num(12.0));
}

#[test]
fn object_set_leaves_the_object_as_it_was() {
    let obj = Object::empty().set("number".into(), num(12.0));
    let other = obj.set("number_2".into(), num(2.0));

    assert_eq!(obj.len(), 1);
    assert_eq!(other.len(), 2);
    assert_eq!(obj.get(&"number_2".into()), get_null());
    assert_eq!(*other.get(&"number_2".into()), num(2.0));
    assert_eq!(*other.get(&"number".into()), num(12.0));
}

#[test]
fn object_set_replaces_what_was_under_the_key() {
    let mut obj = Object::singleton("a".into(), num(1.0));
    obj.insert_mut("a".into(), num(2.0));

    assert_eq!(obj.len(), 1);
    assert_eq!(*obj.get(&"a".into()), num(2.0));
    let again = obj.insert("a".into(), num(3.0));
    assert_eq!(again.len(), 1);
    assert_eq!(*again.get(&"a".into()), num(3.0));
    assert_eq!(*obj.get(&"a".into()), num(2.0));
}

#[test]
fn object_number_keys_go_by_the_integer_part() {
    let mut obj = Object::empty();
    obj.set_mut(num(12.0), "twelve".into());
    obj.set_mut(num(12.9), "twelve again".into());

    assert_eq!(obj.len(), 1);
    assert_eq!(*obj.get(&num(12.3)), Value::from("twelve again"));
    assert!(obj.get_opt(&num(13.0)).is_none());
}

#[test]
fn object_remove() {
    let mut obj = Object::empty();
    obj.set_mut("a".into(), num(1.0));
    obj.set_mut("b".into(), num(2.0));
    let less = obj.remove(&"a".into());

    assert_eq!(less.len(), 1);
    assert!(less.get_opt(&"a".into()).is_none());
    assert_eq!(*less.get(&"b".into()), num(2.0));
    assert_eq!(obj.len(), 2);
    obj.remove_mut(&"b".into());
    assert_eq!(obj.len(), 1);
    obj.remove_mut(&"zzz".into());
    assert_eq!(obj.len(), 1);
    assert!(!obj.is_empty());
    obj.remove_mut(&"a".into());
    assert!(obj.is_empty());
}

#[test]
fn object_entries_hold_every_entry_once() {
    let mut obj = Object::empty();
    for i in 0..50 {
        obj.set_mut(num(i as f64), num((i * 2) as f64));
    }
    let entries = obj.entries();

    assert_eq!(entries.len(), 50);
    for i in 0..50 {
        let n = entries.iter().filter(|(k, _)| **k == num(i as f64)).count();
        assert_eq!(n, 1);
        assert_eq!(*obj.get(&num(i as f64)), num((i * 2) as f64));
    }
}

#[test]
fn object_symbol_keys() {
    let mut i = Interpreter::new();
    let mut obj = Object::empty();
    obj.set_mut(Symbol::new_global("num".to_string(), &mut i).unwrap().into(), num(12.0));

    let found = obj.get(&Symbol::new_global("num".to_string(), &mut i).unwrap().into());
    assert_eq!(*found, num(12.0));
    let mut other = Interpreter::new();
    let missed = obj.get(&Symbol::new_global("num".to_string(), &mut other).unwrap().into());
    assert_eq!(missed, get_null());
}

#[test]
fn owned_object_get_set() {
    let mut obj = OwnedObject::empty();
    obj.set_mut("a".into(), onum(12.0));
    obj.set_mut("b".into(), onum(2.0));

    assert_eq!(*obj.get(&"a".into()), onum(12.0));
    assert_eq!(*obj.get(&"b".into()), onum(2.0));
    assert_eq!(obj.len(), 2);
}

struct Lcg(u64);

impl Lcg {
    fn next(&mut self, bound: usize) -> usize {
        self.0 = self.0.wrapping_mul(6364136223846793005).wrapping_add(1442695040888963407);
        ((self.0 >> 33) as usize) % bound
    }
}

fn check_object(obj: &Object, model: &std::collections::HashMap<i64, i64>, keys: usize) {
    assert_eq!(obj.len(), model.len());
    assert_eq!(obj.is_empty(), model.is_empty());
    assert_eq!(obj.entries().len(), model.len());
    for k in 0..keys as i64 {
        let key = num(k as f64);
        match model.get(&k) {
            Some(v) => {
                assert_eq!(*obj.get_opt(&key).unwrap(), num(*v as f64));
                assert_eq!(*obj.get(&key), num(*v as f64));
                assert!(obj.contains_key(&key));
            }
            None => {
                assert!(obj.get_opt(&key).is_none());
                assert_eq!(obj.get(&key), get_null());
                assert!(!obj.contains_key(&key));
            }
        }
    }
}

fn object_walk(seed: u64, steps: usize, keys: usize) {
    let mut rng = Lcg(seed);
    let mut obj = Object::empty();
    let mut model: std::collections::HashMap<i64, i64> = std::collections::HashMap::new();
    for step in 0..steps {
        let k = rng.next(keys) as i64;
        let v = step as i64;
        match rng.next(6) {
            0 => {
                obj = obj.set(num(k as f64), num(v as f64));
                model.insert(k, v);
            }
            1 => {
                obj.set_mut(num(k as f64 + 0.5), num(v as f64));
                model.insert(k, v);
            }
            2 => {
                obj = obj.insert(num(k as f64), num(v as f64));
                model.insert(k, v);
            }
            3 => {
                obj.insert_mut(num(k as f64), num(v as f64));
                model.insert(k, v);
            }
            4 => {
                obj = obj.remove(&num(k as f64));
                model.remove(&k);
            }
            _ => {
                obj.remove_mut(&num(k as f64 + 0.25));
                model.remove(&k);
            }
        }
        if step % 16 == 0 {
            check_object(&obj, &model, keys);
        }
    }
    check_object(&obj, &model, keys);
}

#[test]
fn object_random_walk_few_keys() {
    object_walk(1, 2000, 8);
}

#[test]
fn object_random_walk_many_keys() {
    object_walk(2, 4000, 300);
}

#[test]
fn object_singleton() {
    let one = Object::singleton("k".into(), num(1.0));

    assert_eq!(one.len(), 1);
    assert_eq!(*one.get(&"k".into()), num(1.0));
    assert_eq!(one.set("j".into(), num(2.0)).len(), 2);
}

#[test]
fn object_from_btree() {
    let tree: Vec<(Value, Value)> = vec![("a".into(), num(12.0)), ("b".into(), num(2.0))];

    let obj: Object = Object::from_pairs(&tree);

    assert_eq!(*obj.get(&"a".into()), num(12.0));
    assert_eq!(*obj.get(&"b".into()), num(2.0));
}

#[test]
fn btree_from_object() {
    let mut obj = Object::empty();

    obj.set_mut("a".into(), num(12.0));
    obj.set_mut("b".into(), num(2.0));

    let tree: Vec<(Value, Value)> = obj.to_pairs();

    assert_eq!(tree.len(), 2);
    assert_eq!(tree.iter().find(|(k, _)| *k == Value::from("a")).unwrap().1, num(12.0));
    assert_eq!(tree.iter().find(|(k, _)| *k == Value::from("b")).unwrap().1, num(2.0));
}

#[test]
fn owned_object_from_btree() {
    let tree: Vec<(OwnedValue, OwnedValue)> = vec![("a".into(), onum(12.0)), ("b".into(), onum(2.0))];

    let obj: OwnedObject = OwnedObject::from_pairs(&tree);

    assert_eq!(*obj.get(&"a".into()), onum(12.0));
    assert_eq!(*obj.get(&"b".into()), onum(2.0));
}

#[test]
fn owned_object_from_array() {
    let mut obj = OwnedObject::empty();

    obj.set_mut("a".into(), onum(12.0));
    obj.set_mut("b".into(), onum(2.0));

    let tree: Vec<(OwnedValue, OwnedValue)> = obj.to_pairs();

    assert_eq!(tree.len(), 2);
    assert_eq!(tree.iter().find(|(k, _)| *k == OwnedValue::from("a")).unwrap().1, onum(12.0));
    assert_eq!(tree.iter().find(|(k, _)| *k == OwnedValue::from("b")).unwrap().1, onum(2.0));
}

#[test]
fn object_taken_apart_and_built_again() {
    let mut pairs: Vec<(Value, Value)> = Vec::new();
    for i in 0..60 {
        pairs.push((num(i as f64), Value::from("x")));
        pairs.push((Value::from(format!("k{}", i).as_str()), num(i as f64 + 0.5)));
    }
    let obj = Object::from_pairs(&pairs);
    assert_eq!(obj.len(), 120);

    let again = Object::from_pairs(&obj.to_pairs());

    assert_eq!(again.len(), 120);
    for (k, v) in &pairs {
        assert_eq!(*again.get(k), *v);
        assert_eq!(*again.get(k), *obj.get(k));
    }
    assert_eq!(again, obj);
}

#[test]
fn object_from_pairs_later_pair_wins() {
    let pairs: Vec<(Value, Value)> = vec![("a".into(), num(1.0)), ("a".into(), num(2.0))];

    let obj = Object::from_pairs(&pairs);

    assert_eq!(obj.len(), 1);
    assert_eq!(*obj.get(&"a".into()), num(2.0));
}

#[test]
fn object_pop() {
    let mut obj = Object::empty();
    obj.set_mut("a".into(), num(1.0));
    obj.set_mut("b".into(), num(2.0));

    let (v, rest) = obj.pop(&"a".into()).unwrap();
    assert_eq!(*v, num(1.0));
    assert_eq!(rest.len(), 1);
    assert!(rest.get_opt(&"a".into()).is_none());
    assert!(obj.pop(&"zz".into()).is_none());
    let (k, v, rest) = obj.pop_with_key(&"b".into()).unwrap();
    assert_eq!(*k, Value::from("b"));
    assert_eq!(*v, num(2.0));
    assert_eq!(rest.len(), 1);
    assert!(obj.pop_with_key(&"zz".into()).is_none());
    assert_eq!(obj.len(), 2);
    assert_eq!(*obj.pop_mut(&"a".into()).unwrap(), num(1.0));
    assert_eq!(obj.len(), 1);
    assert!(obj.pop_mut(&"a".into()).is_none());
    let (k, v) = obj.pop_with_key_mut(&"b".into()).unwrap();
    assert_eq!(*k, Value::from("b"));
    assert_eq!(*v, num(2.0));
    assert!(obj.is_empty());
    assert!(obj.pop_with_key_mut(&"b".into()).is_none());
}

#[test]
fn object_keys_and_values() {
    let mut obj = Object::empty();
    obj.set_mut("a".into(), num(1.0));
    obj.set_mut("b".into(), num(2.0));
    let keys = obj.keys();
    let values = obj.values();
    let entries = obj.entries();

    assert_eq!(keys.len(), 2);
    assert_eq!(values.len(), 2);
    for i in 0..2 {
        assert_eq!(keys[i], entries[i].0);
        assert_eq!(values[i], entries[i].1);
        assert_eq!(*obj.get(&keys[i]), *values[i]);
    }
}

fn object_of(pairs: &[(&str, f64)]) -> Object {
    let mut obj = Object::empty();
    for (k, v) in pairs {
        obj.set_mut((*k).into(), num(*v));
    }
    obj
}

#[test]
fn object_union() {
    let a = object_of(&[("a", 1.0), ("b", 2.0)]);
    let b = object_of(&[("b", 20.0), ("c", 30.0)]);

    let u = a.union(&b);

    assert_eq!(u.len(), 3);
    assert_eq!(*u.get(&"a".into()), num(1.0));
    assert_eq!(*u.get(&"b".into()), num(2.0));
    assert_eq!(*u.get(&"c".into()), num(30.0));
    assert_eq!(a.len(), 2);
    assert_eq!(b.len(), 2);
    assert_eq!(a.union(&Object::empty()), a);
    assert_eq!(Object::empty().union(&a), a);
}

#[test]
fn object_difference() {
    let a = object_of(&[("a", 1.0), ("b", 2.0)]);
    let b = object_of(&[("b", 20.0), ("c", 30.0)]);

    let d = a.difference(&b);

    assert_eq!(d.len(), 1);
    assert_eq!(*d.get(&"a".into()), num(1.0));
    assert!(d.get_opt(&"b".into()).is_none());
    assert!(d.get_opt(&"c".into()).is_none());
    assert!(a.difference(&a).is_empty());
    assert_eq!(a.difference(&Object::empty()), a);
}

#[test]
fn object_intersection() {
    let a = object_of(&[("a", 1.0), ("b", 2.0)]);
    let b = object_of(&[("b", 20.0), ("c", 30.0)]);

    let i = a.intersection(&b);

    assert_eq!(i.len(), 1);
    assert_eq!(*i.get(&"b".into()), num(2.0));
    assert!(a.intersection(&Object::empty()).is_empty());
    assert_eq!(a.intersection(&a), a);
}

#[test]
fn object_submaps() {
    let a = object_of(&[("a", 1.0)]);
    let b = object_of(&[("a", 1.0), ("b", 2.0)]);
    let c = object_of(&[("a", 5.0), ("b", 2.0)]);

    assert!(a.is_submap(&b));
    assert!(a.is_proper_submap(&b));
    assert!(!b.is_submap(&a));
    assert!(!b.is_proper_submap(&a));
    assert!(b.is_submap(&b));
    assert!(!b.is_proper_submap(&b));
    assert!(!a.is_submap(&c));
    assert!(!a.is_proper_submap(&c));
    assert!(Object::empty().is_submap(&a));
    assert!(Object::empty().is_proper_submap(&a));
    assert!(Object::empty().is_submap(&Object::empty()));
}

fn random_object(rng: &mut Lcg, keys: usize, size: usize) -> (Object, std::collections::HashMap<i64, i64>) {
    let mut obj = Object::empty();
    let mut model = std::collections::HashMap::new();
    for _ in 0..size {
        let k = rng.next(keys) as i64;
        let v = rng.next(1000) as i64;
        obj.set_mut(num(k as f64), num(v as f64));
        model.insert(k, v);
    }
    (obj, model)
}

#[test]
fn object_algebra_against_a_model() {
    let mut rng = Lcg(9);
    for round in 0..40 {
        let keys = 4 + round * 2;
        let (a, ma) = random_object(&mut rng, keys, round + 1);
        let (b, mb) = random_object(&mut rng, keys, round / 2 + 1);

        let mut union = mb.clone();
        for (k, v) in &ma {
            union.insert(*k, *v);
        }
        check_object(&a.union(&b), &union, keys);

        let difference: std::collections::HashMap<i64, i64> =
            ma.iter().filter(|(k, _)| !mb.contains_key(*k)).map(|(k, v)| (*k, *v)).collect();
        check_object(&a.difference(&b), &difference, keys);

        let intersection: std::collections::HashMap<i64, i64> =
            ma.iter().filter(|(k, _)| mb.contains_key(*k)).map(|(k, v)| (*k, *v)).collect();
        check_object(&a.intersection(&b), &intersection, keys);

        let sub = ma.iter().all(|(k, v)| mb.get(k) == Some(v));
        assert_eq!(a.is_submap(&b), sub);
        assert_eq!(a.is_proper_submap(&b), sub && ma.len() != mb.len());
        assert!(a.intersection(&b).is_submap(&a));
        assert!(a.difference(&b).is_submap(&a));
        assert!(a.is_submap(&a.union(&b)));

        check_object(&a, &ma, keys);
        check_object(&b, &mb, keys);
        let k = rng.next(keys) as i64;
        match a.pop(&num(k as f64)) {
            Some((v, rest)) => {
                assert_eq!(*v, num(ma[&k] as f64));
                let mut less = ma.clone();
                less.remove(&k);
                check_object(&rest, &less, keys);
            }
            None => assert!(!ma.contains_key(&k)),
        }
        assert_eq!(Object::from_pairs(&a.to_pairs()), a);
    }
}

#[test]
fn object_from_pairs_with_symbol_keys_has_every_pair() {
    let mut i = Interpreter::new();
    let a = Value::from(Symbol::new_global("a".to_string(), &mut i).unwrap());
    let b = Value::from(Symbol::new_global("b".to_string(), &mut i).unwrap());
    let mut inner = Object::new();
    inner.set_mut(a.clone(), num(0.0));
    let pairs: Vec<(Value, Value)> = vec![
        (a.clone(), num(1.0)),
        (b.clone(), num(2.0)),
        (Value::from(inner.clone()), num(3.0)),
        (num(4.0), a.clone()),
    ];

    let obj = Object::from_pairs(&pairs);

    assert_eq!(obj.len(), 4);
    assert_eq!(*obj.get(&a), num(1.0));
    assert_eq!(*obj.get(&b), num(2.0));
    assert_eq!(*obj.get(&Value::from(inner)), num(3.0));
    assert_eq!(*obj.get(&num(4.5)), a);
    let back = obj.to_pairs();
    assert_eq!(back.len(), 4);
    for pair in &pairs {
        assert!(back.contains(pair));
    }
}

#[test]
fn owned_object_from_pairs_with_symbol_keys_has_every_pair() {
    let a = OwnedValue::from(dermis::value::OwnedSymbol::new_global("a".to_string()).unwrap());
    let b = OwnedValue::from(dermis::value::OwnedSymbol::new_global("b".to_string()).unwrap());
    let pairs: Vec<(OwnedValue, OwnedValue)> = vec![(a.clone(), onum(1.0)), (b.clone(), onum(2.0))];

    let obj = OwnedObject::from_pairs(&pairs);

    assert_eq!(obj.len(), 2);
    assert_eq!(*obj.get(&a), onum(1.0));
    assert_eq!(*obj.get(&b), onum(2.0));
}

#[test]
fn owned_object_finds_symbol_keys_again() {
    let a = OwnedValue::from(dermis::value::OwnedSymbol::new_global("a".to_string()).unwrap());
    let a_x = OwnedValue::from(
        dermis::value::OwnedSymbol::new_local(
            "x".to_string(),
            dermis::value::OwnedSymbol::new_global("a".to_string()).unwrap(),
        )
        .unwrap(),
    );
    let mut obj = OwnedObject::new();
    obj.set_mut(a.clone(), onum(1.0));
    obj.set_mut(a_x.clone(), onum(2.0));
    obj.set_mut(a.clone(), onum(3.0));

    assert_eq!(obj.len(), 2);
    assert!(obj.contains_key(&a));
    assert!(obj.contains_key(&a_x));
    assert_eq!(*obj.get(&a), onum(3.0));
    assert_eq!(*obj.get_opt(&a_x).unwrap(), onum(2.0));
    let again = OwnedObject::from_pairs(&obj.to_pairs());
    assert_eq!(again.len(), 2);
    assert_eq!(*again.get(&a), onum(3.0));
    assert_eq!(*again.get(&a_x), onum(2.0));
    assert!(again == obj);
}

#[test]
fn object_from_pairs_keeps_each_pair_that_no_later_one_replaces() {
    let pairs: Vec<(Value, Value)> = vec![
        ("a".into(), num(1.0)),
        ("b".into(), num(2.0)),
        ("a".into(), num(3.0)),
        ("c".into(), num(4.0)),
        (num(5.25), num(5.0)),
        (num(5.75), num(6.0)),
    ];

    let obj = Object::from_pairs(&pairs);

    assert_eq!(obj.len(), 4);
    assert_eq!(*obj.get(&"a".into()), num(3.0));
    assert_eq!(*obj.get(&"b".into()), num(2.0));
    assert_eq!(*obj.get(&"c".into()), num(4.0));
    assert_eq!(*obj.get(&num(5.0)), num(6.0));
}
