use dermis::value::get_null;
use std::cmp::Ordering;
use dermis::value::owned::array::OwnedArray;
use dermis::value::owned::value::OwnedValue;
use dermis::value::Array;
use dermis::value::Number;
use dermis::value::Value;
use std::sync::Arc;

fn num(x: f64) -> Value {
    Value::from(Number::from_bits(x.to_bits()))
}

fn nums(xs: &[f64]) -> Array {
    Array::from_vec(xs.iter().map(|x| num(*x)).collect())
}

fn floats(a: &Array) -> Vec<f64> {
    a.to_vec()
        .iter()
        .map(|v| match &**v {
            Value::Number(n) => f64::from_bits(n.to_bits()),
            _ => panic!("not a number"),
        })
        .collect()
}

fn float_of(v: &Arc<Value>) -> f64 {
    match &**v {
        Value::Number(n) => f64::from_bits(n.to_bits()),
        _ => panic!("not a number"),
    }
}

#[test]
fn array_to_vec() {
    let arr: Array = Array::from_vec(vec![Value::from("a"), Value::from("b")]);

    let vec: Vec<Arc<Value>> = arr.to_vec();

    assert_eq!(*vec[0], Value::from("a"));
    assert_eq!(*vec[1], Value::from("b"));
}

#[test]
fn array_to_vec_cloned() {
    let arr: Array = Array::from_vec(vec![Value::from("a"), Value::from("b")]);
    let _cloned = arr.clone();

    let vec: Vec<Arc<Value>> = arr.to_vec();

    assert_eq!(*vec[0], Value::from("a"));
    assert_eq!(*vec[1], Value::from("b"));
}

#[test]
fn array_get() {
    let mut arr = Array::empty();
    arr.push_back_mut(num(1.0));
    arr.push_back_mut(num(2.0));

    assert_eq!(*arr.get(0), num(1.0));
    assert_eq!(*arr.get(1), num(2.0));
}

#[test]
fn array_null_get() {
    let arr = Array::empty();

    assert_eq!(arr.get(5), get_null());
    assert!(arr.get_opt(5).is_none());
    assert!(arr.get_opt(0).is_none());
}

#[test]
fn array_push_back_leaves_the_array_as_it_was() {
    let a = nums(&[1.5, 2.5]);
    let b = a.push_back(num(3.5));

    assert_eq!(floats(&a), vec![1.5, 2.5]);
    assert_eq!(a.len(), 2);
    assert_eq!(floats(&b), vec![1.5, 2.5, 3.5]);
    assert_eq!(b.len(), 3);
}

#[test]
fn array_pure_operations() {
    let a = nums(&[1.0, 2.0, 3.0, 4.0]);

    assert_eq!(floats(&a.push_front(num(0.0))), vec![0.0, 1.0, 2.0, 3.0, 4.0]);
    assert_eq!(floats(&a.set(2, num(9.0))), vec![1.0, 2.0, 9.0, 4.0]);
    assert_eq!(floats(&a.append(nums(&[5.0, 6.0]))), vec![1.0, 2.0, 3.0, 4.0, 5.0, 6.0]);
    assert_eq!(floats(&a.reverse()), vec![4.0, 3.0, 2.0, 1.0]);
    assert_eq!(floats(&a.skip(1)), vec![2.0, 3.0, 4.0]);
    assert_eq!(floats(&a.skip(4)), Vec::<f64>::new());
    assert_eq!(floats(&a.skip(9)), Vec::<f64>::new());
    assert_eq!(floats(&a.skip(0)), vec![1.0, 2.0, 3.0, 4.0]);
    assert_eq!(floats(&a.take(3)), vec![1.0, 2.0, 3.0]);
    assert_eq!(floats(&a.take(0)), Vec::<f64>::new());
    assert_eq!(floats(&a.take(4)), vec![1.0, 2.0, 3.0, 4.0]);
    assert_eq!(floats(&a.take(9)), vec![1.0, 2.0, 3.0, 4.0]);
    assert_eq!(a.take(9).len(), 4);
    assert_eq!(floats(&a.slice(1, 3)), vec![2.0, 3.0]);
    assert_eq!(floats(&a.slice(1, 9)), vec![2.0, 3.0, 4.0]);
    assert_eq!(a.slice(1, 9).len(), 3);
    assert_eq!(floats(&a.slice(3, 1)), Vec::<f64>::new());
    assert_eq!(floats(&a.slice(2, 2)), Vec::<f64>::new());
    assert_eq!(floats(&a.slice(7, 9)), Vec::<f64>::new());
    assert_eq!(floats(&a.slice(0, 4)), vec![1.0, 2.0, 3.0, 4.0]);
    let (l, r) = a.split_at(1);
    assert_eq!(floats(&l), vec![1.0]);
    assert_eq!(floats(&r), vec![2.0, 3.0, 4.0]);
    let (l, r) = a.split_at(0);
    assert_eq!(floats(&l), Vec::<f64>::new());
    assert_eq!(floats(&r), vec![1.0, 2.0, 3.0, 4.0]);
    let (l, r) = a.split_at(7);
    assert_eq!(floats(&l), vec![1.0, 2.0, 3.0, 4.0]);
    assert_eq!(floats(&r), Vec::<f64>::new());
    assert_eq!(floats(&a.tail().unwrap()), vec![2.0, 3.0, 4.0]);
    assert_eq!(floats(&a.init().unwrap()), vec![1.0, 2.0, 3.0]);
    assert_eq!(float_of(&a.head().unwrap()), 1.0);
    assert_eq!(float_of(&a.last().unwrap()), 4.0);
    assert_eq!(float_of(&a.get_unwrapped(2)), 3.0);
    let (x, rest) = a.pop_back().unwrap();
    assert_eq!(float_of(&x), 4.0);
    assert_eq!(floats(&rest), vec![1.0, 2.0, 3.0]);
    let (x, rest) = a.pop_front().unwrap();
    assert_eq!(float_of(&x), 1.0);
    assert_eq!(floats(&rest), vec![2.0, 3.0, 4.0]);
    assert_eq!(floats(&a), vec![1.0, 2.0, 3.0, 4.0]);
}

#[test]
fn array_of_nothing() {
    let e = Array::new();

    assert!(e.is_empty());
    assert_eq!(e.len(), 0);
    assert!(e.head().is_none());
    assert!(e.last().is_none());
    assert!(e.tail().is_none());
    assert!(e.init().is_none());
    assert!(e.pop_back().is_none());
    assert!(e.pop_front().is_none());
    assert!(e.reverse().is_empty());
    assert!(e.take(3).is_empty());
    assert!(e.skip(3).is_empty());
    assert!(e.slice(0, 3).is_empty());
    assert!(Array::default().is_empty());
    let mut m = Array::empty();
    assert!(m.pop_back_mut().is_none());
    assert!(m.pop_front_mut().is_none());
    assert!(m.is_empty());
}

#[test]
fn array_singleton() {
    let one = Array::singleton(num(7.0));

    assert_eq!(one.len(), 1);
    assert_eq!(floats(&one), vec![7.0]);
    assert_eq!(floats(&one.push_back(num(8.0))), vec![7.0, 8.0]);
}

#[test]
fn array_operations_in_place() {
    let mut a = Array::empty();
    a.push_back_mut(num(2.0));
    a.push_back_mut(num(3.0));
    a.push_front_mut(num(1.0));
    assert_eq!(floats(&a), vec![1.0, 2.0, 3.0]);
    a.set_mut(1, num(8.0));
    assert_eq!(floats(&a), vec![1.0, 8.0, 3.0]);
    a.reverse_mut();
    assert_eq!(floats(&a), vec![3.0, 8.0, 1.0]);
    assert_eq!(float_of(&a.pop_back_mut().unwrap()), 1.0);
    assert_eq!(floats(&a), vec![3.0, 8.0]);
    assert_eq!(float_of(&a.pop_front_mut().unwrap()), 3.0);
    assert_eq!(floats(&a), vec![8.0]);
}

fn reversed() -> Array {
    nums(&[1.0, 2.0, 3.0, 4.0, 5.0]).reverse()
}

#[test]
fn reversed_array_items() {
    assert_eq!(floats(&reversed()), vec![5.0, 4.0, 3.0, 2.0, 1.0]);
    assert_eq!(float_of(&reversed().get(0)), 5.0);
    assert_eq!(float_of(&reversed().get(4)), 1.0);
    assert_eq!(floats(&reversed().reverse()), vec![1.0, 2.0, 3.0, 4.0, 5.0]);
}

#[test]
fn reversed_array_push_back() {
    assert_eq!(floats(&reversed().push_back(num(0.0))), vec![5.0, 4.0, 3.0, 2.0, 1.0, 0.0]);
}

#[test]
fn reversed_array_push_front() {
    assert_eq!(floats(&reversed().push_front(num(6.0))), vec![6.0, 5.0, 4.0, 3.0, 2.0, 1.0]);
}

#[test]
fn reversed_array_take() {
    assert_eq!(floats(&reversed().take(2)), vec![5.0, 4.0]);
}

#[test]
fn reversed_array_skip() {
    assert_eq!(floats(&reversed().skip(2)), vec![3.0, 2.0, 1.0]);
}

#[test]
fn reversed_array_slice() {
    assert_eq!(floats(&reversed().slice(1, 3)), vec![4.0, 3.0]);
}

#[test]
fn reversed_array_tail() {
    assert_eq!(floats(&reversed().tail().unwrap()), vec![4.0, 3.0, 2.0, 1.0]);
}

#[test]
fn reversed_array_init() {
    assert_eq!(floats(&reversed().init().unwrap()), vec![5.0, 4.0, 3.0, 2.0]);
}

#[test]
fn reversed_array_set() {
    assert_eq!(floats(&reversed().set(0, num(9.0))), vec![9.0, 4.0, 3.0, 2.0, 1.0]);
}

#[test]
fn reversed_array_append() {
    assert_eq!(
        floats(&reversed().append(nums(&[7.0, 8.0]))),
        vec![5.0, 4.0, 3.0, 2.0, 1.0, 7.0, 8.0]
    );
}

#[test]
fn reversed_array_split_at() {
    let (l, r) = reversed().split_at(2);
    assert_eq!(floats(&l), vec![5.0, 4.0]);
    assert_eq!(floats(&r), vec![3.0, 2.0, 1.0]);
}

#[test]
fn reversed_array_pop() {
    let (x, rest) = reversed().pop_back().unwrap();
    assert_eq!(float_of(&x), 1.0);
    assert_eq!(floats(&rest), vec![5.0, 4.0, 3.0, 2.0]);
    let (x, rest) = reversed().pop_front().unwrap();
    assert_eq!(float_of(&x), 5.0);
    assert_eq!(floats(&rest), vec![4.0, 3.0, 2.0, 1.0]);
}

#[test]
fn reversed_array_get_by_index() {
    let a = reversed();
    for i in 0..5 {
        assert_eq!(float_of(&a.get_unwrapped(i)), 5.0 - i as f64);
    }
}

#[test]
fn array_of_many_items() {
    let mut a = Array::empty();
    for i in 0..200 {
        a.push_back_mut(num(i as f64));
    }
    for i in 0..100 {
        a.push_front_mut(num(-(i as f64) - 1.0));
    }
    assert_eq!(a.len(), 300);
    let all = floats(&a);
    for i in 0..300 {
        assert_eq!(all[i], i as f64 - 100.0);
        assert_eq!(float_of(&a.get(i)), i as f64 - 100.0);
    }
    let part = a.slice(50, 250);
    assert_eq!(part.len(), 200);
    assert_eq!(float_of(&part.get(0)), -50.0);
    assert_eq!(float_of(&part.get(199)), 149.0);
    assert_eq!(floats(&part.take(3)), vec![-50.0, -49.0, -48.0]);
    assert_eq!(floats(&part.skip(197)), vec![147.0, 148.0, 149.0]);
}

#[test]
fn owned_to_vec() {
    let owned: OwnedArray = OwnedArray::from_vec(vec![OwnedValue::from("a"), OwnedValue::from("b")]);

    let vec: Vec<Arc<OwnedValue>> = owned.to_vec();

    assert_eq!(*vec[0], OwnedValue::from("a"));
    assert_eq!(*vec[1], OwnedValue::from("b"));
}

#[test]
fn owned_to_vec_cloned() {
    let owned: OwnedArray = OwnedArray::from_vec(vec![OwnedValue::from("a"), OwnedValue::from("b")]);
    let _cloned = owned.clone();

    let vec: Vec<Arc<OwnedValue>> = owned.to_vec();

    assert_eq!(*vec[0], OwnedValue::from("a"));
    assert_eq!(*vec[1], OwnedValue::from("b"));
}

struct Lcg(u64);

impl Lcg {
    fn next(&mut self, bound: usize) -> usize {
        self.0 = self.0.wrapping_mul(6364136223846793005).wrapping_add(1442695040888963407);
        ((self.0 >> 33) as usize) % bound
    }
}

fn check_against(a: &Array, model: &Vec<f64>, what: &str) {
    assert_eq!(a.len(), model.len(), "{}", what);
    assert_eq!(floats(a), *model, "{}", what);
    for i in 0..model.len() {
        assert_eq!(float_of(&a.get_unwrapped(i)), model[i], "{}", what);
    }
}

fn random_walk(seed: u64, steps: usize, with_reverse: bool) {
    let mut rng = Lcg(seed);
    let mut a = Array::empty();
    let mut model: Vec<f64> = Vec::new();
    let mut next = 0.0;
    for _ in 0..steps {
        let kinds = if with_reverse { 20 } else { 18 };
        let kind = rng.next(kinds);
        next += 1.0;
        let what;
        match kind {
            0 | 1 => {
                a = a.push_back(num(next));
                model.push(next);
                what = "push_back";
            }
            2 => {
                a.push_back_mut(num(next));
                model.push(next);
                what = "push_back_mut";
            }
            3 => {
                a = a.push_front(num(next));
                model.insert(0, next);
                what = "push_front";
            }
            4 => {
                a.push_front_mut(num(next));
                model.insert(0, next);
                what = "push_front_mut";
            }
            5 => {
                let got = a.pop_back_mut().map(|v| float_of(&v));
                assert_eq!(got, model.pop());
                what = "pop_back_mut";
            }
            6 => {
                let got = a.pop_front_mut().map(|v| float_of(&v));
                let want = if model.is_empty() { None } else { Some(model.remove(0)) };
                assert_eq!(got, want);
                what = "pop_front_mut";
            }
            7 => {
                if !model.is_empty() {
                    let i = rng.next(model.len());
                    a = a.set(i, num(next));
                    model[i] = next;
                }
                what = "set";
            }
            8 => {
                let n = rng.next(model.len() + 3);
                a = a.take(n);
                model.truncate(n);
                what = "take";
            }
            9 => {
                let n = rng.next(model.len() + 3);
                a = a.skip(n);
                model = model.iter().skip(n).cloned().collect();
                what = "skip";
            }
            10 => {
                let s = rng.next(model.len() + 3);
                let e = rng.next(model.len() + 3);
                a = a.slice(s, e);
                let e2 = e.min(model.len());
                model = if s < e2 { model[s..e2].to_vec() } else { Vec::new() };
                what = "slice";
            }
            11 => {
                let n = rng.next(40);
                let mut extra = Vec::new();
                for k in 0..n {
                    extra.push(next + (k as f64) / 64.0);
                }
                a = a.append(nums(&extra));
                model.extend(extra);
                what = "append";
            }
            12 => {
                if let Some(rest) = a.tail() {
                    a = rest;
                    model.remove(0);
                } else {
                    assert!(model.is_empty());
                }
                what = "tail";
            }
            13 => {
                if let Some(rest) = a.init() {
                    a = rest;
                    model.pop();
                } else {
                    assert!(model.is_empty());
                }
                what = "init";
            }
            14 => {
                match a.pop_back() {
                    Some((x, rest)) => {
                        assert_eq!(Some(float_of(&x)), model.pop());
                        a = rest;
                    }
                    None => assert!(model.is_empty()),
                }
                what = "pop_back";
            }
            15 => {
                match a.pop_front() {
                    Some((x, rest)) => {
                        assert_eq!(float_of(&x), model.remove(0));
                        a = rest;
                    }
                    None => assert!(model.is_empty()),
                }
                what = "pop_front";
            }
            16 => {
                let n = rng.next(model.len() + 3);
                let (l, r) = a.split_at(n);
                let m = n.min(model.len());
                check_against(&l, &model[..m].to_vec(), "split_at left");
                check_against(&r, &model[m..].to_vec(), "split_at right");
                a = l.append(r);
                what = "split_at";
            }
            17 => {
                if !model.is_empty() {
                    let i = rng.next(model.len());
                    a.set_mut(i, num(next));
                    model[i] = next;
                }
                what = "set_mut";
            }
            18 => {
                a.reverse_mut();
                model.reverse();
                what = "reverse_mut";
            }
            _ => {
                a = a.reverse();
                model.reverse();
                what = "reverse";
            }
        }
        check_against(&a, &model, what);
    }
}

#[test]
fn array_random_walk_without_reverse_1() {
    random_walk(1, 400, false);
}

#[test]
fn array_random_walk_without_reverse_2() {
    random_walk(2, 400, false);
}

#[test]
fn array_random_walk_without_reverse_3() {
    random_walk(3, 400, false);
}

#[test]
fn array_random_walk_with_reverse_1() {
    random_walk(11, 400, true);
}

#[test]
fn array_random_walk_with_reverse_2() {
    random_walk(12, 400, true);
}

#[test]
fn array_random_walk_with_reverse_3() {
    random_walk(13, 400, true);
}

#[test]
fn array_random_walk_long() {
    random_walk(21, 3000, true);
}

#[test]
fn array_random_walk_growing() {
    let mut rng = Lcg(5);
    let mut a = Array::empty();
    let mut model: Vec<f64> = Vec::new();
    for step in 0..3000 {
        let x = step as f64;
        match rng.next(5) {
            0 | 1 => {
                a.push_back_mut(num(x));
                model.push(x);
            }
            2 | 3 => {
                a = a.push_front(num(x));
                model.insert(0, x);
            }
            _ => {
                let extra = [x, x + 0.25, x + 0.5];
                a = a.append(nums(&extra));
                model.extend(extra);
            }
        }
    }
    check_against(&a, &model, "grown");
    let n = model.len();
    check_against(&a.slice(n / 3, 2 * n / 3), &model[n / 3..2 * n / 3].to_vec(), "slice");
    check_against(&a.skip(n - 70), &model[n - 70..].to_vec(), "skip");
    check_against(&a.take(70), &model[..70].to_vec(), "take");
    check_against(&a.take(1100).skip(1000), &model[1000..1100].to_vec(), "take skip");
    let mut r = model.clone();
    r.reverse();
    check_against(&a.reverse(), &r, "reverse");
}

fn whole_parts(a: &Array) -> Vec<i64> {
    floats(a).iter().map(|x| *x as i64).collect()
}

#[test]
fn array_sort() {
    let a = nums(&[3.0, 1.0, 2.0, 1.5, -4.0, 10.0, 0.0]);

    let sorted = a.sort();

    assert_eq!(whole_parts(&sorted), vec![-4, 0, 1, 1, 2, 3, 10]);
    assert_eq!(floats(&a), vec![3.0, 1.0, 2.0, 1.5, -4.0, 10.0, 0.0]);
    assert!(Array::empty().sort().is_empty());
    assert_eq!(floats(&Array::singleton(num(1.0)).sort()), vec![1.0]);
}

#[test]
fn array_sort_of_mixed_kinds() {
    let a = Array::from_vec(vec![
        Value::from(Array::from_vec(vec![num(1.0), num(2.0)])),
        Value::from("b"),
        num(5.0),
        Value::from(Array::from_vec(vec![num(1.0)])),
        Value::from("a"),
        Value::from(dermis::value::Object::empty()),
        Value::from("ab"),
        num(-1.0),
    ]);

    let sorted = a.sort().to_vec();

    assert_eq!(*sorted[0], num(-1.0));
    assert_eq!(*sorted[1], num(5.0));
    assert_eq!(*sorted[2], Value::from("a"));
    assert_eq!(*sorted[3], Value::from("ab"));
    assert_eq!(*sorted[4], Value::from("b"));
    assert_eq!(*sorted[5], Value::from(Array::from_vec(vec![num(1.0)])));
    assert_eq!(*sorted[6], Value::from(Array::from_vec(vec![num(1.0), num(2.0)])));
    assert_eq!(*sorted[7], Value::from(dermis::value::Object::empty()));
}

#[test]
fn array_sort_random() {
    let mut rng = Lcg(77);
    for round in 0..60 {
        let n = rng.next(round * 3 + 1);
        let mut xs: Vec<f64> = Vec::new();
        for _ in 0..n {
            xs.push(rng.next(40) as f64 - 20.0 + (rng.next(4) as f64) / 4.0);
        }
        let a = nums(&xs);
        let sorted = a.sort();
        let got = whole_parts(&sorted);
        let mut want: Vec<i64> = xs.iter().map(|x| *x as i64).collect();
        want.sort();
        assert_eq!(got, want);
        let mut all_got = floats(&sorted);
        let mut all_want = xs.clone();
        all_got.sort_by(|x, y| x.partial_cmp(y).unwrap());
        all_want.sort_by(|x, y| x.partial_cmp(y).unwrap());
        assert_eq!(all_got, all_want);
        assert_eq!(floats(&a), xs);
    }
}

#[test]
fn value_order() {
    let small = Array::from_vec(vec![num(1.0)]);
    let large = Array::from_vec(vec![num(1.0), num(0.0)]);

    assert_eq!(num(1.0).compare(&num(1.5)), Ordering::Equal);
    assert_eq!(num(1.0).compare(&num(2.0)), Ordering::Less);
    assert_eq!(num(1.0).compare(&Value::from("a")), Ordering::Less);
    assert_eq!(Value::from("a").compare(&num(1.0)), Ordering::Greater);
    assert_eq!(Value::from("a").compare(&Value::from("b")), Ordering::Less);
    assert_eq!(Value::from("b").compare(&Value::from("a")), Ordering::Greater);
    assert_eq!(Value::from("a").compare(&Value::from("a")), Ordering::Equal);
    assert_eq!(small.compare(&large), Ordering::Less);
    assert_eq!(large.compare(&small), Ordering::Greater);
    assert_eq!(small.compare(&small.clone()), Ordering::Equal);
    assert_eq!(Value::from(small).compare(&Value::from("zzz")), Ordering::Greater);
    assert_eq!(Value::from(large).compare(&Value::from(dermis::value::Object::empty())), Ordering::Less);
}

#[test]
fn array_from_and_into_vec() {
    let arr: Array = vec![Value::from("a"), num(2.0)].into();

    assert_eq!(arr.len(), 2);
    let back: Vec<Value> = arr.into_vec();
    assert_eq!(back, vec![Value::from("a"), num(2.0)]);
    let owned: OwnedArray = vec![OwnedValue::from("a")].into();
    assert_eq!(owned.into_vec(), vec![OwnedValue::from("a")]);
}

#[test]
fn array_add() {
    let a = nums(&[1.0, 2.0]);
    let b = nums(&[3.0]);

    let sum = a.clone() + b.clone();

    assert_eq!(floats(&sum), vec![1.0, 2.0, 3.0]);
    assert_eq!(floats(&a), vec![1.0, 2.0]);
    assert_eq!(floats(&(b + a)), vec![3.0, 1.0, 2.0]);
}

#[test]
fn array_random_walk_more_seeds() {
    for seed in 100..112 {
        random_walk(seed, 500, true);
    }
}

#[test]
fn array_large_slices() {
    let mut xs: Vec<f64> = Vec::new();
    for i in 0..5000 {
        xs.push(i as f64);
    }
    let a = nums(&xs);
    let mut rng = Lcg(31);
    for _ in 0..60 {
        let s = rng.next(5000);
        let e = rng.next(5200);
        let e2 = e.min(5000);
        let want: Vec<f64> = if s < e2 { xs[s..e2].to_vec() } else { Vec::new() };
        let part = a.slice(s, e);
        assert_eq!(part.len(), want.len());
        assert_eq!(floats(&part), want);
        if !want.is_empty() {
            let more = part.push_front(num(-1.0)).push_back(num(-2.0));
            assert_eq!(more.len(), want.len() + 2);
            assert_eq!(float_of(&more.get(0)), -1.0);
            assert_eq!(float_of(&more.get(1)), want[0]);
            assert_eq!(float_of(&more.get(want.len())), want[want.len() - 1]);
            assert_eq!(float_of(&more.get(want.len() + 1)), -2.0);
            let k = rng.next(want.len());
            assert_eq!(float_of(&part.set(k, num(-3.0)).get(k)), -3.0);
            assert_eq!(float_of(&part.get(k)), want[k]);
        }
    }
    assert_eq!(floats(&a.reverse().reverse()), xs);
    assert_eq!(floats(&a.skip(4990)), xs[4990..].to_vec());
    assert_eq!(floats(&a.take(10)), xs[..10].to_vec());
}

#[test]
fn array_skip_of_more_than_there_is() {
    let a = nums(&[1.0, 2.0, 3.0]);

    assert_eq!(floats(&a.skip(0)), vec![1.0, 2.0, 3.0]);
    assert_eq!(floats(&a.skip(2)), vec![3.0]);
    assert!(a.skip(3).is_empty());
    assert!(a.skip(4).is_empty());
    assert!(a.skip(usize::MAX).is_empty());
    assert!(a.skip(usize::MAX / 2 + 1).is_empty());
    assert!(Array::empty().skip(usize::MAX).is_empty());
    assert_eq!(floats(&a), vec![1.0, 2.0, 3.0]);
}

#[test]
fn owned_array_skip_of_more_than_there_is() {
    let a = OwnedArray::from_vec(vec![
        OwnedValue::from("a"),
        OwnedValue::from("b"),
        OwnedValue::from("c"),
    ]);

    assert_eq!(a.skip(1).len(), 2);
    assert_eq!(*a.skip(1).get_unwrapped(0), OwnedValue::from("b"));
    assert!(a.skip(3).is_empty());
    assert!(a.skip(usize::MAX).is_empty());
    assert!(a.skip(usize::MAX / 2 + 1).is_empty());
    assert_eq!(a.len(), 3);
}

fn downward(a: &Value, b: &Value) -> Ordering {
    b.compare_shape(a)
}

fn owned_downward(a: &OwnedValue, b: &OwnedValue) -> Ordering {
    b.compare(a)
}

#[test]
fn array_sort_by() {
    let a = nums(&[3.0, 1.0, 2.0, -4.0, 10.0, 0.0]);

    let down = a.sort_by(downward);
    let up = a.sort_by(|x: &Value, y: &Value| x.compare_shape(y));

    assert_eq!(floats(&down), vec![10.0, 3.0, 2.0, 1.0, 0.0, -4.0]);
    assert_eq!(floats(&up), vec![-4.0, 0.0, 1.0, 2.0, 3.0, 10.0]);
    assert_eq!(floats(&up), floats(&a.sort()));
    assert_eq!(floats(&a), vec![3.0, 1.0, 2.0, -4.0, 10.0, 0.0]);
    assert!(Array::empty().sort_by(downward).is_empty());
}

#[test]
fn array_sort_by_keeps_equal_items_in_their_order() {
    let a = nums(&[2.5, 1.0, 2.0, 1.5, 2.25]);

    let sorted = a.sort_by(|x: &Value, y: &Value| x.compare_shape(y));

    assert_eq!(floats(&sorted), vec![1.0, 1.5, 2.5, 2.0, 2.25]);
}

#[test]
fn owned_array_sort_by() {
    let a = OwnedArray::from_vec(vec![
        OwnedValue::from("b"),
        OwnedValue::from("c"),
        OwnedValue::from("a"),
    ]);

    let down = a.sort_by(owned_downward);

    assert_eq!(*down.get_unwrapped(0), OwnedValue::from("c"));
    assert_eq!(*down.get_unwrapped(1), OwnedValue::from("b"));
    assert_eq!(*down.get_unwrapped(2), OwnedValue::from("a"));
    assert_eq!(*a.get_unwrapped(0), OwnedValue::from("b"));
    let up = a.sort();
    assert_eq!(*up.get_unwrapped(0), OwnedValue::from("a"));
    assert_eq!(*up.get_unwrapped(2), OwnedValue::from("c"));
}

#[test]
fn value_order_by_shape() {
    let small = Array::from_vec(vec![num(1.0)]);
    let large = Array::from_vec(vec![num(1.0), num(0.0)]);

    assert_eq!(num(1.0).compare_shape(&num(1.5)), Ordering::Equal);
    assert_eq!(num(1.0).compare_shape(&Value::from("a")), Ordering::Less);
    assert_eq!(Value::from("b").compare_shape(&Value::from("a")), Ordering::Greater);
    assert_eq!(small.compare_shape(&large), Ordering::Less);
    assert_eq!(large.compare_shape(&small), Ordering::Greater);
    assert_eq!(Value::from(small).compare_shape(&Value::from("zzz")), Ordering::Greater);
}

#[test]
fn values_compare_with_operators() {
    let small = Array::from_vec(vec![num(1.0)]);
    let large = Array::from_vec(vec![num(1.0), num(0.0)]);

    assert!(num(1.0) < num(2.0));
    assert!(!(num(1.0) < num(1.5)));
    assert!(num(1.0) <= num(1.5));
    assert!(num(7.0) < Value::from("a"));
    assert!(Value::from("b") > Value::from("a"));
    assert!(small < large);
    assert_eq!(small.partial_cmp(&large), Some(Ordering::Less));
    assert_eq!(large.partial_cmp(&large.clone()), Some(Ordering::Equal));
    assert!(Value::from(large) < Value::from(dermis::value::Object::empty()));
    assert!(OwnedValue::from("a") < OwnedValue::from("b"));
    assert_eq!(OwnedValue::from("a").partial_cmp(&OwnedValue::from("a")), Some(Ordering::Equal));
    let first = OwnedArray::from_vec(vec![OwnedValue::from("a")]);
    let second = OwnedArray::from_vec(vec![OwnedValue::from("a"), OwnedValue::from("b")]);
    assert!(first < second);
    assert_eq!(second.partial_cmp(&first), Some(Ordering::Greater));
}
