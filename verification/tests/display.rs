use dermis::value::display::Piece;
use dermis::value::owned::array::OwnedArray;
use dermis::value::owned::object::OwnedObject;
use dermis::value::owned::symbol::OwnedSymbol;
use dermis::value::owned::value::OwnedValue;
use dermis::value::Array;
use dermis::value::Number;
use dermis::value::Object;
use dermis::value::Symbol;
use dermis::value::Value;
use dermis::Interpreter;

fn num(x: f64) -> Value {
    Value::from(Number::from_bits(x.to_bits()))
}

fn onum(x: f64) -> OwnedValue {
    OwnedValue::from(Number::from_bits(x.to_bits()))
}

fn render(pieces: &[Piece]) -> String {
    let mut out = String::new();
    for piece in pieces {
        match piece {
            Piece::Text(text) => out.push_str(text),
            Piece::Number(n) => out.push_str(&format!("{}", f64::from_bits(n.to_bits()))),
        }
    }
    out
}

#[test]
fn object_fmt_empty() {
    let empty = Object::empty();

    assert_eq!(render(&empty.pieces()), "{}");
    assert_eq!(render(&Value::from(Object::empty()).pieces()), "{}");
    assert_eq!(render(&OwnedObject::empty().pieces()), "{}");
}

#[test]
fn object_fmt_1() {
    let mut obj = Object::empty();

    obj.set_mut("a".into(), num(1.0));

    assert_eq!(render(&obj.pieces()), "{\"a\": 1}");
}

#[test]
fn object_fmt_2() {
    let mut obj = Object::empty();

    obj.set_mut("a".into(), num(1.0));
    obj.set_mut("b".into(), num(2.0));

    let text = render(&obj.pieces());
    assert!(text == "{\"a\": 1, \"b\": 2}" || text == "{\"b\": 2, \"a\": 1}", "{}", text);
}

#[test]
fn value_display_of_each_kind() {
    let mut i = Interpreter::new();
    let foo = Symbol::new_global("foo".to_string(), &mut i).unwrap();
    let bar = Symbol::new_local("bar".to_string(), foo.clone(), &mut i).unwrap();

    assert_eq!(render(&num(12.0).pieces()), "12");
    assert_eq!(render(&num(12.5).pieces()), "12.5");
    assert_eq!(render(&num(-0.001).pieces()), "-0.001");
    assert_eq!(render(&num(1e21).pieces()), "1000000000000000000000");
    assert_eq!(render(&num(f64::NAN).pieces()), "NaN");
    assert_eq!(render(&num(f64::INFINITY).pieces()), "inf");
    assert_eq!(render(&Value::from("Hello World!").pieces()), "\"Hello World!\"");
    assert_eq!(render(&Value::from("").pieces()), "\"\"");
    assert_eq!(render(&Value::from("say \"hi\"").pieces()), "\"say \"hi\"\"");
    assert_eq!(render(&Value::from(foo).pieces()), "'foo");
    assert_eq!(render(&Value::from(bar).pieces()), "'foo::bar");
    assert_eq!(render(&Value::from(Array::empty()).pieces()), "[]");
}

#[test]
fn array_display() {
    let arr = Array::from_vec(vec![num(1.0), Value::from("a"), num(2.5)]);

    assert_eq!(render(&arr.pieces()), "[1, \"a\", 2.5]");
    assert_eq!(render(&Array::singleton(num(7.0)).pieces()), "[7]");
    assert_eq!(render(&Array::empty().pieces()), "[]");
}

#[test]
fn nested_display() {
    let inner = Array::from_vec(vec![num(1.0), num(2.0)]);
    let obj = Object::singleton("list".into(), inner.into());
    let outer = Array::from_vec(vec![obj.into(), Value::from(Object::empty()), Array::empty().into()]);

    assert_eq!(render(&outer.pieces()), "[{\"list\": [1, 2]}, {}, []]");
}

#[test]
fn owned_display() {
    let sym = OwnedSymbol::new_local(
        "b".to_string(),
        OwnedSymbol::new_global("a".to_string()).unwrap(),
    )
    .unwrap();
    let arr = OwnedArray::from_vec(vec![onum(1.0), OwnedValue::from("x"), OwnedValue::from(sym)]);
    let obj = OwnedObject::singleton(onum(3.5), arr.clone().into());

    assert_eq!(render(&arr.pieces()), "[1, \"x\", 'a::b]");
    assert_eq!(render(&obj.pieces()), "{3.5: [1, \"x\", 'a::b]}");
    assert_eq!(render(&OwnedValue::from(obj).pieces()), "{3.5: [1, \"x\", 'a::b]}");
}

#[test]
fn pieces_keep_each_number_apart() {
    let arr = Array::from_vec(vec![num(1.0), num(2.0)]);
    let pieces = arr.pieces();
    let numbers: Vec<f64> = pieces
        .iter()
        .filter_map(|p| match p {
            Piece::Number(n) => Some(f64::from_bits(n.to_bits())),
            _ => None,
        })
        .collect();

    assert_eq!(numbers, vec![1.0, 2.0]);
}
