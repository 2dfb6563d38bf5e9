use dermis::value::Array;
use dermis::value::Object;
use dermis::value::OwnedValue;
use dermis::value::Value;

#[test]
fn get_null() {
    let null = dermis::value::get_null();

    match &*null {
        Value::Object(ref a) => assert_eq!(a.len(), 0),
        _ => unreachable!(),
    }
}

#[test]
fn get_null_owned_is_an_empty_object() {
    let null = dermis::value::get_null_owned();

    match &*null {
        OwnedValue::Object(ref a) => assert!(a.is_empty()),
        _ => unreachable!(),
    }
}

#[test]
fn every_empty_object_is_null() {
    assert_eq!(*dermis::value::get_null(), Value::from(Object::empty()));
    assert_eq!(*dermis::value::get_null(), Value::from(Object::singleton("a".into(), "b".into()).remove(&"a".into())));
    assert_eq!(Array::empty().get(0), dermis::value::get_null());
    assert_eq!(Object::empty().get(&"missing".into()), dermis::value::get_null());
}
