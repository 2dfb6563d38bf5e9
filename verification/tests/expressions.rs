use dermis::ast::CondDisplay;
use dermis::ast::Expression;
use dermis::value::owned::symbol::OwnedSymbol;
use dermis::value::OwnedObject;
use dermis::value::OwnedValue;

fn symbol(names: &[&str]) -> OwnedValue {
    let mut sym = OwnedSymbol::new_global(names[0].to_string()).unwrap();
    for name in &names[1..] {
        sym = OwnedSymbol::new_local(name.to_string(), sym).unwrap();
    }
    OwnedValue::from(sym)
}

#[test]
fn cond_display_as_a_value() {
    assert_eq!(OwnedValue::from(CondDisplay::If), symbol(&["Ast", "CondDisplay", "If"]));
    assert_eq!(OwnedValue::from(CondDisplay::Ternary), symbol(&["Ast", "CondDisplay", "Ternary"]));
    assert_eq!(CondDisplay::If.to_owned_value(), symbol(&["Ast", "CondDisplay", "If"]));
}

#[test]
fn nop_as_a_value() {
    assert_eq!(OwnedValue::from(Expression::Nop), symbol(&["ast", "nop"]));
}

#[test]
fn ide_option_as_a_value() {
    let options = OwnedObject::singleton("colour".into(), "red".into());
    let expr = Expression::IdeOption { id: Box::new(Expression::Nop), options: options.clone() };

    let value = OwnedValue::from(expr);

    match value {
        OwnedValue::Object(o) => {
            assert_eq!(o.len(), 2);
            assert_eq!(*o.get(&symbol(&["Ast", "IdeOption", "Id"])), symbol(&["ast", "nop"]));
            assert_eq!(*o.get(&symbol(&["Ast", "IdeOption", "Options"])), OwnedValue::from(options));
        }
        _ => panic!("not an object"),
    }
}

#[test]
fn cond_as_a_value() {
    let inner = Expression::Cond {
        cond: Box::new(Expression::Nop),
        if_true: Box::new(Expression::Nop),
        if_false: Box::new(Expression::Nop),
        display: CondDisplay::If,
    };
    let expr = Expression::Cond {
        cond: Box::new(Expression::Nop),
        if_true: Box::new(inner),
        if_false: Box::new(Expression::Nop),
        display: CondDisplay::Ternary,
    };

    let value = expr.into_owned_value();

    match value {
        OwnedValue::Object(o) => {
            assert_eq!(o.len(), 4);
            assert_eq!(*o.get(&symbol(&["Ast", "Cond"])), symbol(&["ast", "nop"]));
            assert_eq!(*o.get(&symbol(&["Ast", "Cond", "IfFalse"])), symbol(&["ast", "nop"]));
            assert_eq!(
                *o.get(&symbol(&["Ast", "Cond", "Display"])),
                symbol(&["Ast", "CondDisplay", "Ternary"])
            );
            match &*o.get(&symbol(&["Ast", "Cond", "IfTrue"])) {
                OwnedValue::Object(t) => {
                    assert_eq!(t.len(), 4);
                    assert_eq!(
                        *t.get(&symbol(&["Ast", "Cond", "Display"])),
                        symbol(&["Ast", "CondDisplay", "If"])
                    );
                }
                _ => panic!("not an object"),
            }
        }
        _ => panic!("not an object"),
    }
}
