use dermis::value::owned::symbol::OwnedSymbol;
use dermis::value::symbol::format::SymbolFormat;
use dermis::value::symbol::name::SymbolError;
use dermis::value::symbol::Symbol;
use dermis::Interpreter;
use dermis::SymbolTable;
use std::cmp::Ordering;
use std::collections::hash_map::DefaultHasher;
use std::hash::{Hash, Hasher};
use std::sync::Arc;

fn owned(names: &[&str]) -> OwnedSymbol {
    let mut sym = OwnedSymbol::new_global(names[0].to_string()).unwrap();
    for name in &names[1..] {
        sym = OwnedSymbol::new_local(name.to_string(), sym).unwrap();
    }
    sym
}

fn bound(names: &[&str], interpreter: &mut Interpreter) -> Symbol {
    let mut sym = Symbol::new_global(names[0].to_string(), interpreter).unwrap();
    for name in &names[1..] {
        sym = Symbol::new_local(name.to_string(), sym, interpreter).unwrap();
    }
    sym
}

#[test]
fn symbol_o_macro_global() {
    let sym = owned(&["test"]);

    assert_eq!(sym.get_name(), "test");
}

#[test]
fn symbol_o_macro_local_1() {
    let sym = owned(&["test", "a"]);

    assert_eq!(&sym.to_text(), "'test::a");
}

#[test]
fn symbol_o_macro_local_2() {
    let sym = owned(&["test", "a", "b"]);

    assert_eq!(&sym.to_text(), "'test::a::b");
}

#[test]
fn symbol_macro_global() {
    let mut i = Interpreter::new();
    let sym = bound(&["test"], &mut i);

    assert_eq!(sym.get_name(), "test");
}

#[test]
fn symbol_macro_local_1() {
    let mut i = Interpreter::new();
    let sym = bound(&["test", "a"], &mut i);

    assert_eq!(&sym.to_text(), "'test::a");
}

#[test]
fn symbol_macro_local_2() {
    let mut i = Interpreter::new();
    let sym = bound(&["test", "a", "b"], &mut i);

    assert_eq!(&sym.to_text(), "'test::a::b");
}

#[test]
fn symbol_format_global() {
    let spec = SymbolFormat::Global("foo");

    assert_eq!(spec.to_text(), "'foo");
}

#[test]
fn symbol_format_local_global() {
    let ns = SymbolFormat::Global("foo");
    let spec = SymbolFormat::Local("bar", ns.into());

    assert_eq!(spec.to_text(), "'foo::bar");
}

#[test]
fn symbol_format_local_local_global() {
    let ns1 = SymbolFormat::Global("foo");
    let ns2 = SymbolFormat::Local("bar", ns1.into());
    let spec = SymbolFormat::Local("dee", ns2.into());

    assert_eq!(spec.to_text(), "'foo::bar::dee");
}

#[test]
fn symbol_format_anon() {
    assert_eq!(SymbolFormat::Anonymous.to_text(), "'_");
}

#[test]
fn symbol_format_anon_local() {
    let ns = SymbolFormat::Anonymous;
    let spec = SymbolFormat::Local("foo", ns.into());

    assert_eq!(spec.to_text(), "'_::foo");
}

#[test]
fn symbol_from_owned_global() {
    let owned = owned(&["foo"]);
    let mut i = Interpreter::new();

    let s: Symbol = Symbol::from_owned(&owned, &mut i).unwrap();

    assert_eq!(s.to_text(), owned.to_text());
}

#[test]
fn symbol_from_owned_local_1() {
    let owned = owned(&["foo", "bar"]);
    let mut i = Interpreter::new();

    let s: Symbol = Symbol::from_owned(&owned, &mut i).unwrap();

    assert_eq!(s.to_text(), owned.to_text());
}

#[test]
fn symbol_from_owned_local_2() {
    let owned = owned(&["foo", "bar", "baz"]);
    let mut i = Interpreter::new();

    let s: Symbol = Symbol::from_owned(&owned, &mut i).unwrap();

    assert_eq!(s.to_text(), owned.to_text());
}

#[test]
fn interning_twice_gives_equal_symbols() {
    let mut rt = Interpreter::new();
    let a = Symbol::new_global("x".to_string(), &mut rt).unwrap();
    let b = Symbol::new_global("x".to_string(), &mut rt).unwrap();

    assert!(a == b);
    assert!(a.same_chain(&b));
}

#[test]
fn symbols_of_two_interpreters_differ() {
    let mut rt1 = Interpreter::new();
    let mut rt2 = Interpreter::new();
    let a = Symbol::new_global("x".to_string(), &mut rt1).unwrap();
    let b = Symbol::new_global("x".to_string(), &mut rt2).unwrap();

    assert!(a != b);
    assert!(a.same_chain(&b));
    assert_eq!(a.to_text(), b.to_text());
}

#[test]
fn symbol_of_dropped_interpreter_equals_nothing() {
    let mut rt = Interpreter::new();
    let a = Symbol::new_global("x".to_string(), &mut rt).unwrap();
    let b = a.clone();
    assert!(a == b);
    drop(rt);

    assert!(a != b);
    assert!(a != a.clone());
    assert_eq!(a.get_name(), "x");
    assert_eq!(a.to_text(), "'x");
}

#[test]
fn locals_of_different_namespaces_differ() {
    let mut i = Interpreter::new();
    let foo = Symbol::new_global("foo_namespace".to_string(), &mut i).unwrap();
    let local_a = Symbol::new_local("a".to_string(), foo.clone(), &mut i).unwrap();
    let bar = Symbol::new_global("bar_namespace".to_string(), &mut i).unwrap();
    let local_b = Symbol::new_local("a".to_string(), bar.clone(), &mut i).unwrap();

    assert_eq!(local_a.get_name(), local_b.get_name());
    assert!(local_a != local_b);
    assert!(local_a == Symbol::new_local("a".to_string(), foo, &mut i).unwrap());
}

#[test]
fn name_with_space_is_refused() {
    let mut i = Interpreter::new();

    assert_eq!(OwnedSymbol::new_global("a b".to_string()).err(), Some(SymbolError::SpaceInName));
    assert_eq!(
        OwnedSymbol::new_local(" ".to_string(), owned(&["ns"])).err(),
        Some(SymbolError::SpaceInName)
    );
    assert_eq!(Symbol::new_global("a b".to_string(), &mut i).err(), Some(SymbolError::SpaceInName));
    let ns = Symbol::new_global("ns".to_string(), &mut i).unwrap();
    assert_eq!(Symbol::new_local("x ".to_string(), ns, &mut i).err(), Some(SymbolError::SpaceInName));
    assert!(OwnedSymbol::new_global("a\tb".to_string()).is_ok());
    assert!(OwnedSymbol::new_global(String::new()).is_ok());
}

#[test]
fn owned_symbols_order_by_their_chains() {
    let a = owned(&["a"]);
    let b = owned(&["b"]);
    let a_x = owned(&["a", "x"]);
    let b_x = owned(&["b", "x"]);
    let a_y = owned(&["a", "y"]);

    assert_eq!(a.compare(&b), Ordering::Less);
    assert_eq!(b.compare(&a), Ordering::Greater);
    assert_eq!(a.compare(&owned(&["a"])), Ordering::Equal);
    assert_eq!(a_x.compare(&a), Ordering::Less);
    assert_eq!(a.compare(&a_x), Ordering::Greater);
    assert_eq!(a_x.compare(&b_x), Ordering::Less);
    assert_eq!(a_x.compare(&a_y), Ordering::Less);
    assert_eq!(b_x.compare(&a_y), Ordering::Less);
    assert_eq!(owned(&["ab"]).compare(&owned(&["abc"])), Ordering::Less);
    assert_eq!(owned(&["é"]).compare(&owned(&["z"])), Ordering::Greater);
    for (x, y) in [(&a, &b), (&a_x, &a), (&a_x, &b_x), (&a_x, &a_y), (&b_x, &a_y), (&a, &a)] {
        assert_eq!(x.compare(y), x.cmp(y));
        assert_eq!(y.compare(x), y.cmp(x));
    }
}

#[test]
fn symbols_order_by_their_chains_first() {
    let mut i = Interpreter::new();
    let mut j = Interpreter::new();
    let a = bound(&["a"], &mut i);
    let b = bound(&["b"], &mut j);
    let a_x = bound(&["a", "x"], &mut i);

    assert_eq!(a.compare(&b), Ordering::Less);
    assert_eq!(b.partial_cmp(&a), Some(Ordering::Greater));
    assert!(a < b);
    assert!(a_x < a);
    assert_eq!(a.compare(&bound(&["a"], &mut i)), Ordering::Equal);
    let elsewhere = bound(&["a"], &mut j);
    assert!(a.compare(&elsewhere) != Ordering::Equal);
    assert_eq!(a.compare(&elsewhere), elsewhere.compare(&a).reverse());
    drop(j);
    assert_eq!(elsewhere.compare(&a), Ordering::Less);
    assert_eq!(a.compare(&elsewhere), Ordering::Greater);
}

fn hash_of(s: &Symbol) -> u64 {
    let mut h = DefaultHasher::new();
    s.hash(&mut h);
    h.finish()
}

#[test]
fn symbols_hash_by_their_chains() {
    let mut i = Interpreter::new();
    let a = bound(&["ns", "a"], &mut i);
    let b = bound(&["ns", "a"], &mut i);

    assert!(a == b);
    assert_eq!(hash_of(&a), hash_of(&b));
}

#[test]
fn table_interns_each_name_once() {
    let mut table = SymbolTable::new();
    let a1 = table.intern_global("a".to_string());
    let b = table.intern_global("b".to_string());
    let a2 = table.intern_global("a".to_string());

    assert!(Arc::ptr_eq(&a1, &a2));
    assert!(!Arc::ptr_eq(&a1, &b));
    assert_eq!(*a1, "a");
    assert_eq!(*b, "b");
    assert!(table.find_global(&"a".to_string()).is_some());
    assert!(table.find_global(&"c".to_string()).is_none());
    let ns = owned(&["ns"]);
    let other = owned(&["other"]);
    let l1 = table.intern_local(&ns, "a".to_string());
    let l2 = table.intern_local(&ns, "a".to_string());
    let l3 = table.intern_local(&other, "a".to_string());
    let l4 = table.intern_local(&ns, "b".to_string());
    assert!(Arc::ptr_eq(&l1, &l2));
    assert!(!Arc::ptr_eq(&l1, &l3));
    assert!(!Arc::ptr_eq(&l1, &a1));
    assert!(!Arc::ptr_eq(&l1, &l4));
    assert_eq!(*l3, "a");
    assert_eq!(*l4, "b");
    assert!(Arc::ptr_eq(&table.intern_global("b".to_string()), &b));
}

#[test]
fn equality_given_what_the_links_say() {
    let mut i = Interpreter::new();
    let mut j = Interpreter::new();
    let a = bound(&["ns", "a"], &mut i);
    let same = bound(&["ns", "a"], &mut i);
    let elsewhere = bound(&["ns", "a"], &mut j);
    let b = bound(&["ns", "b"], &mut i);

    assert!(a.equals_given(&same, true));
    assert!(!a.equals_given(&same, false));
    assert!(a.equals_given(&elsewhere, true));
    assert!(!a.equals_given(&b, true));
    assert!(!a.equals_given(&b, false));
    assert!(a.links_agree(&same));
    assert!(a.links_agree(&b));
    assert!(!a.links_agree(&elsewhere));
    assert!(!a.links_agree(&bound(&["ns"], &mut i)));
    assert!(a.equals(&same));
    assert!(!a.equals(&elsewhere));
    assert!(!a.equals(&b));
    let mixed = Symbol::new_local("a".to_string(), bound(&["ns"], &mut j), &mut i).unwrap();
    assert!(a.same_chain(&mixed));
    assert!(!a.links_agree(&mixed));
    assert!(!a.equals(&mixed));
    drop(i);
    assert!(!a.links_agree(&same));
    assert!(!a.equals(&same));
}

#[test]
fn links_given_what_they_answered() {
    let one = Arc::new(std::sync::RwLock::new(SymbolTable::new()));
    let other = Arc::new(std::sync::RwLock::new(SymbolTable::new()));

    assert!(dermis::interpreter::TableLink::same_table(&Some(one.clone()), &Some(one.clone())));
    assert!(!dermis::interpreter::TableLink::same_table(&Some(one.clone()), &Some(other)));
    assert!(!dermis::interpreter::TableLink::same_table(&Some(one.clone()), &None));
    assert!(!dermis::interpreter::TableLink::same_table(&None, &Some(one)));
    assert!(!dermis::interpreter::TableLink::same_table(&None, &None));
    assert_eq!(dermis::interpreter::TableLink::places_order(None, None), Ordering::Equal);
    assert_eq!(dermis::interpreter::TableLink::places_order(None, Some(0)), Ordering::Less);
    assert_eq!(dermis::interpreter::TableLink::places_order(Some(0), None), Ordering::Greater);
    assert_eq!(dermis::interpreter::TableLink::places_order(Some(1), Some(2)), Ordering::Less);
    assert_eq!(dermis::interpreter::TableLink::places_order(Some(2), Some(2)), Ordering::Equal);
    assert_eq!(dermis::interpreter::TableLink::places_order(Some(3), Some(2)), Ordering::Greater);
}

#[test]
fn links_of_one_interpreter() {
    let i = Interpreter::new();
    let j = Interpreter::new();
    let a = i.link();
    let b = i.link();
    let c = j.link();

    assert!(a.same_live_table(&b));
    assert!(a.same_live_table(&a.clone()));
    assert!(!a.same_live_table(&c));
    assert_eq!(a.position(&b), Ordering::Equal);
    assert!(a.position(&c) != Ordering::Equal);
    assert_eq!(a.position(&c), c.position(&a).reverse());
    drop(i);
    assert!(!a.same_live_table(&b));
    assert_eq!(a.position(&b), Ordering::Equal);
    assert_eq!(a.position(&c), Ordering::Less);
    assert_eq!(c.position(&a), Ordering::Greater);
}
