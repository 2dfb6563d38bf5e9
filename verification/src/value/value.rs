//! The value of the language: a number, a string, a symbol, an array or an
//! object.

use crate::table::SymbolTable;
use crate::value::array::array_links;
use crate::value::array::Array;
use crate::value::number::Number;
use crate::value::object::object_links;
use crate::value::object::Object;
use crate::value::symbol::Symbol;
use crate::value::view::ValueView;
use std::sync::RwLock;
use vstd::prelude::*;
use vstd::std_specs::cmp::PartialEqSpecImpl;
use vstd::std_specs::convert::FromSpecImpl;
use vstd::string::StringExecFns;

verus! {

/// Any value of the language, bound to an interpreter through the symbols
/// that it holds.
///
/// There is no separate null: an object without entries stands for it.
#[derive(Debug, Hash)]
pub enum Value {
    /// A 64-bit float.
    Number(Number),
    /// A string.
    String(String),
    /// An interned name.
    Symbol(Symbol),
    /// Any number of values in order.
    Array(Array),
    /// A mapping from values to values.
    Object(Object),
}

impl View for Value {
    type V = ValueView;

    open spec fn view(&self) -> ValueView {
        match self {
            Value::Number(n) => ValueView::Number(n@),
            Value::String(s) => ValueView::String(s@),
            Value::Symbol(s) => ValueView::Symbol(s@),
            Value::Array(a) => ValueView::Array(a@),
            Value::Object(o) => ValueView::Object(o@),
        }
    }
}

impl Value {
    /// The locks of the symbol tables that the symbols in this value are
    /// linked to, at any depth and at every level of their namespaces.
    pub open spec fn links(self) -> Set<RwLock<SymbolTable>> {
        match self {
            Value::Symbol(symbol) => symbol.tables().to_set(),
            Value::Array(array) => array_links(array),
            Value::Object(object) => object_links(object),
            _ => Set::empty(),
        }
    }

    /// Whether every symbol in this value is linked to the table behind
    /// `lock`, and to no other.
    pub open spec fn linked_within(self, lock: RwLock<SymbolTable>) -> bool {
        forall|other: RwLock<SymbolTable>| #[trigger] self.links().contains(other) ==> other == lock
    }
}

impl PartialEq for Value {
    /// Whether the two values are equal: of one kind, and equal as that
    /// kind has it. Equal values are alike; and plain values that are
    /// alike are equal.
    fn eq(&self, other: &Value) -> (r: bool)
        ensures
            r ==> self@.same(other@) && other@.same(self@),
            self@.plain() && self@.same(other@) ==> r,
    {
        match self {
            Value::Number(a) => match other {
                Value::Number(b) => *a == *b,
                _ => false,
            },
            Value::String(a) => match other {
                Value::String(b) => *a == *b,
                _ => false,
            },
            Value::Symbol(a) => match other {
                Value::Symbol(b) => a.equals(b),
                _ => false,
            },
            Value::Array(a) => match other {
                Value::Array(b) => *a == *b,
                _ => false,
            },
            Value::Object(a) => match other {
                Value::Object(b) => *a == *b,
                _ => false,
            },
        }
    }
}

impl Eq for Value {

}

impl PartialEqSpecImpl for Value {
    /// What `==` gives is no function of the two values where they hold
    /// symbols or objects.
    open spec fn obeys_eq_spec() -> bool {
        false
    }

    open spec fn eq_spec(&self, other: &Value) -> bool {
        self@.same(other@)
    }
}

impl Clone for Value {
    fn clone(&self) -> (r: Value)
        ensures
            r@ == self@,
    {
        match self {
            Value::Number(n) => Value::Number(*n),
            Value::String(s) => Value::String(s.clone()),
            Value::Symbol(s) => Value::Symbol(s.clone()),
            Value::Array(a) => Value::Array(a.clone()),
            Value::Object(o) => Value::Object(o.clone()),
        }
    }
}

impl From<Number> for Value {
    /// The value that is a number.
    fn from(val: Number) -> (r: Value) {
        Value::Number(val)
    }
}

impl FromSpecImpl<Number> for Value {
    open spec fn obeys_from_spec() -> bool {
        true
    }

    open spec fn from_spec(val: Number) -> Value {
        Value::Number(val)
    }
}

impl From<String> for Value {
    /// The value that is a string.
    fn from(val: String) -> (r: Value) {
        Value::String(val)
    }
}

impl FromSpecImpl<String> for Value {
    open spec fn obeys_from_spec() -> bool {
        true
    }

    open spec fn from_spec(val: String) -> Value {
        Value::String(val)
    }
}

impl From<Symbol> for Value {
    /// The value that is a symbol.
    fn from(val: Symbol) -> (r: Value) {
        Value::Symbol(val)
    }
}

impl FromSpecImpl<Symbol> for Value {
    open spec fn obeys_from_spec() -> bool {
        true
    }

    open spec fn from_spec(val: Symbol) -> Value {
        Value::Symbol(val)
    }
}

impl From<Array> for Value {
    /// The value that is an array.
    fn from(val: Array) -> (r: Value) {
        Value::Array(val)
    }
}

impl FromSpecImpl<Array> for Value {
    open spec fn obeys_from_spec() -> bool {
        true
    }

    open spec fn from_spec(val: Array) -> Value {
        Value::Array(val)
    }
}

impl From<Object> for Value {
    /// The value that is an object.
    fn from(val: Object) -> (r: Value) {
        Value::Object(val)
    }
}

impl FromSpecImpl<Object> for Value {
    open spec fn obeys_from_spec() -> bool {
        true
    }

    open spec fn from_spec(val: Object) -> Value {
        Value::Object(val)
    }
}

impl<'a> From<&'a str> for Value {
    /// The value that is a string with the text of `val`.
    fn from(val: &'a str) -> (r: Value)
        ensures
            r@ == ValueView::String(val@),
    {
        Value::String(String::from_str(val))
    }
}

impl<'a> FromSpecImpl<&'a str> for Value {
    open spec fn obeys_from_spec() -> bool {
        false
    }

    open spec fn from_spec(val: &'a str) -> Value {
        arbitrary()
    }
}

} // verus!
