//! The value of the owned family.

use crate::value::number::Number;
use crate::value::owned::array::OwnedArray;
use crate::value::owned::object::OwnedObject;
use crate::value::owned::symbol::OwnedSymbol;
use crate::value::view::ValueView;
use vstd::prelude::*;
use vstd::std_specs::cmp::PartialEqSpecImpl;
use vstd::std_specs::convert::FromSpecImpl;
use vstd::string::StringExecFns;

verus! {

/// Any value of the language, with nothing in it that leads back to an
/// interpreter: it stays what it is when every interpreter is gone.
#[derive(Debug, Hash)]
pub enum OwnedValue {
    Number(Number),
    String(String),
    Symbol(OwnedSymbol),
    Array(OwnedArray),
    Object(OwnedObject),
}

impl View for OwnedValue {
    type V = ValueView;

    open spec fn view(&self) -> ValueView {
        match self {
            OwnedValue::Number(n) => ValueView::Number(n@),
            OwnedValue::String(s) => ValueView::String(s@),
            OwnedValue::Symbol(s) => ValueView::Symbol(s@),
            OwnedValue::Array(a) => ValueView::Array(a@),
            OwnedValue::Object(o) => ValueView::Object(o@),
        }
    }
}

impl PartialEq for OwnedValue {
    /// Whether the two values are equal: of one kind, and equal as that
    /// kind has it. Equal values are alike; and values without an object
    /// in them are equal exactly if they are alike. A symbol is equal to
    /// the symbols of its own chain of names and to nothing else.
    fn eq(&self, other: &OwnedValue) -> (r: bool)
        ensures
            r ==> self@.same(other@) && other@.same(self@),
            self@.object_free() ==> r == self@.same(other@),
            self@ is Symbol ==> r == (self@ == other@),
    {
        match self {
            OwnedValue::Number(a) => match other {
                OwnedValue::Number(b) => *a == *b,
                _ => false,
            },
            OwnedValue::String(a) => match other {
                OwnedValue::String(b) => *a == *b,
                _ => false,
            },
            OwnedValue::Symbol(a) => match other {
                OwnedValue::Symbol(b) => a.same(b),
                _ => false,
            },
            OwnedValue::Array(a) => match other {
                OwnedValue::Array(b) => *a == *b,
                _ => false,
            },
            OwnedValue::Object(a) => match other {
                OwnedValue::Object(b) => *a == *b,
                _ => false,
            },
        }
    }
}

impl Eq for OwnedValue {

}

impl PartialEqSpecImpl for OwnedValue {
    /// What `==` gives is no function of the two values where they hold
    /// objects.
    open spec fn obeys_eq_spec() -> bool {
        false
    }

    open spec fn eq_spec(&self, other: &OwnedValue) -> bool {
        self@.same(other@)
    }
}

impl Clone for OwnedValue {
    fn clone(&self) -> (r: OwnedValue)
        ensures
            r@ == self@,
    {
        match self {
            OwnedValue::Number(n) => OwnedValue::Number(*n),
            OwnedValue::String(s) => OwnedValue::String(s.clone()),
            OwnedValue::Symbol(s) => OwnedValue::Symbol(s.clone()),
            OwnedValue::Array(a) => OwnedValue::Array(a.clone()),
            OwnedValue::Object(o) => OwnedValue::Object(o.clone()),
        }
    }
}

impl From<Number> for OwnedValue {
    /// The value that is a number.
    fn from(val: Number) -> (r: OwnedValue) {
        OwnedValue::Number(val)
    }
}

impl FromSpecImpl<Number> for OwnedValue {
    open spec fn obeys_from_spec() -> bool {
        true
    }

    open spec fn from_spec(val: Number) -> OwnedValue {
        OwnedValue::Number(val)
    }
}

impl From<String> for OwnedValue {
    /// The value that is a string.
    fn from(val: String) -> (r: OwnedValue) {
        OwnedValue::String(val)
    }
}

impl FromSpecImpl<String> for OwnedValue {
    open spec fn obeys_from_spec() -> bool {
        true
    }

    open spec fn from_spec(val: String) -> OwnedValue {
        OwnedValue::String(val)
    }
}

impl From<OwnedSymbol> for OwnedValue {
    /// The value that is a symbol.
    fn from(val: OwnedSymbol) -> (r: OwnedValue) {
        OwnedValue::Symbol(val)
    }
}

impl FromSpecImpl<OwnedSymbol> for OwnedValue {
    open spec fn obeys_from_spec() -> bool {
        true
    }

    open spec fn from_spec(val: OwnedSymbol) -> OwnedValue {
        OwnedValue::Symbol(val)
    }
}

impl From<OwnedArray> for OwnedValue {
    /// The value that is an array.
    fn from(val: OwnedArray) -> (r: OwnedValue) {
        OwnedValue::Array(val)
    }
}

impl FromSpecImpl<OwnedArray> for OwnedValue {
    open spec fn obeys_from_spec() -> bool {
        true
    }

    open spec fn from_spec(val: OwnedArray) -> OwnedValue {
        OwnedValue::Array(val)
    }
}

impl From<OwnedObject> for OwnedValue {
    /// The value that is an object.
    fn from(val: OwnedObject) -> (r: OwnedValue) {
        OwnedValue::Object(val)
    }
}

impl FromSpecImpl<OwnedObject> for OwnedValue {
    open spec fn obeys_from_spec() -> bool {
        true
    }

    open spec fn from_spec(val: OwnedObject) -> OwnedValue {
        OwnedValue::Object(val)
    }
}

impl<'a> From<&'a str> for OwnedValue {
    /// The value that is a string with the text of `val`.
    fn from(val: &'a str) -> (r: OwnedValue)
        ensures
            r@ == ValueView::String(val@),
    {
        OwnedValue::String(String::from_str(val))
    }
}

impl<'a> FromSpecImpl<&'a str> for OwnedValue {
    open spec fn obeys_from_spec() -> bool {
        false
    }

    open spec fn from_spec(val: &'a str) -> OwnedValue {
        arbitrary()
    }
}

} // verus!
