//! A value of either family.

use crate::interpreter::Interpreter;
use crate::value::convert::law_carries_itself;
use crate::value::convert::law_mirrors_itself;
use crate::value::owned::value::OwnedValue;
use crate::value::symbol::name::SymbolError;
use crate::value::value::Value;
use crate::value::view::law_plain_is_bare;
use crate::value::view::ValueView;
use core::cmp::Ordering;
use vstd::prelude::*;
use vstd::std_specs::cmp::PartialEqSpecImpl;
use vstd::std_specs::cmp::PartialOrdSpecImpl;
use vstd::std_specs::convert::FromSpecImpl;

verus! {

/// Any sort of value, owned or bound to an interpreter.
///
/// Two of them are compared as the owned values that they are, or turn
/// into: a bound value and the owned value made of it are equal.
#[derive(Debug, Hash)]
pub enum AValue {
    Owned(OwnedValue),
    A(Value),
}

/// An [`AValue`] by its kind first: an owned value and a bound one are
/// never equal here, whatever they hold.
#[derive(Debug, Hash)]
pub enum VariantCmpAValue<'val> {
    Owned(&'val OwnedValue),
    A(&'val Value),
}

impl View for AValue {
    type V = ValueView;

    open spec fn view(&self) -> ValueView {
        match self {
            AValue::Owned(val) => val@,
            AValue::A(val) => val@,
        }
    }
}

impl<'val> View for VariantCmpAValue<'val> {
    type V = ValueView;

    open spec fn view(&self) -> ValueView {
        match self {
            VariantCmpAValue::Owned(val) => val@,
            VariantCmpAValue::A(val) => val@,
        }
    }
}

impl AValue {
    /// The owned value that this is, or turns into.
    pub fn into_owned(self) -> (r: OwnedValue)
        ensures
            match self {
                AValue::Owned(val) => r == val,
                AValue::A(val) => val@.mirrors(r@) && val@.carries(r@),
            },
    {
        match self {
            AValue::Owned(val) => val,
            AValue::A(val) => OwnedValue::from_value(&val),
        }
    }

    /// The value of `interpreter` that this is, or turns into. Only the
    /// interning of a symbol of an owned value can fail.
    pub fn into_unowned(self, interpreter: &mut Interpreter) -> (r: Result<Value, SymbolError>)
        ensures
            match self {
                AValue::Owned(val) => match r {
                    Ok(value) => val@.mirrors(value@) && val@.carries(value@) && value.linked_within(
                        old(interpreter).lock(),
                    ),
                    Err(e) => e == SymbolError::TableCorrupted && !val@.symbol_free(),
                },
                AValue::A(val) => r == Ok::<Value, SymbolError>(val),
            },
            final(interpreter).lock() == old(interpreter).lock(),
    {
        match self {
            AValue::Owned(val) => Value::from_owned(&val, interpreter),
            AValue::A(val) => Ok(val),
        }
    }

    /// This value by its kind first.
    pub fn cmp_variants(&self) -> (r: VariantCmpAValue<'_>)
        ensures
            r@ == self@,
            r is Owned == self is Owned,
    {
        match self {
            AValue::A(val) => VariantCmpAValue::A(val),
            AValue::Owned(val) => VariantCmpAValue::Owned(val),
        }
    }

    /// The owned value that this is, or a copy turned into one.
    pub fn to_owned_value(&self) -> (r: OwnedValue)
        ensures
            self@.mirrors(r@),
            self@.carries(r@),
            self is Owned ==> r@ == self@,
    {
        proof {
            law_mirrors_itself(self@);
            law_carries_itself(self@);
        }
        match self {
            AValue::Owned(val) => val.clone(),
            AValue::A(val) => OwnedValue::from_value(val),
        }
    }

    /// How this value stands to `other`, as owned values.
    pub fn compare(&self, other: &AValue) -> (r: Ordering)
        ensures
            exists|mine: ValueView, theirs: ValueView|
                self@.mirrors(mine) && other@.mirrors(theirs) && r == #[trigger] mine.order(theirs),
            self is Owned && other is Owned ==> r == self@.order(other@),
    {
        let mine = self.to_owned_value();
        let theirs = other.to_owned_value();
        let r = mine.compare(&theirs);
        assert(self@.mirrors(mine@) && other@.mirrors(theirs@) && r == mine@.order(theirs@));
        r
    }
}

impl Clone for AValue {
    fn clone(&self) -> (r: AValue)
        ensures
            r@ == self@,
            r is Owned == self is Owned,
    {
        match self {
            AValue::Owned(val) => AValue::Owned(val.clone()),
            AValue::A(val) => AValue::A(val.clone()),
        }
    }
}

impl PartialEq for AValue {
    /// Whether the owned values that the two are, or turn into, are equal.
    fn eq(&self, other: &AValue) -> (r: bool)
        ensures
            r ==> exists|mine: ValueView, theirs: ValueView|
                self@.mirrors(mine) && other@.mirrors(theirs) && #[trigger] mine.same(theirs),
            self is Owned && other is Owned ==> (r ==> self@.same(other@)) && (
            self@.object_free() ==> r == self@.same(other@)),
    {
        let mine = self.to_owned_value();
        let theirs = other.to_owned_value();
        let r = mine == theirs;
        assert(r ==> self@.mirrors(mine@) && other@.mirrors(theirs@) && mine@.same(theirs@));
        r
    }
}

impl Eq for AValue {

}

impl PartialEqSpecImpl for AValue {
    open spec fn obeys_eq_spec() -> bool {
        false
    }

    open spec fn eq_spec(&self, other: &AValue) -> bool {
        self@.same(other@)
    }
}

impl<'val> Clone for VariantCmpAValue<'val> {
    fn clone(&self) -> (r: VariantCmpAValue<'val>)
        ensures
            r == *self,
    {
        match self {
            VariantCmpAValue::Owned(val) => VariantCmpAValue::Owned(val),
            VariantCmpAValue::A(val) => VariantCmpAValue::A(val),
        }
    }
}

impl<'val> PartialEq for VariantCmpAValue<'val> {
    /// Whether the two are of one kind and, as that kind has it, equal.
    fn eq(&self, other: &VariantCmpAValue<'val>) -> (r: bool)
        ensures
            r ==> (self is Owned == other is Owned) && self@.same(other@),
            (self is Owned == other is Owned) && self@.plain() && self@.same(other@) ==> r,
            self is Owned && other is Owned && self@.object_free() ==> r == self@.same(other@),
    {
        proof {
            if self@.plain() {
                law_plain_is_bare(self@);
            }
        }
        match self {
            VariantCmpAValue::Owned(a) => match other {
                VariantCmpAValue::Owned(b) => **a == **b,
                VariantCmpAValue::A(_) => false,
            },
            VariantCmpAValue::A(a) => match other {
                VariantCmpAValue::Owned(_) => false,
                VariantCmpAValue::A(b) => **a == **b,
            },
        }
    }
}

impl<'val> Eq for VariantCmpAValue<'val> {

}

impl<'val> PartialEqSpecImpl for VariantCmpAValue<'val> {
    open spec fn obeys_eq_spec() -> bool {
        false
    }

    open spec fn eq_spec(&self, other: &VariantCmpAValue<'val>) -> bool {
        (self is Owned == other is Owned) && self@.same(other@)
    }
}

impl PartialOrd for AValue {
    /// How the owned values that the two are, or turn into, stand to each
    /// other; always some.
    fn partial_cmp(&self, other: &AValue) -> (r: Option<Ordering>)
        ensures
            exists|mine: ValueView, theirs: ValueView|
                self@.mirrors(mine) && other@.mirrors(theirs) && r == Some(
                    #[trigger] mine.order(theirs),
                ),
            self is Owned && other is Owned ==> r == Some(self@.order(other@)),
    {
        let r = self.compare(other);
        proof {
            let (mine, theirs) = choose|mine: ValueView, theirs: ValueView|
                self@.mirrors(mine) && other@.mirrors(theirs) && r == #[trigger] mine.order(theirs);
            assert(self@.mirrors(mine) && other@.mirrors(theirs) && Some(r) == Some(
                mine.order(theirs),
            ));
        }
        Some(r)
    }
}

impl PartialOrdSpecImpl for AValue {
    /// What a value of an interpreter turns into is no function of the
    /// value where it holds an object.
    open spec fn obeys_partial_cmp_spec() -> bool {
        false
    }

    open spec fn partial_cmp_spec(&self, other: &AValue) -> Option<Ordering> {
        Some(self@.order(other@))
    }
}

impl<'val> PartialOrd for VariantCmpAValue<'val> {
    /// How the two stand to each other: an owned value before every value
    /// of an interpreter, and two of one kind as that kind has it.
    fn partial_cmp(&self, other: &VariantCmpAValue<'val>) -> (r: Option<Ordering>)
        ensures
            r is Some,
            self is Owned && other is A ==> r == Some(Ordering::Less),
            self is A && other is Owned ==> r == Some(Ordering::Greater),
            self is Owned && other is Owned ==> r == Some(self@.order(other@)),
            self is A && other is A && (self@.symbol_free() || other@.symbol_free()) ==> r == Some(
                self@.order(other@),
            ),
            self is A && other is A && r == Some(Ordering::Equal) ==> self@.order(other@)
                == Ordering::Equal,
    {
        match self {
            VariantCmpAValue::Owned(a) => match other {
                VariantCmpAValue::Owned(b) => Some(a.compare(b)),
                VariantCmpAValue::A(_) => Some(Ordering::Less),
            },
            VariantCmpAValue::A(a) => match other {
                VariantCmpAValue::Owned(_) => Some(Ordering::Greater),
                VariantCmpAValue::A(b) => Some(a.compare(b)),
            },
        }
    }
}

impl<'val> PartialOrdSpecImpl for VariantCmpAValue<'val> {
    /// Between values of an interpreter the links of their symbols have a
    /// say, and what they say is no function of the two values.
    open spec fn obeys_partial_cmp_spec() -> bool {
        false
    }

    open spec fn partial_cmp_spec(&self, other: &VariantCmpAValue<'val>) -> Option<Ordering> {
        if self is Owned && other is A {
            Some(Ordering::Less)
        } else if self is A && other is Owned {
            Some(Ordering::Greater)
        } else {
            Some(self@.order(other@))
        }
    }
}

impl From<OwnedValue> for AValue {
    fn from(val: OwnedValue) -> (r: AValue) {
        AValue::Owned(val)
    }
}

impl FromSpecImpl<OwnedValue> for AValue {
    open spec fn obeys_from_spec() -> bool {
        true
    }

    open spec fn from_spec(val: OwnedValue) -> AValue {
        AValue::Owned(val)
    }
}

impl From<Value> for AValue {
    fn from(val: Value) -> (r: AValue) {
        AValue::A(val)
    }
}

impl FromSpecImpl<Value> for AValue {
    open spec fn obeys_from_spec() -> bool {
        true
    }

    open spec fn from_spec(val: Value) -> AValue {
        AValue::A(val)
    }
}

} // verus!
