//! The order of values.
//!
//! Values of different kinds go by their kind: numbers first, then
//! strings, symbols, arrays and objects. Numbers go by their integer
//! parts, strings by their characters, symbols by their chains of names,
//! arrays item by item, and objects entry by entry in their own order, each
//! entry by its key and then by its value. That is the order of what the
//! values are in contracts, and the order of owned values. Between values
//! that are linked to an interpreter, symbols of one chain of names are
//! told apart by their links as well.

use crate::value::array::Array;
use crate::value::number::order_of;
use crate::value::number::whole_part;
use crate::value::object::Object;
use crate::value::order_laws::law_order_chains;
use crate::value::order_laws::law_order_equal_alike;
use crate::value::order_laws::law_order_flips;
use crate::value::order_laws::law_order_itself;
use crate::value::owned::array::OwnedArray;
use crate::value::owned::object::OwnedObject;
use crate::value::owned::value::OwnedValue;
use crate::value::symbol::name::compare_text;
use crate::value::symbol::name::flipped;
use crate::value::symbol::name::text_order;
use crate::value::value::Value;
use crate::value::view::place;
use crate::value::view::ValueView;
use core::cmp::Ordering;
use std::sync::Arc;
use vstd::prelude::*;
use vstd::std_specs::cmp::PartialOrdSpecImpl;

verus! {

impl ValueView {
    /// How this value stands to `other`.
    pub open spec fn order(self, other: ValueView) -> Ordering
        decreases self, 0nat,
    {
        match self {
            ValueView::Number(a) => match other {
                ValueView::Number(b) => order_of(whole_part(a), whole_part(b)),
                _ => Ordering::Less,
            },
            ValueView::String(a) => match other {
                ValueView::Number(_) => Ordering::Greater,
                ValueView::String(b) => text_order(a, b),
                _ => Ordering::Less,
            },
            ValueView::Symbol(a) => match other {
                ValueView::Number(_) => Ordering::Greater,
                ValueView::String(_) => Ordering::Greater,
                ValueView::Symbol(b) => a.order(b),
                _ => Ordering::Less,
            },
            ValueView::Array(a) => match other {
                ValueView::Array(b) => items_order(a, b, 0),
                ValueView::Object(_) => Ordering::Less,
                _ => Ordering::Greater,
            },
            ValueView::Object(a) => match other {
                ValueView::Object(b) => entries_order(a, b, 0),
                _ => Ordering::Greater,
            },
        }
    }
}

/// How the items of `a` from place `from` on stand to those of `b` from
/// that place on: by the first place in which they differ, and the shorter
/// row first where the one is the beginning of the other.
pub open spec fn items_order(a: Seq<ValueView>, b: Seq<ValueView>, from: int) -> Ordering
    decreases a, a.len() - from,
{
    if from < 0 || from >= a.len() {
        if from >= b.len() {
            Ordering::Equal
        } else {
            Ordering::Less
        }
    } else if from >= b.len() {
        Ordering::Greater
    } else if a[from].order(b[from]) != Ordering::Equal {
        a[from].order(b[from])
    } else {
        items_order(a, b, from + 1)
    }
}

/// How the entry `a` stands to the entry `b`: by their keys, and by their
/// values where the keys stand equal.
pub open spec fn entry_order(a: (ValueView, ValueView), b: (ValueView, ValueView)) -> Ordering
    decreases a, 1nat,
{
    if a.0.order(b.0) != Ordering::Equal {
        a.0.order(b.0)
    } else {
        a.1.order(b.1)
    }
}

/// How the entries of `a` from place `from` on stand to those of `b` from
/// that place on.
pub open spec fn entries_order(
    a: Seq<(ValueView, ValueView)>,
    b: Seq<(ValueView, ValueView)>,
    from: int,
) -> Ordering
    decreases a, a.len() - from,
{
    if from < 0 || from >= a.len() {
        if from >= b.len() {
            Ordering::Equal
        } else {
            Ordering::Less
        }
    } else if from >= b.len() {
        Ordering::Greater
    } else if entry_order(a[from], b[from]) != Ordering::Equal {
        entry_order(a[from], b[from])
    } else {
        entries_order(a, b, from + 1)
    }
}

impl ValueView {
    /// The place of the value's kind among the kinds.
    pub open spec fn kind(self) -> int {
        match self {
            ValueView::Number(_) => 0,
            ValueView::String(_) => 1,
            ValueView::Symbol(_) => 2,
            ValueView::Array(_) => 3,
            ValueView::Object(_) => 4,
        }
    }
}

/// Whether `order` is an order: seen from the other side it says the
/// opposite, what is before something that is before a third is before the
/// third, and what stands equal to something stands to everything as that
/// does.
pub open spec fn orderly(order: spec_fn(ValueView, ValueView) -> Ordering) -> bool {
    &&& forall|a: ValueView, b: ValueView| #[trigger] order(b, a) == flipped(order(a, b))
    &&& forall|a: ValueView, b: ValueView, c: ValueView|
        #[trigger] order(a, b) == Ordering::Less && #[trigger] order(b, c) == Ordering::Less
            ==> order(a, c) == Ordering::Less
    &&& forall|a: ValueView, b: ValueView, c: ValueView|
        #[trigger] order(a, b) == Ordering::Equal ==> #[trigger] order(a, c) == order(b, c)
}

/// Whether no item of `items` comes before an earlier one in `order`.
pub open spec fn ascending_by(
    order: spec_fn(ValueView, ValueView) -> Ordering,
    items: Seq<ValueView>,
) -> bool {
    forall|i: int, j: int|
        0 <= i < j < items.len() ==> order(#[trigger] items[i], #[trigger] items[j])
            != Ordering::Greater
}

/// The order of values is an order.
pub proof fn law_order_is_orderly()
    ensures
        orderly(|a: ValueView, b: ValueView| a.order(b)),
{
    let order = |a: ValueView, b: ValueView| a.order(b);
    assert forall|a: ValueView, b: ValueView| #[trigger] order(b, a) == flipped(order(a, b)) by {
        law_order_flips(a, b);
    }
    assert forall|a: ValueView, b: ValueView, c: ValueView|
        #[trigger] order(a, b) == Ordering::Less && #[trigger] order(b, c)
            == Ordering::Less implies order(a, c) == Ordering::Less by {
        law_order_chains(a, b, c);
    }
    assert forall|a: ValueView, b: ValueView, c: ValueView|
        #[trigger] order(a, b) == Ordering::Equal implies #[trigger] order(a, c) == order(b, c) by {
        law_order_equal_alike(a, b, c);
    }
}

/// Whether no item of `items` comes before an earlier one.
pub open spec fn ascending(items: Seq<ValueView>) -> bool {
    forall|i: int, j: int|
        0 <= i < j < items.len() ==> (#[trigger] items[i]).order(#[trigger] items[j])
            != Ordering::Greater
}

impl Value {
    /// How this value stands to `other`, whatever their symbols are linked to.
    pub fn compare_shape(&self, other: &Value) -> (r: Ordering)
        ensures
            r == self@.order(other@),
        decreases self@, 1nat,
    {
        match self {
            Value::Number(a) => match other {
                Value::Number(b) => a.compare(b),
                _ => Ordering::Less,
            },
            Value::String(a) => match other {
                Value::Number(_) => Ordering::Greater,
                Value::String(b) => compare_text(a.as_str(), b.as_str()),
                _ => Ordering::Less,
            },
            Value::Symbol(a) => match other {
                Value::Number(_) => Ordering::Greater,
                Value::String(_) => Ordering::Greater,
                Value::Symbol(b) => a.compare_chain(b),
                _ => Ordering::Less,
            },
            Value::Array(a) => match other {
                Value::Array(b) => {
                    proof {
                        assert(decreases_to!(self@ => self@->Array_0));
                    }
                    a.compare_shape(b)
                },
                Value::Object(_) => Ordering::Less,
                _ => Ordering::Greater,
            },
            Value::Object(a) => match other {
                Value::Object(b) => {
                    proof {
                        assert(decreases_to!(self@ => self@->Object_0));
                    }
                    a.compare_shape(b)
                },
                _ => Ordering::Greater,
            },
        }
    }
}

impl Array {
    /// How this array stands to `other`, whatever their symbols are linked to: by the first place in which they
    /// differ, and the shorter one first where it is the beginning of the
    /// other.
    pub fn compare_shape(&self, other: &Array) -> (r: Ordering)
        ensures
            r == items_order(self@, other@, 0),
        decreases self@, 0nat,
    {
        let n = self.len();
        let m = other.len();
        let mut i: usize = 0;
        while i < n && i < m
            invariant
                n == self@.len(),
                m == other@.len(),
                i <= n,
                i <= m,
                items_order(self@, other@, 0) == items_order(self@, other@, place(i)),
            decreases n - i,
        {
            let mine = self.get_unwrapped(i);
            let theirs = other.get_unwrapped(i);
            proof {
                assert(decreases_to!(self@ => self@[place(i)]));
            }
            match mine.compare_shape(&theirs) {
                Ordering::Equal => {},
                Ordering::Less => {
                    return Ordering::Less;
                },
                Ordering::Greater => {
                    return Ordering::Greater;
                },
            }
            i += 1;
        }
        if i < m {
            Ordering::Less
        } else if i < n {
            Ordering::Greater
        } else {
            Ordering::Equal
        }
    }
}

/// Whether `judge` says of every two values what `order` says of what
/// they are in contracts.
pub open spec fn follows<F: Fn(&Value, &Value) -> Ordering>(
    judge: F,
    order: spec_fn(ValueView, ValueView) -> Ordering,
) -> bool {
    forall|a: &Value, b: &Value, out: Ordering| #[trigger]
        judge.ensures((a, b), out) ==> out == order(a@, b@)
}

/// `sort_by` of std for slices, which puts the handles in the order that
/// `judge` gives: the same handles, each as often as before, and none
/// before an earlier one in whatever order `judge` follows. It is called
/// only with a `judge` that follows an order, as std asks.
#[verifier::external_body]
fn sort_handles_by<F: Fn(&Value, &Value) -> Ordering>(
    items: Vec<Arc<Value>>,
    judge: F,
) -> (r: Vec<Arc<Value>>)
    requires
        forall|a: &Value, b: &Value| judge.requires((a, b)),
        exists|order: spec_fn(ValueView, ValueView) -> Ordering|
            orderly(order) && #[trigger] follows(judge, order),
    ensures
        r@.map_values(|item: Arc<Value>| item@).to_multiset() == items@.map_values(
            |item: Arc<Value>| item@,
        ).to_multiset(),
        forall|order: spec_fn(ValueView, ValueView) -> Ordering|
            orderly(order) && #[trigger] follows(judge, order) ==> ascending_by(
                order,
                r@.map_values(|item: Arc<Value>| item@),
            ),
{
    let mut items = items;
    items.sort_by(|a, b| judge(&**a, &**b));
    items
}

impl Array {
    /// The same items in the order that `judge` gives: each as often as
    /// before, and none before an earlier one. `judge` has to follow an
    /// order: to say of every two values what one order says of what they
    /// are.
    ///
    /// The items are sorted by the standard library and the array is built
    /// anew from them: the sort of im does not always leave its items in
    /// order.
    pub fn sort_by<F: Fn(&Value, &Value) -> Ordering>(&self, judge: F) -> (r: Array)
        requires
            forall|a: &Value, b: &Value| judge.requires((a, b)),
            exists|order: spec_fn(ValueView, ValueView) -> Ordering|
                orderly(order) && #[trigger] follows(judge, order),
        ensures
            r@.to_multiset() == self@.to_multiset(),
            forall|order: spec_fn(ValueView, ValueView) -> Ordering|
                orderly(order) && #[trigger] follows(judge, order) ==> ascending_by(order, r@),
    {
        let sorted = sort_handles_by(self.to_vec(), judge);
        let ghost target = sorted@.map_values(|item: Arc<Value>| item@);
        let n = sorted.len();
        let mut r = Array::new();
        let mut i: usize = 0;
        while i < n
            invariant
                n == sorted@.len(),
                i <= n,
                target == sorted@.map_values(|item: Arc<Value>| item@),
                r@ == target.subrange(0, place(i)),
            decreases n - i,
        {
            r.push_back_shared(sorted[i].clone());
            proof {
                assert(r@ =~= target.subrange(0, place(i) + 1));
            }
            i += 1;
        }
        proof {
            assert(r@ =~= target);
        }
        r
    }

    /// The same items in the order of values: each as often as before,
    /// and none before an earlier one.
    /// Symbols go by their chains of names here, whatever they are linked
    /// to: symbols of one chain stay in the order in which they were.
    pub fn sort(&self) -> (r: Array)
        ensures
            r@.to_multiset() == self@.to_multiset(),
            ascending(r@),
    {
        let judge = |a: &Value, b: &Value| -> (out: Ordering)
            ensures
                out == a@.order(b@),
            { a.compare_shape(b) };
        let ghost order = |a: ValueView, b: ValueView| a.order(b);
        proof {
            law_order_is_orderly();
            assert(follows(judge, order));
        }
        let r = self.sort_by(judge);
        proof {
            assert(ascending_by(order, r@));
        }
        r
    }
}

impl Object {
    /// How this object stands to `other`, whatever their symbols are linked to: entry by entry, each in the
    /// order in which its object hands it out.
    pub fn compare_shape(&self, other: &Object) -> (r: Ordering)
        ensures
            r == entries_order(self@, other@, 0),
        decreases self@, 0nat,
    {
        let mine = self.entries();
        let theirs = other.entries();
        let n = mine.len();
        let m = theirs.len();
        let mut i: usize = 0;
        while i < n && i < m
            invariant
                n == mine@.len(),
                n == self@.len(),
                m == theirs@.len(),
                m == other@.len(),
                i <= n,
                i <= m,
                mine@.map_values(|e: (Arc<Value>, Arc<Value>)| (e.0@, e.1@)) == self@,
                theirs@.map_values(|e: (Arc<Value>, Arc<Value>)| (e.0@, e.1@)) == other@,
                entries_order(self@, other@, 0) == entries_order(self@, other@, place(i)),
            decreases n - i,
        {
            proof {
                assert(mine@.map_values(|e: (Arc<Value>, Arc<Value>)| (e.0@, e.1@))[place(i)]
                    == self@[place(i)]);
                assert(theirs@.map_values(|e: (Arc<Value>, Arc<Value>)| (e.0@, e.1@))[place(
                    i,
                )] == other@[place(i)]);
                assert(decreases_to!(self@ => self@[place(i)]));
                assert(decreases_to!(self@[place(i)] => self@[place(i)].0));
                assert(decreases_to!(self@[place(i)] => self@[place(i)].1));
                let a = self@[place(i)];
                let b = other@[place(i)];
                assert(entry_order(a, b) == if a.0.order(b.0) != Ordering::Equal {
                    a.0.order(b.0)
                } else {
                    a.1.order(b.1)
                });
            }
            match mine[i].0.compare_shape(&theirs[i].0) {
                Ordering::Equal => {},
                Ordering::Less => {
                    return Ordering::Less;
                },
                Ordering::Greater => {
                    return Ordering::Greater;
                },
            }
            match mine[i].1.compare_shape(&theirs[i].1) {
                Ordering::Equal => {},
                Ordering::Less => {
                    return Ordering::Less;
                },
                Ordering::Greater => {
                    return Ordering::Greater;
                },
            }
            i += 1;
        }
        if i < m {
            Ordering::Less
        } else if i < n {
            Ordering::Greater
        } else {
            Ordering::Equal
        }
    }
}

impl Value {
    /// How this value stands to `other`. Values of different kinds go by
    /// their kinds, and values without symbols as the order of values has
    /// it. Symbols go by their chains of names where those differ, and by
    /// their links where they do not, so that a symbol stands equal only
    /// to symbols of its own chain; and values stand equal only where the
    /// order of values has them equal.
    pub fn compare(&self, other: &Value) -> (r: Ordering)
        ensures
            self@.symbol_free() || other@.symbol_free() ==> r == self@.order(other@),
            self@.kind() != other@.kind() ==> r == self@.order(other@),
            self@ is Symbol && self@.order(other@) != Ordering::Equal ==> r == self@.order(other@),
            r == Ordering::Equal ==> self@.order(other@) == Ordering::Equal,
            r == Ordering::Equal && self@ is Symbol ==> self@ == other@,
        decreases self@, 1nat,
    {
        match self {
            Value::Number(a) => match other {
                Value::Number(b) => a.compare(b),
                _ => Ordering::Less,
            },
            Value::String(a) => match other {
                Value::Number(_) => Ordering::Greater,
                Value::String(b) => compare_text(a.as_str(), b.as_str()),
                _ => Ordering::Less,
            },
            Value::Symbol(a) => match other {
                Value::Number(_) => Ordering::Greater,
                Value::String(_) => Ordering::Greater,
                Value::Symbol(b) => {
                    proof {
                        law_order_itself(self@);
                    }
                    a.compare(b)
                },
                _ => Ordering::Less,
            },
            Value::Array(a) => match other {
                Value::Array(b) => {
                    proof {
                        assert(decreases_to!(self@ => self@->Array_0));
                    }
                    a.compare(b)
                },
                Value::Object(_) => Ordering::Less,
                _ => Ordering::Greater,
            },
            Value::Object(a) => match other {
                Value::Object(b) => {
                    proof {
                        assert(decreases_to!(self@ => self@->Object_0));
                    }
                    a.compare(b)
                },
                _ => Ordering::Greater,
            },
        }
    }
}

impl Array {
    /// How this array stands to `other`, item by item as values stand to
    /// each other with their links: by the first place in which they
    /// differ, and the shorter one first where it is the beginning of the
    /// other.
    pub fn compare(&self, other: &Array) -> (r: Ordering)
        ensures
            ValueView::Array(self@).symbol_free() || ValueView::Array(other@).symbol_free() ==> r
                == items_order(self@, other@, 0),
            r == Ordering::Equal ==> items_order(self@, other@, 0) == Ordering::Equal,
        decreases self@, 0nat,
    {
        let n = self.len();
        let m = other.len();
        let mut i: usize = 0;
        while i < n && i < m
            invariant
                n == self@.len(),
                m == other@.len(),
                i <= n,
                i <= m,
                items_order(self@, other@, 0) == items_order(self@, other@, place(i)),
            decreases n - i,
        {
            let mine = self.get_unwrapped(i);
            let theirs = other.get_unwrapped(i);
            proof {
                assert(decreases_to!(self@ => self@[place(i)]));
                let here = ValueView::Array(self@);
                let there = ValueView::Array(other@);
                assert(here.symbol_free() ==> (#[trigger] here->Array_0[place(i)]).symbol_free());
                assert(there.symbol_free() ==> (#[trigger] there->Array_0[place(i)]).symbol_free());
            }
            match mine.compare(&theirs) {
                Ordering::Equal => {},
                Ordering::Less => {
                    return Ordering::Less;
                },
                Ordering::Greater => {
                    return Ordering::Greater;
                },
            }
            i += 1;
        }
        if i < m {
            Ordering::Less
        } else if i < n {
            Ordering::Greater
        } else {
            Ordering::Equal
        }
    }
}

impl Object {
    /// How this object stands to `other`, entry by entry as values stand
    /// to each other with their links, each entry in the order in which
    /// its object hands it out.
    pub fn compare(&self, other: &Object) -> (r: Ordering)
        ensures
            ValueView::Object(self@).symbol_free() || ValueView::Object(other@).symbol_free() ==> r
                == entries_order(self@, other@, 0),
            r == Ordering::Equal ==> entries_order(self@, other@, 0) == Ordering::Equal,
        decreases self@, 0nat,
    {
        let mine = self.entries();
        let theirs = other.entries();
        let n = mine.len();
        let m = theirs.len();
        let mut i: usize = 0;
        while i < n && i < m
            invariant
                n == mine@.len(),
                n == self@.len(),
                m == theirs@.len(),
                m == other@.len(),
                i <= n,
                i <= m,
                mine@.map_values(|e: (Arc<Value>, Arc<Value>)| (e.0@, e.1@)) == self@,
                theirs@.map_values(|e: (Arc<Value>, Arc<Value>)| (e.0@, e.1@)) == other@,
                entries_order(self@, other@, 0) == entries_order(self@, other@, place(i)),
            decreases n - i,
        {
            proof {
                assert(mine@.map_values(|e: (Arc<Value>, Arc<Value>)| (e.0@, e.1@))[place(i)]
                    == self@[place(i)]);
                assert(theirs@.map_values(|e: (Arc<Value>, Arc<Value>)| (e.0@, e.1@))[place(
                    i,
                )] == other@[place(i)]);
                assert(decreases_to!(self@ => self@[place(i)]));
                assert(decreases_to!(self@[place(i)] => self@[place(i)].0));
                assert(decreases_to!(self@[place(i)] => self@[place(i)].1));
                let a = self@[place(i)];
                let b = other@[place(i)];
                assert(entry_order(a, b) == if a.0.order(b.0) != Ordering::Equal {
                    a.0.order(b.0)
                } else {
                    a.1.order(b.1)
                });
                let here = ValueView::Object(self@);
                let there = ValueView::Object(other@);
                assert(here.symbol_free() ==> (#[trigger] here->Object_0[place(i)]).0.symbol_free()
                    && here->Object_0[place(i)].1.symbol_free());
                assert(there.symbol_free() ==> (#[trigger] there->Object_0[place(i)]).0.symbol_free()
                    && there->Object_0[place(i)].1.symbol_free());
            }
            match mine[i].0.compare(&theirs[i].0) {
                Ordering::Equal => {},
                Ordering::Less => {
                    return Ordering::Less;
                },
                Ordering::Greater => {
                    return Ordering::Greater;
                },
            }
            match mine[i].1.compare(&theirs[i].1) {
                Ordering::Equal => {},
                Ordering::Less => {
                    return Ordering::Less;
                },
                Ordering::Greater => {
                    return Ordering::Greater;
                },
            }
            i += 1;
        }
        if i < m {
            Ordering::Less
        } else if i < n {
            Ordering::Greater
        } else {
            Ordering::Equal
        }
    }
}

impl PartialOrd for Value {
    /// How this value stands to `other`, as [`compare`](Value::compare)
    /// has it; always some.
    fn partial_cmp(&self, other: &Value) -> (r: Option<Ordering>)
        ensures
            r is Some,
            self@.symbol_free() || other@.symbol_free() ==> r == Some(self@.order(other@)),
            self@.kind() != other@.kind() ==> r == Some(self@.order(other@)),
            r == Some(Ordering::Equal) ==> self@.order(other@) == Ordering::Equal,
    {
        Some(self.compare(other))
    }
}

impl PartialOrdSpecImpl for Value {
    /// Between symbols of one chain of names the links decide, and what
    /// they say is no function of the two values.
    open spec fn obeys_partial_cmp_spec() -> bool {
        false
    }

    open spec fn partial_cmp_spec(&self, other: &Value) -> Option<Ordering> {
        Some(self@.order(other@))
    }
}

impl PartialOrd for Array {
    /// How this array stands to `other`, as [`compare`](Array::compare)
    /// has it; always some.
    fn partial_cmp(&self, other: &Array) -> (r: Option<Ordering>)
        ensures
            r is Some,
            ValueView::Array(self@).symbol_free() || ValueView::Array(other@).symbol_free() ==> r
                == Some(items_order(self@, other@, 0)),
            r == Some(Ordering::Equal) ==> items_order(self@, other@, 0) == Ordering::Equal,
    {
        Some(self.compare(other))
    }
}

impl PartialOrdSpecImpl for Array {
    /// Between symbols of one chain of names the links decide, and what
    /// they say is no function of the two arrays.
    open spec fn obeys_partial_cmp_spec() -> bool {
        false
    }

    open spec fn partial_cmp_spec(&self, other: &Array) -> Option<Ordering> {
        Some(items_order(self@, other@, 0))
    }
}

impl PartialOrd for Object {
    /// How this object stands to `other`, as [`compare`](Object::compare)
    /// has it; always some.
    fn partial_cmp(&self, other: &Object) -> (r: Option<Ordering>)
        ensures
            r is Some,
            ValueView::Object(self@).symbol_free() || ValueView::Object(other@).symbol_free() ==> r
                == Some(entries_order(self@, other@, 0)),
            r == Some(Ordering::Equal) ==> entries_order(self@, other@, 0) == Ordering::Equal,
    {
        Some(self.compare(other))
    }
}

impl PartialOrdSpecImpl for Object {
    /// Between symbols of one chain of names the links decide, and what
    /// they say is no function of the two objects.
    open spec fn obeys_partial_cmp_spec() -> bool {
        false
    }

    open spec fn partial_cmp_spec(&self, other: &Object) -> Option<Ordering> {
        Some(entries_order(self@, other@, 0))
    }
}

impl OwnedValue {
    /// How this value stands to `other`.
    pub fn compare(&self, other: &OwnedValue) -> (r: Ordering)
        ensures
            r == self@.order(other@),
        decreases self@, 1nat,
    {
        match self {
            OwnedValue::Number(a) => match other {
                OwnedValue::Number(b) => a.compare(b),
                _ => Ordering::Less,
            },
            OwnedValue::String(a) => match other {
                OwnedValue::Number(_) => Ordering::Greater,
                OwnedValue::String(b) => compare_text(a.as_str(), b.as_str()),
                _ => Ordering::Less,
            },
            OwnedValue::Symbol(a) => match other {
                OwnedValue::Number(_) => Ordering::Greater,
                OwnedValue::String(_) => Ordering::Greater,
                OwnedValue::Symbol(b) => a.compare(b),
                _ => Ordering::Less,
            },
            OwnedValue::Array(a) => match other {
                OwnedValue::Array(b) => {
                    proof {
                        assert(decreases_to!(self@ => self@->Array_0));
                    }
                    a.compare(b)
                },
                OwnedValue::Object(_) => Ordering::Less,
                _ => Ordering::Greater,
            },
            OwnedValue::Object(a) => match other {
                OwnedValue::Object(b) => {
                    proof {
                        assert(decreases_to!(self@ => self@->Object_0));
                    }
                    a.compare(b)
                },
                _ => Ordering::Greater,
            },
        }
    }
}

impl OwnedArray {
    /// How this array stands to `other`: by the first place in which they
    /// differ, and the shorter one first where it is the beginning of the
    /// other.
    pub fn compare(&self, other: &OwnedArray) -> (r: Ordering)
        ensures
            r == items_order(self@, other@, 0),
        decreases self@, 0nat,
    {
        let n = self.len();
        let m = other.len();
        let mut i: usize = 0;
        while i < n && i < m
            invariant
                n == self@.len(),
                m == other@.len(),
                i <= n,
                i <= m,
                items_order(self@, other@, 0) == items_order(self@, other@, place(i)),
            decreases n - i,
        {
            let mine = self.get_unwrapped(i);
            let theirs = other.get_unwrapped(i);
            proof {
                assert(decreases_to!(self@ => self@[place(i)]));
            }
            match mine.compare(&theirs) {
                Ordering::Equal => {},
                Ordering::Less => {
                    return Ordering::Less;
                },
                Ordering::Greater => {
                    return Ordering::Greater;
                },
            }
            i += 1;
        }
        if i < m {
            Ordering::Less
        } else if i < n {
            Ordering::Greater
        } else {
            Ordering::Equal
        }
    }
}

/// Whether `judge` says of every two values what `order` says of what
/// they are in contracts.
pub open spec fn owned_follows<F: Fn(&OwnedValue, &OwnedValue) -> Ordering>(
    judge: F,
    order: spec_fn(ValueView, ValueView) -> Ordering,
) -> bool {
    forall|a: &OwnedValue, b: &OwnedValue, out: Ordering| #[trigger]
        judge.ensures((a, b), out) ==> out == order(a@, b@)
}

/// `sort_by` of std for slices, which puts the handles in the order that
/// `judge` gives: the same handles, each as often as before, and none
/// before an earlier one in whatever order `judge` follows. It is called
/// only with a `judge` that follows an order, as std asks.
#[verifier::external_body]
fn owned_sort_handles_by<F: Fn(&OwnedValue, &OwnedValue) -> Ordering>(
    items: Vec<Arc<OwnedValue>>,
    judge: F,
) -> (r: Vec<Arc<OwnedValue>>)
    requires
        forall|a: &OwnedValue, b: &OwnedValue| judge.requires((a, b)),
        exists|order: spec_fn(ValueView, ValueView) -> Ordering|
            orderly(order) && #[trigger] owned_follows(judge, order),
    ensures
        r@.map_values(|item: Arc<OwnedValue>| item@).to_multiset() == items@.map_values(
            |item: Arc<OwnedValue>| item@,
        ).to_multiset(),
        forall|order: spec_fn(ValueView, ValueView) -> Ordering|
            orderly(order) && #[trigger] owned_follows(judge, order) ==> ascending_by(
                order,
                r@.map_values(|item: Arc<OwnedValue>| item@),
            ),
{
    let mut items = items;
    items.sort_by(|a, b| judge(&**a, &**b));
    items
}

impl OwnedArray {
    /// The same items in the order that `judge` gives: each as often as
    /// before, and none before an earlier one. `judge` has to follow an
    /// order: to say of every two values what one order says of what they
    /// are.
    ///
    /// The items are sorted by the standard library and the array is built
    /// anew from them: the sort of im does not always leave its items in
    /// order.
    pub fn sort_by<F: Fn(&OwnedValue, &OwnedValue) -> Ordering>(&self, judge: F) -> (r: OwnedArray)
        requires
            forall|a: &OwnedValue, b: &OwnedValue| judge.requires((a, b)),
            exists|order: spec_fn(ValueView, ValueView) -> Ordering|
                orderly(order) && #[trigger] owned_follows(judge, order),
        ensures
            r@.to_multiset() == self@.to_multiset(),
            forall|order: spec_fn(ValueView, ValueView) -> Ordering|
                orderly(order) && #[trigger] owned_follows(judge, order) ==> ascending_by(order, r@),
    {
        let sorted = owned_sort_handles_by(self.to_vec(), judge);
        let ghost target = sorted@.map_values(|item: Arc<OwnedValue>| item@);
        let n = sorted.len();
        let mut r = OwnedArray::new();
        let mut i: usize = 0;
        while i < n
            invariant
                n == sorted@.len(),
                i <= n,
                target == sorted@.map_values(|item: Arc<OwnedValue>| item@),
                r@ == target.subrange(0, place(i)),
            decreases n - i,
        {
            r.push_back_shared(sorted[i].clone());
            proof {
                assert(r@ =~= target.subrange(0, place(i) + 1));
            }
            i += 1;
        }
        proof {
            assert(r@ =~= target);
        }
        r
    }

    /// The same items in the order of values: each as often as before,
    /// and none before an earlier one.
    pub fn sort(&self) -> (r: OwnedArray)
        ensures
            r@.to_multiset() == self@.to_multiset(),
            ascending(r@),
    {
        let judge = |a: &OwnedValue, b: &OwnedValue| -> (out: Ordering)
            ensures
                out == a@.order(b@),
            { a.compare(b) };
        let ghost order = |a: ValueView, b: ValueView| a.order(b);
        proof {
            law_order_is_orderly();
            assert(owned_follows(judge, order));
        }
        let r = self.sort_by(judge);
        proof {
            assert(ascending_by(order, r@));
        }
        r
    }
}

impl OwnedObject {
    /// How this object stands to `other`: entry by entry, each in the
    /// order in which its object hands it out.
    pub fn compare(&self, other: &OwnedObject) -> (r: Ordering)
        ensures
            r == entries_order(self@, other@, 0),
        decreases self@, 0nat,
    {
        let mine = self.entries();
        let theirs = other.entries();
        let n = mine.len();
        let m = theirs.len();
        let mut i: usize = 0;
        while i < n && i < m
            invariant
                n == mine@.len(),
                n == self@.len(),
                m == theirs@.len(),
                m == other@.len(),
                i <= n,
                i <= m,
                mine@.map_values(|e: (Arc<OwnedValue>, Arc<OwnedValue>)| (e.0@, e.1@)) == self@,
                theirs@.map_values(|e: (Arc<OwnedValue>, Arc<OwnedValue>)| (e.0@, e.1@)) == other@,
                entries_order(self@, other@, 0) == entries_order(self@, other@, place(i)),
            decreases n - i,
        {
            proof {
                assert(mine@.map_values(|e: (Arc<OwnedValue>, Arc<OwnedValue>)| (e.0@, e.1@))[place(i)]
                    == self@[place(i)]);
                assert(theirs@.map_values(|e: (Arc<OwnedValue>, Arc<OwnedValue>)| (e.0@, e.1@))[place(
                    i,
                )] == other@[place(i)]);
                assert(decreases_to!(self@ => self@[place(i)]));
                assert(decreases_to!(self@[place(i)] => self@[place(i)].0));
                assert(decreases_to!(self@[place(i)] => self@[place(i)].1));
                let a = self@[place(i)];
                let b = other@[place(i)];
                assert(entry_order(a, b) == if a.0.order(b.0) != Ordering::Equal {
                    a.0.order(b.0)
                } else {
                    a.1.order(b.1)
                });
            }
            match mine[i].0.compare(&theirs[i].0) {
                Ordering::Equal => {},
                Ordering::Less => {
                    return Ordering::Less;
                },
                Ordering::Greater => {
                    return Ordering::Greater;
                },
            }
            match mine[i].1.compare(&theirs[i].1) {
                Ordering::Equal => {},
                Ordering::Less => {
                    return Ordering::Less;
                },
                Ordering::Greater => {
                    return Ordering::Greater;
                },
            }
            i += 1;
        }
        if i < m {
            Ordering::Less
        } else if i < n {
            Ordering::Greater
        } else {
            Ordering::Equal
        }
    }
}

impl PartialOrd for OwnedValue {
    /// The order of values; always some.
    fn partial_cmp(&self, other: &OwnedValue) -> (r: Option<Ordering>) {
        Some(self.compare(other))
    }
}

impl PartialOrdSpecImpl for OwnedValue {
    open spec fn obeys_partial_cmp_spec() -> bool {
        true
    }

    open spec fn partial_cmp_spec(&self, other: &OwnedValue) -> Option<Ordering> {
        Some(self@.order(other@))
    }
}

impl PartialOrd for OwnedArray {
    /// The order of arrays, item by item; always some.
    fn partial_cmp(&self, other: &OwnedArray) -> (r: Option<Ordering>) {
        Some(self.compare(other))
    }
}

impl PartialOrdSpecImpl for OwnedArray {
    open spec fn obeys_partial_cmp_spec() -> bool {
        true
    }

    open spec fn partial_cmp_spec(&self, other: &OwnedArray) -> Option<Ordering> {
        Some(items_order(self@, other@, 0))
    }
}

impl PartialOrd for OwnedObject {
    /// The order of objects, entry by entry; always some.
    fn partial_cmp(&self, other: &OwnedObject) -> (r: Option<Ordering>) {
        Some(self.compare(other))
    }
}

impl PartialOrdSpecImpl for OwnedObject {
    open spec fn obeys_partial_cmp_spec() -> bool {
        true
    }

    open spec fn partial_cmp_spec(&self, other: &OwnedObject) -> Option<Ordering> {
        Some(entries_order(self@, other@, 0))
    }
}

} // verus!
