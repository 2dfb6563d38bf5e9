//! Arrays: any number of values in order, not necessarily of one kind.

use crate::table::SymbolTable;
use crate::value::object::get_null;
use crate::value::value::Value;
use crate::value::view::null_view;
use crate::value::view::reach;
use crate::value::view::ValueView;
use core::hash::Hash;
use core::hash::Hasher;
use std::sync::RwLock;
use std::sync::Arc;
use vstd::prelude::*;
use vstd::std_specs::convert::FromSpecImpl;
use vstd::std_specs::ops::AddSpecImpl;

verus! {

/// An ordered sequence of values.
///
/// The items live in a persistent vector of the im crate: a copy shares
/// its structure with the one it was made from, and an operation that does not take
/// `&mut self` leaves the array it is called on as it was.
#[verifier::external_body]
#[derive(Debug)]
pub struct Array {
    items: im::Vector<Value>,
}

/// The items that an array holds, first to last.
pub uninterp spec fn array_view(array: Array) -> Seq<ValueView>;

/// The locks of the symbol tables that the symbols in an array are linked
/// to, at any depth.
pub uninterp spec fn array_links(array: Array) -> Set<RwLock<SymbolTable>>;

impl View for Array {
    type V = Seq<ValueView>;

    open spec fn view(&self) -> Seq<ValueView> {
        array_view(*self)
    }
}

impl Array {
    /// `Vector::new` of im: a vector without items. No symbol is in it, and so no link.
    #[verifier::external_body]
    fn vector_new() -> (r: Array)
        ensures
            array_view(r) == Seq::<ValueView>::empty(),
            array_links(r) == Set::<RwLock<SymbolTable>>::empty(),
    {
        Array { items: im::Vector::new() }
    }

    /// An array without items. No symbol is in it, and so no link.
    pub fn new() -> (r: Array)
        ensures
            r@ == Seq::<ValueView>::empty(),
            array_links(r) == Set::<RwLock<SymbolTable>>::empty(),
    {
        Self::vector_new()
    }

    /// `Vector::from` of im for a `Vec`: the same items in the same
    /// order.
    #[verifier::external_body]
    fn vector_from(items: Vec<Value>) -> (r: Array)
        ensures
            array_view(r) == items@.map_values(|item: Value| item@),
    {
        Array { items: im::Vector::from(items) }
    }

    /// An array of the items of `items`, in their order.
    pub fn from_vec(items: Vec<Value>) -> (r: Array)
        ensures
            r@ == items@.map_values(|item: Value| item@),
    {
        Self::vector_from(items)
    }

    /// `Vector::iter` of im, collected: a handle to each item, first to
    /// last.
    #[verifier::external_body]
    fn vector_iter(&self) -> (r: Vec<Arc<Value>>)
        ensures
            r@.map_values(|item: Arc<Value>| item@) == array_view(*self),
    {
        self.items.iter().collect()
    }

    /// A handle to each item, first to last.
    pub fn to_vec(&self) -> (r: Vec<Arc<Value>>)
        ensures
            r@.map_values(|item: Arc<Value>| item@) == self@,
    {
        self.vector_iter()
    }

    /// `Vector::len` of im: the number of items.
    #[verifier::external_body]
    fn vector_len(&self) -> (r: usize)
        ensures
            r == array_view(*self).len(),
    {
        self.items.len()
    }

    /// The number of items.
    pub fn len(&self) -> (r: usize)
        ensures
            r == self@.len(),
    {
        self.vector_len()
    }

    /// `Vector::is_empty` of im: whether there is no item.
    #[verifier::external_body]
    fn vector_is_empty(&self) -> (r: bool)
        ensures
            r == (array_view(*self).len() == 0),
    {
        self.items.is_empty()
    }

    /// Whether there is no item.
    pub fn is_empty(&self) -> (r: bool)
        ensures
            r == (self@.len() == 0),
    {
        self.vector_is_empty()
    }

    /// `Vector::get` of im: the item at `index`, or `None` past the end.
    #[verifier::external_body]
    fn vector_get(&self, index: usize) -> (r: Option<Arc<Value>>)
        ensures
            match r {
                Some(item) => index < array_view(*self).len() && item@ == array_view(*self)[index as int],
                None => index >= array_view(*self).len(),
            },
    {
        self.items.get(index)
    }

    /// The item at `index`, or `None` past the end.
    pub fn get_opt(&self, index: usize) -> (r: Option<Arc<Value>>)
        ensures
            match r {
                Some(item) => index < self@.len() && item@ == self@[index as int],
                None => index >= self@.len(),
            },
    {
        self.vector_get(index)
    }

    /// `Vector::get_unwrapped` of im: the item at `index`, which must be
    /// there.
    #[verifier::external_body]
    fn vector_get_unwrapped(&self, index: usize) -> (r: Arc<Value>)
        requires
            index < self@.len(),
        ensures
            r@ == array_view(*self)[index as int],
    {
        self.items.get_unwrapped(index)
    }

    /// The item at `index`, which must be within the array.
    pub fn get_unwrapped(&self, index: usize) -> (r: Arc<Value>)
        requires
            index < self@.len(),
        ensures
            r@ == self@[index as int],
    {
        self.vector_get_unwrapped(index)
    }

    /// `Vector::head` of im: the first item, if there is one.
    #[verifier::external_body]
    fn vector_head(&self) -> (r: Option<Arc<Value>>)
        ensures
            match r {
                Some(item) => array_view(*self).len() > 0 && item@ == array_view(*self).first(),
                None => array_view(*self).len() == 0,
            },
    {
        self.items.head()
    }

    /// The first item, if there is one.
    pub fn head(&self) -> (r: Option<Arc<Value>>)
        ensures
            match r {
                Some(item) => self@.len() > 0 && item@ == self@.first(),
                None => self@.len() == 0,
            },
    {
        self.vector_head()
    }

    /// `Vector::tail` of im: all items but the first, if there is a first.
    #[verifier::external_body]
    fn vector_tail(&self) -> (r: Option<Array>)
        ensures
            match r {
                Some(rest) => array_view(*self).len() > 0 && array_view(rest) == array_view(*self).drop_first(),
                None => array_view(*self).len() == 0,
            },
    {
        self.items.tail().map(|items| Array { items })
    }

    /// All items but the first, if there is a first.
    pub fn tail(&self) -> (r: Option<Array>)
        ensures
            match r {
                Some(rest) => self@.len() > 0 && rest@ == self@.drop_first(),
                None => self@.len() == 0,
            },
    {
        self.vector_tail()
    }

    /// `Vector::last` of im: the last item, if there is one.
    #[verifier::external_body]
    fn vector_last(&self) -> (r: Option<Arc<Value>>)
        ensures
            match r {
                Some(item) => array_view(*self).len() > 0 && item@ == array_view(*self).last(),
                None => array_view(*self).len() == 0,
            },
    {
        self.items.last()
    }

    /// The last item, if there is one.
    pub fn last(&self) -> (r: Option<Arc<Value>>)
        ensures
            match r {
                Some(item) => self@.len() > 0 && item@ == self@.last(),
                None => self@.len() == 0,
            },
    {
        self.vector_last()
    }

    /// `Vector::init` of im: all items but the last, if there is a last.
    #[verifier::external_body]
    fn vector_init(&self) -> (r: Option<Array>)
        ensures
            match r {
                Some(rest) => array_view(*self).len() > 0 && array_view(rest) == array_view(*self).drop_last(),
                None => array_view(*self).len() == 0,
            },
    {
        self.items.init().map(|items| Array { items })
    }

    /// All items but the last, if there is a last.
    pub fn init(&self) -> (r: Option<Array>)
        ensures
            match r {
                Some(rest) => self@.len() > 0 && rest@ == self@.drop_last(),
                None => self@.len() == 0,
            },
    {
        self.vector_init()
    }

    /// `Vector::set` of im: the same items, but `value` at `index`,
    /// which must be within the vector.
    #[verifier::external_body]
    fn vector_set(&self, index: usize, value: Value) -> (r: Array)
        requires
            index < self@.len(),
        ensures
            array_view(r) == array_view(*self).update(index as int, value@),
    {
        Array { items: self.items.set(index, value) }
    }

    /// The same items, but `value` at `index`, which must be within the
    /// array.
    pub fn set(&self, index: usize, value: Value) -> (r: Array)
        requires
            index < self@.len(),
        ensures
            r@ == self@.update(index as int, value@),
    {
        self.vector_set(index, value)
    }

    /// `Vector::set_mut` of im: puts `value` at `index`, which must be
    /// within the vector.
    #[verifier::external_body]
    fn vector_set_mut(&mut self, index: usize, value: Value)
        requires
            index < old(self)@.len(),
        ensures
            array_view(*final(self)) == array_view(*old(self)).update(index as int, value@),
    {
        self.items.set_mut(index, value)
    }

    /// Puts `value` at `index`, which must be within the array.
    pub fn set_mut(&mut self, index: usize, value: Value)
        requires
            index < old(self)@.len(),
        ensures
            final(self)@ == old(self)@.update(index as int, value@),
    {
        self.vector_set_mut(index, value)
    }

    /// `Vector::push_back` of im: the same items with `value` after them.
    #[verifier::external_body]
    fn vector_push_back(&self, value: Value) -> (r: Array)
        ensures
            array_view(r) == array_view(*self).push(value@),
    {
        Array { items: self.items.push_back(value) }
    }

    /// The same items with `value` after them.
    pub fn push_back(&self, value: Value) -> (r: Array)
        ensures
            r@ == self@.push(value@),
    {
        self.vector_push_back(value)
    }

    /// `Vector::push_back_mut` of im: adds the value behind `value`
    /// after the last item.
    /// No link comes in but those of `value`.
    #[verifier::external_body]
    fn vector_push_back_mut(&mut self, value: Arc<Value>)
        ensures
            array_view(*final(self)) == array_view(*old(self)).push(value@),
            array_links(*final(self)).subset_of(array_links(*old(self)).union(value.links())),
    {
        self.items.push_back_mut(value)
    }

    /// Adds the value behind `value` after the last item, without
    /// copying it.
    /// No link comes in but those of `value`.
    pub fn push_back_shared(&mut self, value: Arc<Value>)
        ensures
            final(self)@ == old(self)@.push(value@),
            array_links(*final(self)).subset_of(array_links(*old(self)).union(value.links())),
    {
        self.vector_push_back_mut(value)
    }

    /// `Vector::push_front` of im: `value`, then the same items.
    #[verifier::external_body]
    fn vector_push_front(&self, value: Value) -> (r: Array)
        ensures
            array_view(r) == seq![value@] + array_view(*self),
    {
        Array { items: self.items.push_front(value) }
    }

    /// `value`, then the same items.
    pub fn push_front(&self, value: Value) -> (r: Array)
        ensures
            r@ == seq![value@] + self@,
    {
        self.vector_push_front(value)
    }

    /// `Vector::push_front_mut` of im: adds the value behind `value`
    /// before the first item.
    #[verifier::external_body]
    fn vector_push_front_mut(&mut self, value: Arc<Value>)
        ensures
            array_view(*final(self)) == seq![value@] + array_view(*old(self)),
    {
        self.items.push_front_mut(value)
    }

    /// Adds the value behind `value` before the first item, without
    /// copying it.
    pub fn push_front_shared(&mut self, value: Arc<Value>)
        ensures
            final(self)@ == seq![value@] + old(self)@,
    {
        self.vector_push_front_mut(value)
    }

    /// `Vector::append` of im: the items of this vector, then those of
    /// `arr`.
    #[verifier::external_body]
    fn vector_append(&self, arr: Array) -> (r: Array)
        ensures
            array_view(r) == array_view(*self) + array_view(arr),
    {
        Array { items: self.items.append(arr.items) }
    }

    /// The items of this array, then those of `arr`.
    pub fn append(&self, arr: Array) -> (r: Array)
        ensures
            r@ == self@ + arr@,
    {
        self.vector_append(arr)
    }

    /// `Vector::pop_back` of im: the last item and the vector without it,
    /// if there is a last item.
    #[verifier::external_body]
    fn vector_pop_back(&self) -> (r: Option<(Arc<Value>, Array)>)
        ensures
            match r {
                Some((item, rest)) => array_view(*self).len() > 0 && item@ == array_view(*self).last() && array_view(rest)
                    == array_view(*self).drop_last(),
                None => array_view(*self).len() == 0,
            },
    {
        self.items.pop_back().map(|(item, items)| (item, Array { items }))
    }

    /// The last item and the array without it, if there is a last item.
    pub fn pop_back(&self) -> (r: Option<(Arc<Value>, Array)>)
        ensures
            match r {
                Some((item, rest)) => self@.len() > 0 && item@ == self@.last() && rest@
                    == self@.drop_last(),
                None => self@.len() == 0,
            },
    {
        self.vector_pop_back()
    }

    /// `Vector::pop_back_mut` of im: takes the last item off, if there is
    /// one.
    #[verifier::external_body]
    fn vector_pop_back_mut(&mut self) -> (r: Option<Arc<Value>>)
        ensures
            match r {
                Some(item) => array_view(*old(self)).len() > 0 && item@ == array_view(*old(self)).last()
                    && array_view(*final(self)) == array_view(*old(self)).drop_last(),
                None => array_view(*old(self)).len() == 0 && array_view(*final(self)) == array_view(*old(self)),
            },
    {
        self.items.pop_back_mut()
    }

    /// Takes the last item off, if there is one.
    pub fn pop_back_mut(&mut self) -> (r: Option<Arc<Value>>)
        ensures
            match r {
                Some(item) => old(self)@.len() > 0 && item@ == old(self)@.last()
                    && final(self)@ == old(self)@.drop_last(),
                None => old(self)@.len() == 0 && final(self)@ == old(self)@,
            },
    {
        self.vector_pop_back_mut()
    }

    /// `Vector::pop_front` of im: the first item and the vector without
    /// it, if there is a first item.
    #[verifier::external_body]
    fn vector_pop_front(&self) -> (r: Option<(Arc<Value>, Array)>)
        ensures
            match r {
                Some((item, rest)) => array_view(*self).len() > 0 && item@ == array_view(*self).first() && array_view(rest)
                    == array_view(*self).drop_first(),
                None => array_view(*self).len() == 0,
            },
    {
        self.items.pop_front().map(|(item, items)| (item, Array { items }))
    }

    /// The first item and the array without it, if there is a first item.
    pub fn pop_front(&self) -> (r: Option<(Arc<Value>, Array)>)
        ensures
            match r {
                Some((item, rest)) => self@.len() > 0 && item@ == self@.first() && rest@
                    == self@.drop_first(),
                None => self@.len() == 0,
            },
    {
        self.vector_pop_front()
    }

    /// `Vector::pop_front_mut` of im: takes the first item off, if there
    /// is one.
    #[verifier::external_body]
    fn vector_pop_front_mut(&mut self) -> (r: Option<Arc<Value>>)
        ensures
            match r {
                Some(item) => array_view(*old(self)).len() > 0 && item@ == array_view(*old(self)).first()
                    && array_view(*final(self)) == array_view(*old(self)).drop_first(),
                None => array_view(*old(self)).len() == 0 && array_view(*final(self)) == array_view(*old(self)),
            },
    {
        self.items.pop_front_mut()
    }

    /// Takes the first item off, if there is one.
    pub fn pop_front_mut(&mut self) -> (r: Option<Arc<Value>>)
        ensures
            match r {
                Some(item) => old(self)@.len() > 0 && item@ == old(self)@.first()
                    && final(self)@ == old(self)@.drop_first(),
                None => old(self)@.len() == 0 && final(self)@ == old(self)@,
            },
    {
        self.vector_pop_front_mut()
    }

    /// `Vector::split_at` of im: the items before `index` and those from
    /// `index` on; an index past the end counts as the end.
    #[verifier::external_body]
    fn vector_split_at(&self, index: usize) -> (r: (Array, Array))
        ensures
            array_view(r.0) == array_view(*self).subrange(0, reach(index, array_view(*self).len())),
            array_view(r.1) == array_view(*self).subrange(
                reach(index, array_view(*self).len()),
                array_view(*self).len() as int,
            ),
    {
        let (left, right) = self.items.split_at(index);
        (Array { items: left }, Array { items: right })
    }

    /// The items before `index` and those from `index` on; an index
    /// past the end counts as the end.
    pub fn split_at(&self, index: usize) -> (r: (Array, Array))
        ensures
            r.0@ == self@.subrange(0, reach(index, self@.len())),
            r.1@ == self@.subrange(
                reach(index, self@.len()),
                self@.len() as int,
            ),
    {
        self.vector_split_at(index)
    }

    /// `Vector::skip` of im, for a count within the vector: the items from
    /// the `count`th on.
    #[verifier::external_body]
    fn vector_skip(&self, count: usize) -> (r: Array)
        requires
            count <= self@.len(),
        ensures
            array_view(r) == array_view(*self).subrange(count as int, array_view(*self).len() as int),
    {
        Array { items: self.items.skip(count) }
    }

    /// The items from the `count`th on; none if there are no more than
    /// `count`.
    pub fn skip(&self, count: usize) -> (r: Array)
        ensures
            r@ == self@.subrange(reach(count, self@.len()), self@.len() as int),
    {
        let len = self.len();
        if count >= len {
            let r = Array::new();
            assert(r@ =~= self@.subrange(len as int, len as int));
            r
        } else {
            self.vector_skip(count)
        }
    }

    /// `Vector::take` of im, for a count within the vector: the first
    /// `count` items.
    #[verifier::external_body]
    fn vector_take(&self, count: usize) -> (r: Array)
        requires
            count <= self@.len(),
        ensures
            array_view(r) == array_view(*self).subrange(0, count as int),
    {
        Array { items: self.items.take(count) }
    }

    /// The first `count` items; all of them if there are no more than
    /// `count`.
    pub fn take(&self, count: usize) -> (r: Array)
        ensures
            r@ == self@.subrange(0, reach(count, self@.len())),
    {
        let len = self.len();
        if count >= len {
            self.vector_take(len)
        } else {
            self.vector_take(count)
        }
    }

    /// `Vector::slice` of im, for a range that ends within the vector: the
    /// items from `start_index` up to `end_index`, none if the range is
    /// empty.
    #[verifier::external_body]
    fn vector_slice(&self, start_index: usize, end_index: usize) -> (r: Array)
        requires
            end_index <= self@.len(),
        ensures
            array_view(r) == if start_index < end_index {
                array_view(*self).subrange(start_index as int, end_index as int)
            } else {
                Seq::<ValueView>::empty()
            },
    {
        Array { items: self.items.slice(start_index, end_index) }
    }

    /// The items from `start_index` up to `end_index`, as far as the
    /// array reaches; none if the range is empty or starts past the end.
    pub fn slice(&self, start_index: usize, end_index: usize) -> (r: Array)
        ensures
            r@ == if start_index < reach(end_index, self@.len()) {
                self@.subrange(start_index as int, reach(end_index, self@.len()))
            } else {
                Seq::<ValueView>::empty()
            },
    {
        let len = self.len();
        if end_index >= len {
            self.vector_slice(start_index, len)
        } else {
            self.vector_slice(start_index, end_index)
        }
    }

    /// An array without items.
    pub fn empty() -> (r: Array)
        ensures
            r@ == Seq::<ValueView>::empty(),
    {
        Array::new()
    }

    /// An array of the one item `a`.
    pub fn singleton(a: Value) -> (r: Array)
        ensures
            r@ == seq![a@],
    {
        let mut r = Array::new();
        r.push_back_mut(a);
        assert(r@ =~= seq![a@]);
        r
    }

    /// The item at `index`; past the end, the null of the language.
    pub fn get(&self, index: usize) -> (r: Arc<Value>)
        ensures
            r@ == if index < self@.len() {
                self@[index as int]
            } else {
                null_view()
            },
    {
        match self.get_opt(index) {
            Some(item) => item,
            None => get_null(),
        }
    }

    /// Adds `value` after the last item. No link comes in but those
    /// of `value`.
    pub fn push_back_mut(&mut self, value: Value)
        ensures
            final(self)@ == old(self)@.push(value@),
            array_links(*final(self)).subset_of(array_links(*old(self)).union(value.links())),
    {
        self.push_back_shared(Arc::new(value))
    }

    /// Adds `value` before the first item.
    pub fn push_front_mut(&mut self, value: Value)
        ensures
            final(self)@ == seq![value@] + old(self)@,
    {
        self.push_front_shared(Arc::new(value))
    }

    /// The same items, last to first.
    ///
    /// The array is built anew, item by item, and shares the items but not
    /// the structure of this one: a vector that im itself has turned round
    /// does not take every later operation well.
    pub fn reverse(&self) -> (r: Array)
        ensures
            r@ == self@.reverse(),
    {
        let n = self.len();
        let mut r = Array::new();
        let mut i: usize = 0;
        while i < n
            invariant
                n == self@.len(),
                i <= n,
                r@.len() == i,
                forall|j: int| 0 <= j < i ==> r@[j] == self@[i - 1 - j],
            decreases n - i,
        {
            let ghost before = r@;
            r.push_front_shared(self.get_unwrapped(i));
            assert forall|j: int| 0 <= j < i + 1 implies r@[j] == self@[i - j] by {
                if j > 0 {
                    assert(r@[j] == before[j - 1]);
                }
            }
            i += 1;
        }
        assert(r@ =~= self@.reverse());
        r
    }

    /// Turns the order of the items round.
    pub fn reverse_mut(&mut self)
        ensures
            final(self)@ == old(self)@.reverse(),
    {
        let r = self.reverse();
        *self = r;
    }
}

impl Array {
    /// The items, each a copy, first to last.
    pub fn into_vec(&self) -> (r: Vec<Value>)
        ensures
            r@.len() == self@.len(),
            forall|i: int| 0 <= i < r@.len() ==> (#[trigger] r@[i])@ == self@[i],
    {
        let n = self.len();
        let mut r: Vec<Value> = Vec::new();
        let mut i: usize = 0;
        while i < n
            invariant
                n == self@.len(),
                i <= n,
                r@.len() == i,
                forall|j: int| 0 <= j < i ==> (#[trigger] r@[j])@ == self@[j],
            decreases n - i,
        {
            let item = self.get_unwrapped(i);
            r.push((*item).clone());
            i += 1;
        }
        r
    }
}

impl From<Vec<Value>> for Array {
    /// An array of the items of `val`, in their order.
    fn from(val: Vec<Value>) -> (r: Array)
        ensures
            r@ == val@.map_values(|item: Value| item@),
    {
        Array::from_vec(val)
    }
}

impl FromSpecImpl<Vec<Value>> for Array {
    open spec fn obeys_from_spec() -> bool {
        false
    }

    open spec fn from_spec(val: Vec<Value>) -> Array {
        arbitrary()
    }
}

impl core::ops::Add for Array {
    type Output = Array;

    /// The items of this array, then those of `other`.
    fn add(self, other: Array) -> (r: Array)
        ensures
            r@ == self@ + other@,
    {
        self.append(other)
    }
}

impl AddSpecImpl for Array {
    open spec fn obeys_add_spec() -> bool {
        false
    }

    open spec fn add_req(self, other: Array) -> bool {
        true
    }

    open spec fn add_spec(self, other: Array) -> Array {
        arbitrary()
    }
}

impl Clone for Array {
    /// `Clone::clone` of im's vector: an array of the same items, sharing
    /// their storage.
    #[verifier::external_body]
    fn clone(&self) -> (r: Array)
        ensures
            array_view(r) == array_view(*self),
    {
        Array { items: self.items.clone() }
    }
}

impl Default for Array {
    fn default() -> (r: Array)
        ensures
            r@ == Seq::<ValueView>::empty(),
    {
        Array::new()
    }
}

impl PartialEq for Array {
    /// `PartialEq::eq` of im's vector: the same number of items, and each
    /// `==` to the one in its place. So equal arrays are alike item by
    /// item, and plain arrays that are alike are equal.
    #[verifier::external_body]
    fn eq(&self, other: &Array) -> (r: bool)
        ensures
            r ==> ValueView::Array(array_view(*self)).same(ValueView::Array(array_view(*other)))
                && ValueView::Array(array_view(*other)).same(ValueView::Array(array_view(*self))),
            ValueView::Array(array_view(*self)).plain() && ValueView::Array(array_view(*self)).same(
                ValueView::Array(array_view(*other)),
            ) ==> r,
    {
        self.items == other.items
    }
}

impl Eq for Array {

}

impl Hash for Array {
    /// `Hash::hash` of im's vector: hashes the items, first to last.
    #[verifier::external_body]
    fn hash<H: Hasher>(&self, state: &mut H) {
        self.items.hash(state)
    }
}

} // verus!
