//! The array of the owned family.

use crate::value::owned::value::OwnedValue;
use crate::value::view::reach;
use crate::value::view::ValueView;
use core::hash::Hash;
use core::hash::Hasher;
use std::sync::Arc;
use vstd::prelude::*;
use vstd::std_specs::convert::FromSpecImpl;
use vstd::std_specs::ops::AddSpecImpl;

verus! {

/// An ordered sequence of owned values.
///
/// The items live in a persistent vector of the im crate: a copy shares
/// its structure with the one it was made from, and an operation that does not take
/// `&mut self` leaves the array it is called on as it was.
#[verifier::external_body]
#[derive(Debug)]
pub struct OwnedArray {
    items: im::Vector<OwnedValue>,
}

/// The items that an array holds, first to last.
pub uninterp spec fn owned_array_view(array: OwnedArray) -> Seq<ValueView>;

impl View for OwnedArray {
    type V = Seq<ValueView>;

    open spec fn view(&self) -> Seq<ValueView> {
        owned_array_view(*self)
    }
}

impl OwnedArray {
    /// `Vector::new` of im: a vector without items.
    #[verifier::external_body]
    fn vector_new() -> (r: OwnedArray)
        ensures
            owned_array_view(r) == Seq::<ValueView>::empty(),
    {
        OwnedArray { items: im::Vector::new() }
    }

    /// An array without items.
    pub fn new() -> (r: OwnedArray)
        ensures
            r@ == Seq::<ValueView>::empty(),
    {
        Self::vector_new()
    }

    /// `Vector::from` of im for a `Vec`: the same items in the same
    /// order.
    #[verifier::external_body]
    fn vector_from(items: Vec<OwnedValue>) -> (r: OwnedArray)
        ensures
            owned_array_view(r) == items@.map_values(|item: OwnedValue| item@),
    {
        OwnedArray { items: im::Vector::from(items) }
    }

    /// An array of the items of `items`, in their order.
    pub fn from_vec(items: Vec<OwnedValue>) -> (r: OwnedArray)
        ensures
            r@ == items@.map_values(|item: OwnedValue| item@),
    {
        Self::vector_from(items)
    }

    /// `Vector::iter` of im, collected: a handle to each item, first to
    /// last.
    #[verifier::external_body]
    fn vector_iter(&self) -> (r: Vec<Arc<OwnedValue>>)
        ensures
            r@.map_values(|item: Arc<OwnedValue>| item@) == owned_array_view(*self),
    {
        self.items.iter().collect()
    }

    /// A handle to each item, first to last.
    pub fn to_vec(&self) -> (r: Vec<Arc<OwnedValue>>)
        ensures
            r@.map_values(|item: Arc<OwnedValue>| item@) == self@,
    {
        self.vector_iter()
    }

    /// `Vector::len` of im: the number of items.
    #[verifier::external_body]
    fn vector_len(&self) -> (r: usize)
        ensures
            r == owned_array_view(*self).len(),
    {
        self.items.len()
    }

    /// The number of items.
    pub fn len(&self) -> (r: usize)
        ensures
            r == self@.len(),
    {
        self.vector_len()
    }

    /// `Vector::is_empty` of im: whether there is no item.
    #[verifier::external_body]
    fn vector_is_empty(&self) -> (r: bool)
        ensures
            r == (owned_array_view(*self).len() == 0),
    {
        self.items.is_empty()
    }

    /// Whether there is no item.
    pub fn is_empty(&self) -> (r: bool)
        ensures
            r == (self@.len() == 0),
    {
        self.vector_is_empty()
    }

    /// `Vector::get` of im: the item at `index`, or `None` past the end.
    #[verifier::external_body]
    fn vector_get(&self, index: usize) -> (r: Option<Arc<OwnedValue>>)
        ensures
            match r {
                Some(item) => index < owned_array_view(*self).len() && item@ == owned_array_view(*self)[index as int],
                None => index >= owned_array_view(*self).len(),
            },
    {
        self.items.get(index)
    }

    /// The item at `index`, or `None` past the end.
    pub fn get(&self, index: usize) -> (r: Option<Arc<OwnedValue>>)
        ensures
            match r {
                Some(item) => index < self@.len() && item@ == self@[index as int],
                None => index >= self@.len(),
            },
    {
        self.vector_get(index)
    }

    /// `Vector::get_unwrapped` of im: the item at `index`, which must be
    /// there.
    #[verifier::external_body]
    fn vector_get_unwrapped(&self, index: usize) -> (r: Arc<OwnedValue>)
        requires
            index < self@.len(),
        ensures
            r@ == owned_array_view(*self)[index as int],
    {
        self.items.get_unwrapped(index)
    }

    /// The item at `index`, which must be within the array.
    pub fn get_unwrapped(&self, index: usize) -> (r: Arc<OwnedValue>)
        requires
            index < self@.len(),
        ensures
            r@ == self@[index as int],
    {
        self.vector_get_unwrapped(index)
    }

    /// `Vector::head` of im: the first item, if there is one.
    #[verifier::external_body]
    fn vector_head(&self) -> (r: Option<Arc<OwnedValue>>)
        ensures
            match r {
                Some(item) => owned_array_view(*self).len() > 0 && item@ == owned_array_view(*self).first(),
                None => owned_array_view(*self).len() == 0,
            },
    {
        self.items.head()
    }

    /// The first item, if there is one.
    pub fn head(&self) -> (r: Option<Arc<OwnedValue>>)
        ensures
            match r {
                Some(item) => self@.len() > 0 && item@ == self@.first(),
                None => self@.len() == 0,
            },
    {
        self.vector_head()
    }

    /// `Vector::tail` of im: all items but the first, if there is a first.
    #[verifier::external_body]
    fn vector_tail(&self) -> (r: Option<OwnedArray>)
        ensures
            match r {
                Some(rest) => owned_array_view(*self).len() > 0 && owned_array_view(rest) == owned_array_view(*self).drop_first(),
                None => owned_array_view(*self).len() == 0,
            },
    {
        self.items.tail().map(|items| OwnedArray { items })
    }

    /// All items but the first, if there is a first.
    pub fn tail(&self) -> (r: Option<OwnedArray>)
        ensures
            match r {
                Some(rest) => self@.len() > 0 && rest@ == self@.drop_first(),
                None => self@.len() == 0,
            },
    {
        self.vector_tail()
    }

    /// `Vector::last` of im: the last item, if there is one.
    #[verifier::external_body]
    fn vector_last(&self) -> (r: Option<Arc<OwnedValue>>)
        ensures
            match r {
                Some(item) => owned_array_view(*self).len() > 0 && item@ == owned_array_view(*self).last(),
                None => owned_array_view(*self).len() == 0,
            },
    {
        self.items.last()
    }

    /// The last item, if there is one.
    pub fn last(&self) -> (r: Option<Arc<OwnedValue>>)
        ensures
            match r {
                Some(item) => self@.len() > 0 && item@ == self@.last(),
                None => self@.len() == 0,
            },
    {
        self.vector_last()
    }

    /// `Vector::init` of im: all items but the last, if there is a last.
    #[verifier::external_body]
    fn vector_init(&self) -> (r: Option<OwnedArray>)
        ensures
            match r {
                Some(rest) => owned_array_view(*self).len() > 0 && owned_array_view(rest) == owned_array_view(*self).drop_last(),
                None => owned_array_view(*self).len() == 0,
            },
    {
        self.items.init().map(|items| OwnedArray { items })
    }

    /// All items but the last, if there is a last.
    pub fn init(&self) -> (r: Option<OwnedArray>)
        ensures
            match r {
                Some(rest) => self@.len() > 0 && rest@ == self@.drop_last(),
                None => self@.len() == 0,
            },
    {
        self.vector_init()
    }

    /// `Vector::set` of im: the same items, but `value` at `index`,
    /// which must be within the vector.
    #[verifier::external_body]
    fn vector_set(&self, index: usize, value: OwnedValue) -> (r: OwnedArray)
        requires
            index < self@.len(),
        ensures
            owned_array_view(r) == owned_array_view(*self).update(index as int, value@),
    {
        OwnedArray { items: self.items.set(index, value) }
    }

    /// The same items, but `value` at `index`, which must be within the
    /// array.
    pub fn set(&self, index: usize, value: OwnedValue) -> (r: OwnedArray)
        requires
            index < self@.len(),
        ensures
            r@ == self@.update(index as int, value@),
    {
        self.vector_set(index, value)
    }

    /// `Vector::set_mut` of im: puts `value` at `index`, which must be
    /// within the vector.
    #[verifier::external_body]
    fn vector_set_mut(&mut self, index: usize, value: OwnedValue)
        requires
            index < old(self)@.len(),
        ensures
            owned_array_view(*final(self)) == owned_array_view(*old(self)).update(index as int, value@),
    {
        self.items.set_mut(index, value)
    }

    /// Puts `value` at `index`, which must be within the array.
    pub fn set_mut(&mut self, index: usize, value: OwnedValue)
        requires
            index < old(self)@.len(),
        ensures
            final(self)@ == old(self)@.update(index as int, value@),
    {
        self.vector_set_mut(index, value)
    }

    /// `Vector::push_back` of im: the same items with `value` after them.
    #[verifier::external_body]
    fn vector_push_back(&self, value: OwnedValue) -> (r: OwnedArray)
        ensures
            owned_array_view(r) == owned_array_view(*self).push(value@),
    {
        OwnedArray { items: self.items.push_back(value) }
    }

    /// The same items with `value` after them.
    pub fn push_back(&self, value: OwnedValue) -> (r: OwnedArray)
        ensures
            r@ == self@.push(value@),
    {
        self.vector_push_back(value)
    }

    /// `Vector::push_back_mut` of im: adds the value behind `value`
    /// after the last item.
    #[verifier::external_body]
    fn vector_push_back_mut(&mut self, value: Arc<OwnedValue>)
        ensures
            owned_array_view(*final(self)) == owned_array_view(*old(self)).push(value@),
    {
        self.items.push_back_mut(value)
    }

    /// Adds the value behind `value` after the last item, without
    /// copying it.
    pub fn push_back_shared(&mut self, value: Arc<OwnedValue>)
        ensures
            final(self)@ == old(self)@.push(value@),
    {
        self.vector_push_back_mut(value)
    }

    /// `Vector::push_front` of im: `value`, then the same items.
    #[verifier::external_body]
    fn vector_push_front(&self, value: OwnedValue) -> (r: OwnedArray)
        ensures
            owned_array_view(r) == seq![value@] + owned_array_view(*self),
    {
        OwnedArray { items: self.items.push_front(value) }
    }

    /// `value`, then the same items.
    pub fn push_front(&self, value: OwnedValue) -> (r: OwnedArray)
        ensures
            r@ == seq![value@] + self@,
    {
        self.vector_push_front(value)
    }

    /// `Vector::push_front_mut` of im: adds the value behind `value`
    /// before the first item.
    #[verifier::external_body]
    fn vector_push_front_mut(&mut self, value: Arc<OwnedValue>)
        ensures
            owned_array_view(*final(self)) == seq![value@] + owned_array_view(*old(self)),
    {
        self.items.push_front_mut(value)
    }

    /// Adds the value behind `value` before the first item, without
    /// copying it.
    pub fn push_front_shared(&mut self, value: Arc<OwnedValue>)
        ensures
            final(self)@ == seq![value@] + old(self)@,
    {
        self.vector_push_front_mut(value)
    }

    /// `Vector::append` of im: the items of this vector, then those of
    /// `arr`.
    #[verifier::external_body]
    fn vector_append(&self, arr: OwnedArray) -> (r: OwnedArray)
        ensures
            owned_array_view(r) == owned_array_view(*self) + owned_array_view(arr),
    {
        OwnedArray { items: self.items.append(arr.items) }
    }

    /// The items of this array, then those of `arr`.
    pub fn append(&self, arr: OwnedArray) -> (r: OwnedArray)
        ensures
            r@ == self@ + arr@,
    {
        self.vector_append(arr)
    }

    /// `Vector::pop_back` of im: the last item and the vector without it,
    /// if there is a last item.
    #[verifier::external_body]
    fn vector_pop_back(&self) -> (r: Option<(Arc<OwnedValue>, OwnedArray)>)
        ensures
            match r {
                Some((item, rest)) => owned_array_view(*self).len() > 0 && item@ == owned_array_view(*self).last() && owned_array_view(rest)
                    == owned_array_view(*self).drop_last(),
                None => owned_array_view(*self).len() == 0,
            },
    {
        self.items.pop_back().map(|(item, items)| (item, OwnedArray { items }))
    }

    /// The last item and the array without it, if there is a last item.
    pub fn pop_back(&self) -> (r: Option<(Arc<OwnedValue>, OwnedArray)>)
        ensures
            match r {
                Some((item, rest)) => self@.len() > 0 && item@ == self@.last() && rest@
                    == self@.drop_last(),
                None => self@.len() == 0,
            },
    {
        self.vector_pop_back()
    }

    /// `Vector::pop_back_mut` of im: takes the last item off, if there is
    /// one.
    #[verifier::external_body]
    fn vector_pop_back_mut(&mut self) -> (r: Option<Arc<OwnedValue>>)
        ensures
            match r {
                Some(item) => owned_array_view(*old(self)).len() > 0 && item@ == owned_array_view(*old(self)).last()
                    && owned_array_view(*final(self)) == owned_array_view(*old(self)).drop_last(),
                None => owned_array_view(*old(self)).len() == 0 && owned_array_view(*final(self)) == owned_array_view(*old(self)),
            },
    {
        self.items.pop_back_mut()
    }

    /// Takes the last item off, if there is one.
    pub fn pop_back_mut(&mut self) -> (r: Option<Arc<OwnedValue>>)
        ensures
            match r {
                Some(item) => old(self)@.len() > 0 && item@ == old(self)@.last()
                    && final(self)@ == old(self)@.drop_last(),
                None => old(self)@.len() == 0 && final(self)@ == old(self)@,
            },
    {
        self.vector_pop_back_mut()
    }

    /// `Vector::pop_front` of im: the first item and the vector without
    /// it, if there is a first item.
    #[verifier::external_body]
    fn vector_pop_front(&self) -> (r: Option<(Arc<OwnedValue>, OwnedArray)>)
        ensures
            match r {
                Some((item, rest)) => owned_array_view(*self).len() > 0 && item@ == owned_array_view(*self).first() && owned_array_view(rest)
                    == owned_array_view(*self).drop_first(),
                None => owned_array_view(*self).len() == 0,
            },
    {
        self.items.pop_front().map(|(item, items)| (item, OwnedArray { items }))
    }

    /// The first item and the array without it, if there is a first item.
    pub fn pop_front(&self) -> (r: Option<(Arc<OwnedValue>, OwnedArray)>)
        ensures
            match r {
                Some((item, rest)) => self@.len() > 0 && item@ == self@.first() && rest@
                    == self@.drop_first(),
                None => self@.len() == 0,
            },
    {
        self.vector_pop_front()
    }

    /// `Vector::pop_front_mut` of im: takes the first item off, if there
    /// is one.
    #[verifier::external_body]
    fn vector_pop_front_mut(&mut self) -> (r: Option<Arc<OwnedValue>>)
        ensures
            match r {
                Some(item) => owned_array_view(*old(self)).len() > 0 && item@ == owned_array_view(*old(self)).first()
                    && owned_array_view(*final(self)) == owned_array_view(*old(self)).drop_first(),
                None => owned_array_view(*old(self)).len() == 0 && owned_array_view(*final(self)) == owned_array_view(*old(self)),
            },
    {
        self.items.pop_front_mut()
    }

    /// Takes the first item off, if there is one.
    pub fn pop_front_mut(&mut self) -> (r: Option<Arc<OwnedValue>>)
        ensures
            match r {
                Some(item) => old(self)@.len() > 0 && item@ == old(self)@.first()
                    && final(self)@ == old(self)@.drop_first(),
                None => old(self)@.len() == 0 && final(self)@ == old(self)@,
            },
    {
        self.vector_pop_front_mut()
    }

    /// `Vector::split_at` of im: the items before `index` and those from
    /// `index` on; an index past the end counts as the end.
    #[verifier::external_body]
    fn vector_split_at(&self, index: usize) -> (r: (OwnedArray, OwnedArray))
        ensures
            owned_array_view(r.0) == owned_array_view(*self).subrange(0, reach(index, owned_array_view(*self).len())),
            owned_array_view(r.1) == owned_array_view(*self).subrange(
                reach(index, owned_array_view(*self).len()),
                owned_array_view(*self).len() as int,
            ),
    {
        let (left, right) = self.items.split_at(index);
        (OwnedArray { items: left }, OwnedArray { items: right })
    }

    /// The items before `index` and those from `index` on; an index
    /// past the end counts as the end.
    pub fn split_at(&self, index: usize) -> (r: (OwnedArray, OwnedArray))
        ensures
            r.0@ == self@.subrange(0, reach(index, self@.len())),
            r.1@ == self@.subrange(
                reach(index, self@.len()),
                self@.len() as int,
            ),
    {
        self.vector_split_at(index)
    }

    /// `Vector::skip` of im, for a count within the vector: the items from
    /// the `count`th on.
    #[verifier::external_body]
    fn vector_skip(&self, count: usize) -> (r: OwnedArray)
        requires
            count <= self@.len(),
        ensures
            owned_array_view(r) == owned_array_view(*self).subrange(count as int, owned_array_view(*self).len() as int),
    {
        OwnedArray { items: self.items.skip(count) }
    }

    /// The items from the `count`th on; none if there are no more than
    /// `count`.
    pub fn skip(&self, count: usize) -> (r: OwnedArray)
        ensures
            r@ == self@.subrange(reach(count, self@.len()), self@.len() as int),
    {
        let len = self.len();
        if count >= len {
            let r = OwnedArray::new();
            assert(r@ =~= self@.subrange(len as int, len as int));
            r
        } else {
            self.vector_skip(count)
        }
    }

    /// `Vector::take` of im, for a count within the vector: the first
    /// `count` items.
    #[verifier::external_body]
    fn vector_take(&self, count: usize) -> (r: OwnedArray)
        requires
            count <= self@.len(),
        ensures
            owned_array_view(r) == owned_array_view(*self).subrange(0, count as int),
    {
        OwnedArray { items: self.items.take(count) }
    }

    /// The first `count` items; all of them if there are no more than
    /// `count`.
    pub fn take(&self, count: usize) -> (r: OwnedArray)
        ensures
            r@ == self@.subrange(0, reach(count, self@.len())),
    {
        let len = self.len();
        if count >= len {
            self.vector_take(len)
        } else {
            self.vector_take(count)
        }
    }

    /// `Vector::slice` of im, for a range that ends within the vector: the
    /// items from `start_index` up to `end_index`, none if the range is
    /// empty.
    #[verifier::external_body]
    fn vector_slice(&self, start_index: usize, end_index: usize) -> (r: OwnedArray)
        requires
            end_index <= self@.len(),
        ensures
            owned_array_view(r) == if start_index < end_index {
                owned_array_view(*self).subrange(start_index as int, end_index as int)
            } else {
                Seq::<ValueView>::empty()
            },
    {
        OwnedArray { items: self.items.slice(start_index, end_index) }
    }

    /// The items from `start_index` up to `end_index`, as far as the
    /// array reaches; none if the range is empty or starts past the end.
    pub fn slice(&self, start_index: usize, end_index: usize) -> (r: OwnedArray)
        ensures
            r@ == if start_index < reach(end_index, self@.len()) {
                self@.subrange(start_index as int, reach(end_index, self@.len()))
            } else {
                Seq::<ValueView>::empty()
            },
    {
        let len = self.len();
        if end_index >= len {
            self.vector_slice(start_index, len)
        } else {
            self.vector_slice(start_index, end_index)
        }
    }

    /// An array without items.
    pub fn empty() -> (r: OwnedArray)
        ensures
            r@ == Seq::<ValueView>::empty(),
    {
        OwnedArray::new()
    }

    /// An array of the one item `a`.
    pub fn singleton(a: OwnedValue) -> (r: OwnedArray)
        ensures
            r@ == seq![a@],
    {
        let mut r = OwnedArray::new();
        r.push_back_mut(a);
        assert(r@ =~= seq![a@]);
        r
    }

    /// Adds `value` after the last item.
    pub fn push_back_mut(&mut self, value: OwnedValue)
        ensures
            final(self)@ == old(self)@.push(value@),
    {
        self.push_back_shared(Arc::new(value))
    }

    /// Adds `value` before the first item.
    pub fn push_front_mut(&mut self, value: OwnedValue)
        ensures
            final(self)@ == seq![value@] + old(self)@,
    {
        self.push_front_shared(Arc::new(value))
    }

    /// The same items, last to first.
    ///
    /// The array is built anew, item by item, and shares the items but not
    /// the structure of this one: a vector that im itself has turned round
    /// does not take every later operation well.
    pub fn reverse(&self) -> (r: OwnedArray)
        ensures
            r@ == self@.reverse(),
    {
        let n = self.len();
        let mut r = OwnedArray::new();
        let mut i: usize = 0;
        while i < n
            invariant
                n == self@.len(),
                i <= n,
                r@.len() == i,
                forall|j: int| 0 <= j < i ==> r@[j] == self@[i - 1 - j],
            decreases n - i,
        {
            let ghost before = r@;
            r.push_front_shared(self.get_unwrapped(i));
            assert forall|j: int| 0 <= j < i + 1 implies r@[j] == self@[i - j] by {
                if j > 0 {
                    assert(r@[j] == before[j - 1]);
                }
            }
            i += 1;
        }
        assert(r@ =~= self@.reverse());
        r
    }

    /// Turns the order of the items round.
    pub fn reverse_mut(&mut self)
        ensures
            final(self)@ == old(self)@.reverse(),
    {
        let r = self.reverse();
        *self = r;
    }
}

impl OwnedArray {
    /// The items, each a copy, first to last.
    pub fn into_vec(&self) -> (r: Vec<OwnedValue>)
        ensures
            r@.len() == self@.len(),
            forall|i: int| 0 <= i < r@.len() ==> (#[trigger] r@[i])@ == self@[i],
    {
        let n = self.len();
        let mut r: Vec<OwnedValue> = Vec::new();
        let mut i: usize = 0;
        while i < n
            invariant
                n == self@.len(),
                i <= n,
                r@.len() == i,
                forall|j: int| 0 <= j < i ==> (#[trigger] r@[j])@ == self@[j],
            decreases n - i,
        {
            let item = self.get_unwrapped(i);
            r.push((*item).clone());
            i += 1;
        }
        r
    }
}

impl From<Vec<OwnedValue>> for OwnedArray {
    /// An array of the items of `val`, in their order.
    fn from(val: Vec<OwnedValue>) -> (r: OwnedArray)
        ensures
            r@ == val@.map_values(|item: OwnedValue| item@),
    {
        OwnedArray::from_vec(val)
    }
}

impl FromSpecImpl<Vec<OwnedValue>> for OwnedArray {
    open spec fn obeys_from_spec() -> bool {
        false
    }

    open spec fn from_spec(val: Vec<OwnedValue>) -> OwnedArray {
        arbitrary()
    }
}

impl core::ops::Add for OwnedArray {
    type Output = OwnedArray;

    /// The items of this array, then those of `other`.
    fn add(self, other: OwnedArray) -> (r: OwnedArray)
        ensures
            r@ == self@ + other@,
    {
        self.append(other)
    }
}

impl AddSpecImpl for OwnedArray {
    open spec fn obeys_add_spec() -> bool {
        false
    }

    open spec fn add_req(self, other: OwnedArray) -> bool {
        true
    }

    open spec fn add_spec(self, other: OwnedArray) -> OwnedArray {
        arbitrary()
    }
}

impl Clone for OwnedArray {
    /// `Clone::clone` of im's vector: an array of the same items, sharing
    /// their storage.
    #[verifier::external_body]
    fn clone(&self) -> (r: OwnedArray)
        ensures
            owned_array_view(r) == owned_array_view(*self),
    {
        OwnedArray { items: self.items.clone() }
    }
}

impl Default for OwnedArray {
    fn default() -> (r: OwnedArray)
        ensures
            r@ == Seq::<ValueView>::empty(),
    {
        OwnedArray::new()
    }
}

impl PartialEq for OwnedArray {
    /// `PartialEq::eq` of im's vector: the same number of items, and each
    /// `==` to the one in its place. So equal arrays are alike item by
    /// item, and arrays without an object in them that are alike are equal.
    #[verifier::external_body]
    fn eq(&self, other: &OwnedArray) -> (r: bool)
        ensures
            r ==> ValueView::Array(owned_array_view(*self)).same(ValueView::Array(owned_array_view(*other)))
                && ValueView::Array(owned_array_view(*other)).same(ValueView::Array(owned_array_view(*self))),
            ValueView::Array(owned_array_view(*self)).object_free() && ValueView::Array(owned_array_view(*self)).same(
                ValueView::Array(owned_array_view(*other)),
            ) ==> r,
    {
        self.items == other.items
    }
}

impl Eq for OwnedArray {

}

impl Hash for OwnedArray {
    /// `Hash::hash` of im's vector: hashes the items, first to last.
    #[verifier::external_body]
    fn hash<H: Hasher>(&self, state: &mut H) {
        self.items.hash(state)
    }
}

} // verus!
