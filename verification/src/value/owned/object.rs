//! The object of the owned family.

use crate::value::convert::law_mirrors_itself;
use crate::value::convert::lemma_mirror_none;
use crate::value::convert::lemma_mirror_step;
use crate::value::convert::lemma_step_comes_from;
use crate::value::view::comes_from;
use crate::value::view::entries_mirror;
use crate::value::view::gathered;
use crate::value::view::lemma_gather_step;
use crate::value::view::lemma_unrivalled_step;
use crate::value::view::unlike_keys;
use crate::value::view::unrivalled;
use crate::value::view::all_plain;
use crate::value::view::apart;
use crate::value::view::has_key;
use crate::value::view::holds;
use crate::value::view::neat;
use crate::value::view::null_view;
use crate::value::view::parted;
use crate::value::view::removed;
use crate::value::view::replaced;
use crate::value::view::shared;
use crate::value::view::stored;
use crate::value::view::taken;
use crate::value::view::tidy;
use crate::value::view::united;
use crate::value::view::within;
use crate::value::view::ValueView;
use crate::value::owned::value::OwnedValue;
use core::hash::Hash;
use core::hash::Hasher;
use std::sync::Arc;
use vstd::prelude::*;

verus! {

/// A mapping from owned values to owned values.
///
/// The entries live in a persistent hash map of the im crate: a copy
/// shares its structure with the one it was made from, and an operation that does not
/// take `&mut self` leaves the object it is called on as it was. A key is
/// found again by `==` and its hash. The order in which an object hands
/// out its entries is its own, and not that in which they were put in.
#[verifier::external_body]
#[derive(Debug)]
pub struct OwnedObject {
    entries: im::HashMap<OwnedValue, OwnedValue>,
}

/// The entries that an object holds, in the order in which it hands them
/// out.
pub uninterp spec fn owned_object_view(object: OwnedObject) -> Seq<(ValueView, ValueView)>;

impl View for OwnedObject {
    type V = Seq<(ValueView, ValueView)>;

    open spec fn view(&self) -> Seq<(ValueView, ValueView)> {
        owned_object_view(*self)
    }
}

/// The null of the language: an object without entries.
pub fn get_null_owned() -> (r: Arc<OwnedValue>)
    ensures
        r@ == null_view(),
{
    Arc::new(OwnedValue::Object(OwnedObject::empty()))
}

/// The entries that `pairs` are, each pair by its key and its value as
/// they are in contracts.
pub open spec fn owned_pair_views(pairs: Seq<(OwnedValue, OwnedValue)>) -> Seq<(ValueView, ValueView)> {
    Seq::new(pairs.len(), |i: int| (pairs[i].0@, pairs[i].1@))
}

/// Whether the value of `e` is one that `f` can make of a value that `a`
/// has under the key of `e` and the value that `b` has under that very key.
pub open spec fn owned_joined<F: Fn(Arc<OwnedValue>, Arc<OwnedValue>) -> Arc<OwnedValue>>(
    f: F,
    a: Seq<(ValueView, ValueView)>,
    b: Seq<(ValueView, ValueView)>,
    e: (ValueView, ValueView),
) -> bool {
    exists|old: Arc<OwnedValue>, new: Arc<OwnedValue>, out: Arc<OwnedValue>|
        holds(a, e.0, old@) && b.contains((e.0, new@)) && #[trigger] f.ensures((old, new), out)
            && out@ == e.1
}

/// As [`owned_joined`], for a function that is given the key, too.
pub open spec fn owned_joined_by_key<
    F: Fn(Arc<OwnedValue>, Arc<OwnedValue>, Arc<OwnedValue>) -> Arc<OwnedValue>,
>(f: F, a: Seq<(ValueView, ValueView)>, b: Seq<(ValueView, ValueView)>, e: (ValueView, ValueView)) -> bool {
    exists|key: Arc<OwnedValue>, old: Arc<OwnedValue>, new: Arc<OwnedValue>, out: Arc<OwnedValue>|
        key@ == e.0 && holds(a, e.0, old@) && b.contains((e.0, new@)) && #[trigger] f.ensures(
            (key, old, new),
            out,
        ) && out@ == e.1
}

/// Whether `r` has, under the very key `key`, a value that `f` can make of a
/// value that `a` has under that key and the value that `b` has under it.
pub open spec fn owned_joined_under<F: Fn(Arc<OwnedValue>, Arc<OwnedValue>) -> Arc<OwnedValue>>(
    f: F,
    a: Seq<(ValueView, ValueView)>,
    b: Seq<(ValueView, ValueView)>,
    r: Seq<(ValueView, ValueView)>,
    key: ValueView,
) -> bool {
    exists|e: (ValueView, ValueView)|
        r.contains(e) && e.0 == key && #[trigger] owned_joined(f, a, b, e)
}

/// As [`owned_joined_under`], for a function that is given the key, too.
pub open spec fn owned_joined_by_key_under<
    F: Fn(Arc<OwnedValue>, Arc<OwnedValue>, Arc<OwnedValue>) -> Arc<OwnedValue>,
>(
    f: F,
    a: Seq<(ValueView, ValueView)>,
    b: Seq<(ValueView, ValueView)>,
    r: Seq<(ValueView, ValueView)>,
    key: ValueView,
) -> bool {
    exists|e: (ValueView, ValueView)|
        r.contains(e) && e.0 == key && #[trigger] owned_joined_by_key(f, a, b, e)
}

/// Whether `r` is `a` once `v` was put under `k` with `f`: under `k` what
/// `f` makes of a value that was there and `v`, or `v` itself where
/// nothing was found under `k`.
pub open spec fn owned_put_with<F: Fn(Arc<OwnedValue>, Arc<OwnedValue>) -> Arc<OwnedValue>>(
    f: F,
    a: Seq<(ValueView, ValueView)>,
    r: Seq<(ValueView, ValueView)>,
    k: ValueView,
    v: ValueView,
) -> bool {
    (exists|old: Arc<OwnedValue>, new: Arc<OwnedValue>, out: Arc<OwnedValue>|
        new@ == v && #[trigger] f.ensures((old, new), out) && replaced(a, r, k, old@, k, out@)) || (!(
    k.plain() && has_key(a, k)) && stored(a, r, k, v))
}

/// As [`owned_put_with`], for a function that is given the key, too.
pub open spec fn owned_put_with_key<
    F: Fn(Arc<OwnedValue>, Arc<OwnedValue>, Arc<OwnedValue>) -> Arc<OwnedValue>,
>(f: F, a: Seq<(ValueView, ValueView)>, r: Seq<(ValueView, ValueView)>, k: ValueView, v: ValueView) -> bool {
    (exists|key: Arc<OwnedValue>, old: Arc<OwnedValue>, new: Arc<OwnedValue>, out: Arc<OwnedValue>|
        key@ == k && new@ == v && #[trigger] f.ensures((key, old, new), out) && replaced(
            a,
            r,
            k,
            old@,
            k,
            out@,
        )) || (!(k.plain() && has_key(a, k)) && stored(a, r, k, v))
}

/// Whether `r` is `a` once `f` was put to the value under `k`: as it was
/// where nothing was found under `k`; without the entry where `f` made
/// nothing of its value; and else with what `f` made of it, under the key
/// as it was stored.
pub open spec fn owned_changed<F: Fn(Arc<OwnedValue>) -> Option<Arc<OwnedValue>>>(
    f: F,
    a: Seq<(ValueView, ValueView)>,
    r: Seq<(ValueView, ValueView)>,
    k: ValueView,
) -> bool {
    (r == a && !(k.plain() && has_key(a, k))) || (exists|old: Arc<OwnedValue>| #[trigger]
        f.ensures((old,), None) && taken(a, r, k, old@)) || (exists|
        old: Arc<OwnedValue>,
        out: Arc<OwnedValue>,
        key: ValueView,
    | #[trigger]
        f.ensures((old,), Some(out)) && key.same(k) && #[trigger] replaced(a, r, k, old@, key, out@))
}

/// As [`owned_changed`], for a function that is given the key as it was
/// stored, too.
pub open spec fn owned_changed_by_key<F: Fn(Arc<OwnedValue>, Arc<OwnedValue>) -> Option<Arc<OwnedValue>>>(
    f: F,
    a: Seq<(ValueView, ValueView)>,
    r: Seq<(ValueView, ValueView)>,
    k: ValueView,
) -> bool {
    (r == a && !(k.plain() && has_key(a, k))) || (exists|key: Arc<OwnedValue>, old: Arc<OwnedValue>| #[trigger]
        f.ensures((key, old), None) && key@.same(k) && taken(a, r, k, old@)) || (exists|
        key: Arc<OwnedValue>,
        old: Arc<OwnedValue>,
        out: Arc<OwnedValue>,
    | #[trigger]
        f.ensures((key, old), Some(out)) && key@.same(k) && replaced(a, r, k, old@, key@, out@))
}

/// Whether `r` is `a` once `f` was put to what is under `k`, a value or
/// none: `f` was given what was found, and what it made is under `k`, or
/// the entry is gone where it made nothing.
pub open spec fn owned_altered<F: Fn(Option<Arc<OwnedValue>>) -> Option<Arc<OwnedValue>>>(
    f: F,
    a: Seq<(ValueView, ValueView)>,
    r: Seq<(ValueView, ValueView)>,
    k: ValueView,
) -> bool {
    exists|found: Option<Arc<OwnedValue>>, out: Option<Arc<OwnedValue>>| #[trigger]
        f.ensures((found,), out) && match (found, out) {
            (None, None) => r == a && !(k.plain() && has_key(a, k)),
            (None, Some(new)) => !(k.plain() && has_key(a, k)) && stored(a, r, k, new@),
            (Some(old), None) => taken(a, r, k, old@),
            (Some(old), Some(new)) => replaced(a, r, k, old@, k, new@),
        }
}

/// Whether the value of `e` is one that `f` can make of some value and the
/// value that `b` has under the key of `e`.
pub open spec fn owned_settled<F: Fn(Arc<OwnedValue>, Arc<OwnedValue>) -> Option<Arc<OwnedValue>>>(
    f: F,
    b: Seq<(ValueView, ValueView)>,
    e: (ValueView, ValueView),
) -> bool {
    exists|old: Arc<OwnedValue>, new: Arc<OwnedValue>, out: Arc<OwnedValue>|
        b.contains((e.0, new@)) && #[trigger] f.ensures((old, new), Some(out)) && out@ == e.1
}

/// As [`owned_settled`], for a function that is given the key, too.
pub open spec fn owned_settled_by_key<
    F: Fn(Arc<OwnedValue>, Arc<OwnedValue>, Arc<OwnedValue>) -> Option<Arc<OwnedValue>>,
>(f: F, b: Seq<(ValueView, ValueView)>, e: (ValueView, ValueView)) -> bool {
    exists|key: Arc<OwnedValue>, old: Arc<OwnedValue>, new: Arc<OwnedValue>, out: Arc<OwnedValue>|
        key@ == e.0 && b.contains((e.0, new@)) && #[trigger] f.ensures((key, old, new), Some(out))
            && out@ == e.1
}

/// Whether `b` has, under a key like that of `e`, a value that `judge` takes
/// for the value of `e`.
pub open spec fn owned_matched<F: Fn(Arc<OwnedValue>, Arc<OwnedValue>) -> bool>(
    judge: F,
    b: Seq<(ValueView, ValueView)>,
    e: (ValueView, ValueView),
) -> bool {
    exists|here: Arc<OwnedValue>, there: Arc<OwnedValue>|
        here@ == e.1 && holds(b, e.0, there@) && #[trigger] judge.ensures((here, there), true)
}

/// Whether the key of `e` was not found in `b`, or the value found under
/// it is one that `judge` does not take for the value of `e`.
pub open spec fn owned_unmatched<F: Fn(Arc<OwnedValue>, Arc<OwnedValue>) -> bool>(
    judge: F,
    b: Seq<(ValueView, ValueView)>,
    e: (ValueView, ValueView),
) -> bool {
    !(e.0.plain() && has_key(b, e.0)) || exists|here: Arc<OwnedValue>, there: Arc<OwnedValue>|
        here@ == e.1 && holds(b, e.0, there@) && #[trigger] judge.ensures((here, there), false)
}

impl OwnedObject {
    /// `HashMap::new` of im: a map without entries.
    #[verifier::external_body]
    fn map_new() -> (r: OwnedObject)
        ensures
            owned_object_view(r) == Seq::<(ValueView, ValueView)>::empty(),
    {
        OwnedObject { entries: im::HashMap::new() }
    }

    /// An object without entries.
    pub fn new() -> (r: OwnedObject)
        ensures
            r@ == Seq::<(ValueView, ValueView)>::empty(),
    {
        Self::map_new()
    }

    /// `HashMap::singleton` of im: a map of the one entry `v` under `k`.
    #[verifier::external_body]
    fn map_singleton(k: OwnedValue, v: OwnedValue) -> (r: OwnedObject)
        ensures
            owned_object_view(r) == seq![(k@, v@)],
    {
        OwnedObject { entries: im::HashMap::singleton(k, v) }
    }

    /// An object of the one entry `v` under `k`.
    pub fn singleton(k: OwnedValue, v: OwnedValue) -> (r: OwnedObject)
        ensures
            r@ == seq![(k@, v@)],
    {
        Self::map_singleton(k, v)
    }

    /// `HashMap::is_empty` of im: whether there is no entry.
    #[verifier::external_body]
    fn map_is_empty(&self) -> (r: bool)
        ensures
            r == (owned_object_view(*self).len() == 0),
    {
        self.entries.is_empty()
    }

    /// Whether there is no entry.
    pub fn is_empty(&self) -> (r: bool)
        ensures
            r == (self@.len() == 0),
    {
        self.map_is_empty()
    }

    /// `HashMap::len` of im: the number of entries.
    #[verifier::external_body]
    fn map_len(&self) -> (r: usize)
        ensures
            r == owned_object_view(*self).len(),
    {
        self.entries.len()
    }

    /// The number of entries.
    pub fn len(&self) -> (r: usize)
        ensures
            r == self@.len(),
    {
        self.map_len()
    }

    /// `HashMap::iter` of im, collected: a handle to the key and to the
    /// value of each entry, in the map's own order. No plain key comes twice.
    /// Nor does a key without an object in it.
    #[verifier::external_body]
    fn map_iter(&self) -> (r: Vec<(Arc<OwnedValue>, Arc<OwnedValue>)>)
        ensures
            r@.map_values(|e: (Arc<OwnedValue>, Arc<OwnedValue>)| (e.0@, e.1@)) == owned_object_view(*self),
            tidy(r@.map_values(|e: (Arc<OwnedValue>, Arc<OwnedValue>)| (e.0@, e.1@))),
            neat(r@.map_values(|e: (Arc<OwnedValue>, Arc<OwnedValue>)| (e.0@, e.1@))),
    {
        self.entries.iter().collect()
    }

    /// A handle to the key and to the value of each entry, in the
    /// object's own order. No plain key comes twice.
    /// Nor does a key without an object in it.
    pub fn entries(&self) -> (r: Vec<(Arc<OwnedValue>, Arc<OwnedValue>)>)
        ensures
            r@.map_values(|e: (Arc<OwnedValue>, Arc<OwnedValue>)| (e.0@, e.1@)) == self@,
            tidy(r@.map_values(|e: (Arc<OwnedValue>, Arc<OwnedValue>)| (e.0@, e.1@))),
            neat(r@.map_values(|e: (Arc<OwnedValue>, Arc<OwnedValue>)| (e.0@, e.1@))),
    {
        self.map_iter()
    }

    /// `HashMap::keys` of im, collected: a handle to the key of each
    /// entry, in the map's own order.
    #[verifier::external_body]
    fn map_keys(&self) -> (r: Vec<Arc<OwnedValue>>)
        ensures
            r@.map_values(|k: Arc<OwnedValue>| k@) == owned_object_view(*self).map_values(|e: (ValueView, ValueView)| e.0),
    {
        self.entries.keys().collect()
    }

    /// A handle to the key of each entry, in the object's own order.
    pub fn keys(&self) -> (r: Vec<Arc<OwnedValue>>)
        ensures
            r@.map_values(|k: Arc<OwnedValue>| k@) == self@.map_values(|e: (ValueView, ValueView)| e.0),
    {
        self.map_keys()
    }

    /// `HashMap::values` of im, collected: a handle to the value of each
    /// entry, in the map's own order.
    #[verifier::external_body]
    fn map_values(&self) -> (r: Vec<Arc<OwnedValue>>)
        ensures
            r@.map_values(|v: Arc<OwnedValue>| v@) == owned_object_view(*self).map_values(|e: (ValueView, ValueView)| e.1),
    {
        self.entries.values().collect()
    }

    /// A handle to the value of each entry, in the object's own order.
    pub fn values(&self) -> (r: Vec<Arc<OwnedValue>>)
        ensures
            r@.map_values(|v: Arc<OwnedValue>| v@) == self@.map_values(|e: (ValueView, ValueView)| e.1),
    {
        self.map_values()
    }

    /// `HashMap::get` of im: the value under a key that is `==` to `k`.
    /// What is found is the value of an entry whose key is like `k`; a plain
    /// key is found whenever an entry has it.
    /// So is a key without an object in it.
    #[verifier::external_body]
    fn map_get(&self, k: &OwnedValue) -> (r: Option<Arc<OwnedValue>>)
        ensures
            r matches Some(v) ==> holds(owned_object_view(*self), k@, v@),
            k@.plain() && has_key(owned_object_view(*self), k@) ==> r is Some,
            k@.object_free() && has_key(owned_object_view(*self), k@) ==> r is Some,
    {
        self.entries.get(k)
    }

    /// The value under a key that is `==` to `k`. What is found is the
    /// value of an entry whose key is like `k`; a plain key is found
    /// whenever an entry has it.
    /// So is a key without an object in it.
    pub fn get_opt(&self, k: &OwnedValue) -> (r: Option<Arc<OwnedValue>>)
        ensures
            r matches Some(v) ==> holds(self@, k@, v@),
            k@.plain() && has_key(self@, k@) ==> r is Some,
            k@.object_free() && has_key(self@, k@) ==> r is Some,
    {
        self.map_get(k)
    }

    /// `HashMap::get_or` of im: the value under a key that is `==` to
    /// `k`, or `default` if nothing is found.
    #[verifier::external_body]
    fn map_get_or(&self, k: &OwnedValue, default: OwnedValue) -> (r: Arc<OwnedValue>)
        ensures
            holds(owned_object_view(*self), k@, r@) || r@ == default@,
            k@.plain() && has_key(owned_object_view(*self), k@) ==> holds(owned_object_view(*self), k@, r@),
            !has_key(owned_object_view(*self), k@) ==> r@ == default@,
    {
        self.entries.get_or(k, default)
    }

    /// The value under a key that is `==` to `k`, or `default` if
    /// nothing is found.
    pub fn get_or(&self, k: &OwnedValue, default: OwnedValue) -> (r: Arc<OwnedValue>)
        ensures
            holds(self@, k@, r@) || r@ == default@,
            k@.plain() && has_key(self@, k@) ==> holds(self@, k@, r@),
            !has_key(self@, k@) ==> r@ == default@,
    {
        self.map_get_or(k, default)
    }

    /// `HashMap::contains_key` of im: whether a key is `==` to `k`.
    #[verifier::external_body]
    fn map_contains_key(&self, k: &OwnedValue) -> (r: bool)
        ensures
            r ==> has_key(owned_object_view(*self), k@),
            k@.plain() && has_key(owned_object_view(*self), k@) ==> r,
            k@.object_free() ==> r == has_key(owned_object_view(*self), k@),
    {
        self.entries.contains_key(k)
    }

    /// Whether a key is `==` to `k`.
    pub fn contains_key(&self, k: &OwnedValue) -> (r: bool)
        ensures
            r ==> has_key(self@, k@),
            k@.plain() && has_key(self@, k@) ==> r,
            k@.object_free() ==> r == has_key(self@, k@),
    {
        self.map_contains_key(k)
    }

    /// `HashMap::insert` of im: the same entries, but the value behind
    /// `v` under the key behind `k`.
    #[verifier::external_body]
    fn map_insert(&self, k: Arc<OwnedValue>, v: Arc<OwnedValue>) -> (r: OwnedObject)
        ensures
            stored(owned_object_view(*self), owned_object_view(r), k@, v@),
    {
        OwnedObject { entries: self.entries.insert(k, v) }
    }

    /// The same entries, but the value behind `v` under the key behind
    /// `k`, neither of them copied.
    pub fn insert_shared(&self, k: Arc<OwnedValue>, v: Arc<OwnedValue>) -> (r: OwnedObject)
        ensures
            stored(self@, r@, k@, v@),
    {
        self.map_insert(k, v)
    }

    /// `HashMap::insert_mut` of im: stores `v` under `k`.
    #[verifier::external_body]
    fn map_insert_mut(&mut self, k: OwnedValue, v: OwnedValue)
        ensures
            stored(owned_object_view(*old(self)), owned_object_view(*final(self)), k@, v@),
    {
        self.entries.insert_mut(k, v)
    }

    /// Stores `v` under `k`.
    pub fn insert_mut(&mut self, k: OwnedValue, v: OwnedValue)
        ensures
            stored(old(self)@, final(self)@, k@, v@),
    {
        self.map_insert_mut(k, v)
    }

    /// `HashMap::set` of im: the same entries, but `v` under `k`.
    #[verifier::external_body]
    fn map_set(&self, k: OwnedValue, v: OwnedValue) -> (r: OwnedObject)
        ensures
            stored(owned_object_view(*self), owned_object_view(r), k@, v@),
    {
        OwnedObject { entries: self.entries.set(k, v) }
    }

    /// The same entries, but `v` under `k`.
    pub fn set(&self, k: OwnedValue, v: OwnedValue) -> (r: OwnedObject)
        ensures
            stored(self@, r@, k@, v@),
    {
        self.map_set(k, v)
    }

    /// `HashMap::set_mut` of im: stores `v` under `k`.
    #[verifier::external_body]
    fn map_set_mut(&mut self, k: OwnedValue, v: OwnedValue)
        ensures
            stored(owned_object_view(*old(self)), owned_object_view(*final(self)), k@, v@),
    {
        self.entries.set_mut(k, v)
    }

    /// Stores `v` under `k`.
    pub fn set_mut(&mut self, k: OwnedValue, v: OwnedValue)
        ensures
            stored(old(self)@, final(self)@, k@, v@),
    {
        self.map_set_mut(k, v)
    }

    /// `HashMap::remove` of im: the same entries without the one whose
    /// key is `==` to `k`.
    #[verifier::external_body]
    fn map_remove(&self, k: &OwnedValue) -> (r: OwnedObject)
        ensures
            removed(owned_object_view(*self), owned_object_view(r), k@),
    {
        OwnedObject { entries: self.entries.remove(k) }
    }

    /// The same entries without the one whose key is `==` to `k`.
    pub fn remove(&self, k: &OwnedValue) -> (r: OwnedObject)
        ensures
            removed(self@, r@, k@),
    {
        self.map_remove(k)
    }

    /// `HashMap::remove_mut` of im: takes out the entry whose key is
    /// `==` to `k`.
    #[verifier::external_body]
    fn map_remove_mut(&mut self, k: &OwnedValue)
        ensures
            removed(owned_object_view(*old(self)), owned_object_view(*final(self)), k@),
    {
        self.entries.remove_mut(k)
    }

    /// Takes out the entry whose key is `==` to `k`.
    pub fn remove_mut(&mut self, k: &OwnedValue)
        ensures
            removed(old(self)@, final(self)@, k@),
    {
        self.map_remove_mut(k)
    }

    /// `HashMap::pop` of im: the value under a key that is `==` to `k`,
    /// and the map without that entry.
    #[verifier::external_body]
    fn map_pop(&self, k: &OwnedValue) -> (r: Option<(Arc<OwnedValue>, OwnedObject)>)
        ensures
            match r {
                Some((v, rest)) => holds(owned_object_view(*self), k@, v@) && removed(owned_object_view(*self), owned_object_view(rest), k@)
                    && owned_object_view(rest).len() + 1 == owned_object_view(*self).len(),
                None => !(k@.plain() && has_key(owned_object_view(*self), k@)),
            },
    {
        self.entries.pop(k).map(|(v, entries)| (v, OwnedObject { entries }))
    }

    /// The value under a key that is `==` to `k`, and the object without
    /// that entry.
    pub fn pop(&self, k: &OwnedValue) -> (r: Option<(Arc<OwnedValue>, OwnedObject)>)
        ensures
            match r {
                Some((v, rest)) => holds(self@, k@, v@) && removed(self@, rest@, k@)
                    && rest@.len() + 1 == self@.len(),
                None => !(k@.plain() && has_key(self@, k@)),
            },
    {
        self.map_pop(k)
    }

    /// `HashMap::pop_mut` of im: takes out the entry whose key is `==`
    /// to `k`, and hands out its value.
    #[verifier::external_body]
    fn map_pop_mut(&mut self, k: &OwnedValue) -> (r: Option<Arc<OwnedValue>>)
        ensures
            match r {
                Some(v) => holds(owned_object_view(*old(self)), k@, v@) && removed(owned_object_view(*old(self)), owned_object_view(*final(self)), k@)
                    && owned_object_view(*final(self)).len() + 1 == owned_object_view(*old(self)).len(),
                None => !(k@.plain() && has_key(owned_object_view(*old(self)), k@)) && owned_object_view(*final(self)) == owned_object_view(*old(self)),
            },
    {
        self.entries.pop_mut(k)
    }

    /// Takes out the entry whose key is `==` to `k`, and hands out its
    /// value.
    pub fn pop_mut(&mut self, k: &OwnedValue) -> (r: Option<Arc<OwnedValue>>)
        ensures
            match r {
                Some(v) => holds(old(self)@, k@, v@) && removed(old(self)@, final(self)@, k@)
                    && final(self)@.len() + 1 == old(self)@.len(),
                None => !(k@.plain() && has_key(old(self)@, k@)) && final(self)@ == old(self)@,
            },
    {
        self.map_pop_mut(k)
    }

    /// `HashMap::pop_with_key` of im: the entry whose key is `==` to `k`,
    /// key and value, and the map without it.
    #[verifier::external_body]
    fn map_pop_with_key(&self, k: &OwnedValue) -> (r: Option<(Arc<OwnedValue>, Arc<OwnedValue>, OwnedObject)>)
        ensures
            match r {
                Some((key, v, rest)) => owned_object_view(*self).contains((key@, v@)) && key@.same(k@) && removed(
                    owned_object_view(*self),
                    owned_object_view(rest),
                    k@,
                ) && owned_object_view(rest).len() + 1 == owned_object_view(*self).len(),
                None => !(k@.plain() && has_key(owned_object_view(*self), k@)),
            },
    {
        self.entries.pop_with_key(k).map(|(key, v, entries)| (key, v, OwnedObject { entries }))
    }

    /// The entry whose key is `==` to `k`, key and value, and the
    /// object without it.
    pub fn pop_with_key(&self, k: &OwnedValue) -> (r: Option<(Arc<OwnedValue>, Arc<OwnedValue>, OwnedObject)>)
        ensures
            match r {
                Some((key, v, rest)) => self@.contains((key@, v@)) && key@.same(k@) && removed(
                    self@,
                    rest@,
                    k@,
                ) && rest@.len() + 1 == self@.len(),
                None => !(k@.plain() && has_key(self@, k@)),
            },
    {
        self.map_pop_with_key(k)
    }

    /// `HashMap::pop_with_key_mut` of im: takes out the entry whose key is
    /// `==` to `k`, and hands out its key and value.
    #[verifier::external_body]
    fn map_pop_with_key_mut(&mut self, k: &OwnedValue) -> (r: Option<(Arc<OwnedValue>, Arc<OwnedValue>)>)
        ensures
            match r {
                Some((key, v)) => owned_object_view(*old(self)).contains((key@, v@)) && key@.same(k@) && removed(
                    owned_object_view(*old(self)),
                    owned_object_view(*final(self)),
                    k@,
                ) && owned_object_view(*final(self)).len() + 1 == owned_object_view(*old(self)).len(),
                None => !(k@.plain() && has_key(owned_object_view(*old(self)), k@)) && owned_object_view(*final(self)) == owned_object_view(*old(self)),
            },
    {
        self.entries.pop_with_key_mut(k)
    }

    /// Takes out the entry whose key is `==` to `k`, and hands out its
    /// key and value.
    pub fn pop_with_key_mut(&mut self, k: &OwnedValue) -> (r: Option<(Arc<OwnedValue>, Arc<OwnedValue>)>)
        ensures
            match r {
                Some((key, v)) => old(self)@.contains((key@, v@)) && key@.same(k@) && removed(
                    old(self)@,
                    final(self)@,
                    k@,
                ) && final(self)@.len() + 1 == old(self)@.len(),
                None => !(k@.plain() && has_key(old(self)@, k@)) && final(self)@ == old(self)@,
            },
    {
        self.map_pop_with_key_mut(k)
    }

    /// `HashMap::union` of im: the entries of both maps; under a key
    /// that both have, the value of this one.
    #[verifier::external_body]
    fn map_union(&self, other: &OwnedObject) -> (r: OwnedObject)
        ensures
            united(owned_object_view(*self), owned_object_view(*other), owned_object_view(r)),
    {
        OwnedObject { entries: self.entries.union(&other.entries) }
    }

    /// The entries of both objects; under a key that both have, the
    /// value of this one.
    pub fn union(&self, other: &OwnedObject) -> (r: OwnedObject)
        ensures
            united(self@, other@, r@),
    {
        self.map_union(other)
    }

    /// `HashMap::difference` of im: the entries of this map whose keys
    /// `other` does not have.
    #[verifier::external_body]
    fn map_difference(&self, other: &OwnedObject) -> (r: OwnedObject)
        ensures
            parted(owned_object_view(*self), owned_object_view(*other), owned_object_view(r)),
    {
        OwnedObject { entries: self.entries.difference(&other.entries) }
    }

    /// The entries of this object whose keys `other` does not have.
    pub fn difference(&self, other: &OwnedObject) -> (r: OwnedObject)
        ensures
            parted(self@, other@, r@),
    {
        self.map_difference(other)
    }

    /// `HashMap::intersection` of im: the entries of this map whose keys
    /// `other` has too.
    #[verifier::external_body]
    fn map_intersection(&self, other: &OwnedObject) -> (r: OwnedObject)
        ensures
            shared(owned_object_view(*self), owned_object_view(*other), owned_object_view(r)),
    {
        OwnedObject { entries: self.entries.intersection(&other.entries) }
    }

    /// The entries of this object whose keys `other` has too.
    pub fn intersection(&self, other: &OwnedObject) -> (r: OwnedObject)
        ensures
            shared(self@, other@, r@),
    {
        self.map_intersection(other)
    }

    /// `HashMap::is_submap` of im: whether `other` has every key of this
    /// map, with a value `==` to the one here.
    #[verifier::external_body]
    fn map_is_submap(&self, other: &OwnedObject) -> (r: bool)
        ensures
            r ==> within(owned_object_view(*self), owned_object_view(*other)),
            all_plain(owned_object_view(*self)) && within(owned_object_view(*self), owned_object_view(*other)) ==> r,
    {
        self.entries.is_submap(&other.entries)
    }

    /// Whether `other` has every key of this object, with a value `==`
    /// to the one here.
    pub fn is_submap(&self, other: &OwnedObject) -> (r: bool)
        ensures
            r ==> within(self@, other@),
            all_plain(self@) && within(self@, other@) ==> r,
    {
        self.map_is_submap(other)
    }

    /// `HashMap::is_proper_submap` of im: whether `other` has every key
    /// of this map, with a value `==` to the one here, and a different
    /// number of entries.
    #[verifier::external_body]
    fn map_is_proper_submap(&self, other: &OwnedObject) -> (r: bool)
        ensures
            r ==> within(owned_object_view(*self), owned_object_view(*other)) && owned_object_view(*self).len() != owned_object_view(*other).len(),
            all_plain(owned_object_view(*self)) && within(owned_object_view(*self), owned_object_view(*other)) && owned_object_view(*self).len() != owned_object_view(*other).len()
                ==> r,
    {
        self.entries.is_proper_submap(&other.entries)
    }

    /// Whether `other` has every key of this object, with a value `==`
    /// to the one here, and a different number of entries.
    pub fn is_proper_submap(&self, other: &OwnedObject) -> (r: bool)
        ensures
            r ==> within(self@, other@) && self@.len() != other@.len(),
            all_plain(self@) && within(self@, other@) && self@.len() != other@.len()
                ==> r,
    {
        self.map_is_proper_submap(other)
    }

    /// An object without entries.
    pub fn empty() -> (r: OwnedObject)
        ensures
            r@ == Seq::<(ValueView, ValueView)>::empty(),
    {
        OwnedObject::new()
    }

    /// The entries, key and value, each a copy, in the object's own
    /// order. No plain key comes twice.
    pub fn to_pairs(&self) -> (r: Vec<(OwnedValue, OwnedValue)>)
        ensures
            owned_pair_views(r@) == self@,
            tidy(self@),
    {
        let entries = self.entries();
        let n = entries.len();
        let mut r: Vec<(OwnedValue, OwnedValue)> = Vec::new();
        let mut i: usize = 0;
        while i < n
            invariant
                n == entries@.len(),
                n == self@.len(),
                i <= n,
                entries@.map_values(|e: (Arc<OwnedValue>, Arc<OwnedValue>)| (e.0@, e.1@)) == self@,
                r@.len() == i,
                forall|j: int| 0 <= j < i ==> (#[trigger] r@[j]).0@ == self@[j].0 && r@[j].1@
                    == self@[j].1,
            decreases n - i,
        {
            assert(entries@.map_values(|e: (Arc<OwnedValue>, Arc<OwnedValue>)| (e.0@, e.1@))[i as int]
                == self@[i as int]);
            let key = (*entries[i].0).clone();
            let value = (*entries[i].1).clone();
            r.push((key, value));
            i += 1;
        }
        assert(owned_pair_views(r@) =~= self@);
        r
    }

    /// An object of the entries `pairs`, stored one after the other, so
    /// that a later pair takes the place of an earlier one whose key is
    /// `==` to its own. Where no plain key comes twice, each pair whose
    /// key is plain is an entry of the object, and if all keys are plain
    /// the object has as many entries as there are pairs. Where no key is
    /// like another, the object has exactly the pairs as its entries. In
    /// any case each pair whose key is like the key of no later pair is an
    /// entry of the object.
    pub fn from_pairs(pairs: &Vec<(OwnedValue, OwnedValue)>) -> (r: OwnedObject)
        ensures
            r@.len() <= pairs@.len(),
            forall|j: int| 0 <= j < r@.len() ==> comes_from(owned_pair_views(pairs@), #[trigger] r@[j]),
            tidy(owned_pair_views(pairs@)) ==> entries_mirror(owned_pair_views(pairs@), r@),
            gathered(owned_pair_views(pairs@), r@),
            forall|x: int|
                0 <= x < pairs@.len() && #[trigger] unrivalled(owned_pair_views(pairs@), x) ==> r@.contains(
                    owned_pair_views(pairs@)[x],
                ),
            tidy(r@),
    {
        let ghost source = owned_pair_views(pairs@);
        let n = pairs.len();
        let mut r = OwnedObject::new();
        let mut i: usize = 0;
        proof {
            lemma_mirror_none(source);
        }
        while i < n
            invariant
                n == pairs@.len(),
                source == owned_pair_views(pairs@),
                i <= n,
                r@.len() <= i,
                forall|j: int|
                    0 <= j < r@.len() ==> comes_from(source.subrange(0, i as int), #[trigger] r@[j]),
                tidy(source) ==> entries_mirror(source.subrange(0, i as int), r@),
                unlike_keys(source) ==> gathered(source.subrange(0, i as int), r@),
                forall|x: int|
                    0 <= x < i && #[trigger] unrivalled(source, x) ==> r@.contains(source[x]),
                tidy(r@),
            decreases n - i,
        {
            let key = pairs[i].0.clone();
            let value = pairs[i].1.clone();
            let ghost before = r@;
            r.set_mut(key, value);
            proof {
                let seen = source.subrange(0, i as int);
                assert(source.subrange(0, i + 1) =~= seen.push(source[i as int]));
                law_mirrors_itself(key@);
                law_mirrors_itself(value@);
                lemma_step_comes_from(seen, source[i as int], before, r@, key@, value@);
                if tidy(source) {
                    lemma_mirror_step(source, i as int, before, r@, key@, value@);
                }
                lemma_gather_step(source, i as int, before, r@);
                lemma_unrivalled_step(source, i as int, before, r@);
            }
            i += 1;
        }
        proof {
            assert(source.subrange(0, n as int) =~= source);
        }
        r
    }

    /// The same entries, but `v` under `k`.
    pub fn insert(&self, k: OwnedValue, v: OwnedValue) -> (r: OwnedObject)
        ensures
            stored(self@, r@, k@, v@),
    {
        self.insert_shared(Arc::new(k), Arc::new(v))
    }

    /// `HashMap::insert_with` of im, which is given `f` as it stands and
    /// calls it itself. Stated of it, and not proved:
    /// The same entries, but under `k` what `f` makes of the value that
    /// was there and `v`; `v` itself if there was none.
    #[verifier::external_body]
    fn map_insert_with<F>(self, k: OwnedValue, v: OwnedValue, f: F) -> (r: OwnedObject) where
        F: Fn(Arc<OwnedValue>, Arc<OwnedValue>) -> Arc<OwnedValue>,

        requires
            forall|old: Arc<OwnedValue>, new: Arc<OwnedValue>| f.requires((old, new)),
        ensures
            owned_put_with(f, self@, r@, k@, v@),
    {
        OwnedObject { entries: self.entries.insert_with(k, v, f) }
    }

    /// The same entries, but under `k` what `f` makes of the value that
    /// was there and `v`; `v` itself if there was none.
    pub fn insert_with<F>(self, k: OwnedValue, v: OwnedValue, f: F) -> (r: OwnedObject) where
        F: Fn(Arc<OwnedValue>, Arc<OwnedValue>) -> Arc<OwnedValue>,

        requires
            forall|old: Arc<OwnedValue>, new: Arc<OwnedValue>| f.requires((old, new)),
        ensures
            owned_put_with(f, self@, r@, k@, v@),
    {
        self.map_insert_with(k, v, f)
    }

    /// `HashMap::insert_with_key` of im, which is given `f` as it stands and
    /// calls it itself. Stated of it, and not proved:
    /// The same entries, but under `k` what `f` makes of `k`, the value
    /// that was there and `v`; `v` itself if there was none.
    #[verifier::external_body]
    fn map_insert_with_key<F>(self, k: OwnedValue, v: OwnedValue, f: F) -> (r: OwnedObject) where
        F: Fn(Arc<OwnedValue>, Arc<OwnedValue>, Arc<OwnedValue>) -> Arc<OwnedValue>,

        requires
            forall|key: Arc<OwnedValue>, old: Arc<OwnedValue>, new: Arc<OwnedValue>|
                f.requires((key, old, new)),
        ensures
            owned_put_with_key(f, self@, r@, k@, v@),
    {
        OwnedObject { entries: self.entries.insert_with_key(k, v, f) }
    }

    /// The same entries, but under `k` what `f` makes of `k`, the value
    /// that was there and `v`; `v` itself if there was none.
    pub fn insert_with_key<F>(self, k: OwnedValue, v: OwnedValue, f: F) -> (r: OwnedObject) where
        F: Fn(Arc<OwnedValue>, Arc<OwnedValue>, Arc<OwnedValue>) -> Arc<OwnedValue>,

        requires
            forall|key: Arc<OwnedValue>, old: Arc<OwnedValue>, new: Arc<OwnedValue>|
                f.requires((key, old, new)),
        ensures
            owned_put_with_key(f, self@, r@, k@, v@),
    {
        self.map_insert_with_key(k, v, f)
    }

    /// `HashMap::insert_lookup_with_key` of im, which is given `f` as it stands and
    /// calls it itself. Stated of it, and not proved:
    /// As [`insert_with_key`](Self::insert_with_key), and with it the value
    /// that was under `k`, if there was one.
    #[verifier::external_body]
    fn map_insert_lookup_with_key<F>(self, k: OwnedValue, v: OwnedValue, f: F) -> (r: (
        Option<Arc<OwnedValue>>,
        OwnedObject,
    )) where F: Fn(Arc<OwnedValue>, Arc<OwnedValue>, Arc<OwnedValue>) -> Arc<OwnedValue>
        requires
            forall|key: Arc<OwnedValue>, old: Arc<OwnedValue>, new: Arc<OwnedValue>|
                f.requires((key, old, new)),
        ensures
            match r.0 {
                Some(old) => exists|key: Arc<OwnedValue>, new: Arc<OwnedValue>, out: Arc<OwnedValue>|
                    key@ == k@ && new@ == v@ && #[trigger] f.ensures((key, old, new), out)
                        && replaced(self@, r.1@, k@, old@, k@, out@),
                None => !(k@.plain() && has_key(self@, k@)) && stored(self@, r.1@, k@, v@),
            },
    {
        let (found, entries) = self.entries.insert_lookup_with_key(k, v, f);
        (found, OwnedObject { entries })
    }

    /// As [`insert_with_key`](Self::insert_with_key), and with it the value
    /// that was under `k`, if there was one.
    pub fn insert_lookup_with_key<F>(self, k: OwnedValue, v: OwnedValue, f: F) -> (r: (
        Option<Arc<OwnedValue>>,
        OwnedObject,
    )) where F: Fn(Arc<OwnedValue>, Arc<OwnedValue>, Arc<OwnedValue>) -> Arc<OwnedValue>
        requires
            forall|key: Arc<OwnedValue>, old: Arc<OwnedValue>, new: Arc<OwnedValue>|
                f.requires((key, old, new)),
        ensures
            match r.0 {
                Some(old) => exists|key: Arc<OwnedValue>, new: Arc<OwnedValue>, out: Arc<OwnedValue>|
                    key@ == k@ && new@ == v@ && #[trigger] f.ensures((key, old, new), out)
                        && replaced(self@, r.1@, k@, old@, k@, out@),
                None => !(k@.plain() && has_key(self@, k@)) && stored(self@, r.1@, k@, v@),
            },
    {
        self.map_insert_lookup_with_key(k, v, f)
    }

    /// `HashMap::update` of im, which is given `f` as it stands and
    /// calls it itself. Stated of it, and not proved:
    /// The same entries, but what `f` makes of the value under `k` in its
    /// place, under the key as it was stored; without the entry if `f`
    /// makes nothing of it. As it was if nothing is found under `k`.
    #[verifier::external_body]
    fn map_update<F>(&self, k: &OwnedValue, f: F) -> (r: OwnedObject) where
        F: Fn(Arc<OwnedValue>) -> Option<Arc<OwnedValue>>,

        requires
            forall|old: Arc<OwnedValue>| f.requires((old,)),
        ensures
            owned_changed(f, self@, r@, k@),
    {
        OwnedObject { entries: self.entries.update(k, f) }
    }

    /// The same entries, but what `f` makes of the value under `k` in its
    /// place, under the key as it was stored; without the entry if `f`
    /// makes nothing of it. As it was if nothing is found under `k`.
    pub fn update<F>(&self, k: &OwnedValue, f: F) -> (r: OwnedObject) where
        F: Fn(Arc<OwnedValue>) -> Option<Arc<OwnedValue>>,

        requires
            forall|old: Arc<OwnedValue>| f.requires((old,)),
        ensures
            owned_changed(f, self@, r@, k@),
    {
        self.map_update(k, f)
    }

    /// `HashMap::update_with_key` of im, which is given `f` as it stands and
    /// calls it itself. Stated of it, and not proved:
    /// As [`update`](Self::update), with a function that is given the key
    /// as it was stored, too.
    #[verifier::external_body]
    fn map_update_with_key<F>(&self, k: &OwnedValue, f: F) -> (r: OwnedObject) where
        F: Fn(Arc<OwnedValue>, Arc<OwnedValue>) -> Option<Arc<OwnedValue>>,

        requires
            forall|key: Arc<OwnedValue>, old: Arc<OwnedValue>| f.requires((key, old)),
        ensures
            owned_changed_by_key(f, self@, r@, k@),
    {
        OwnedObject { entries: self.entries.update_with_key(k, f) }
    }

    /// As [`update`](Self::update), with a function that is given the key
    /// as it was stored, too.
    pub fn update_with_key<F>(&self, k: &OwnedValue, f: F) -> (r: OwnedObject) where
        F: Fn(Arc<OwnedValue>, Arc<OwnedValue>) -> Option<Arc<OwnedValue>>,

        requires
            forall|key: Arc<OwnedValue>, old: Arc<OwnedValue>| f.requires((key, old)),
        ensures
            owned_changed_by_key(f, self@, r@, k@),
    {
        self.map_update_with_key(k, f)
    }

    /// `HashMap::update_lookup_with_key` of im, which is given `f` as it stands and
    /// calls it itself. Stated of it, and not proved:
    /// As [`update_with_key`](Self::update_with_key), and with it the
    /// value that is under the key afterwards, or the one that was taken
    /// out.
    #[verifier::external_body]
    fn map_update_lookup_with_key<F>(&self, k: &OwnedValue, f: F) -> (r: (
        Option<Arc<OwnedValue>>,
        OwnedObject,
    )) where F: Fn(Arc<OwnedValue>, Arc<OwnedValue>) -> Option<Arc<OwnedValue>>
        requires
            forall|key: Arc<OwnedValue>, old: Arc<OwnedValue>| f.requires((key, old)),
        ensures
            match r.0 {
                None => r.1@ == self@ && !(k@.plain() && has_key(self@, k@)),
                Some(shown) => (exists|key: Arc<OwnedValue>| #[trigger]
                    f.ensures((key, shown), None) && key@.same(k@) && taken(
                        self@,
                        r.1@,
                        k@,
                        shown@,
                    )) || (exists|key: Arc<OwnedValue>, old: Arc<OwnedValue>| #[trigger]
                    f.ensures((key, old), Some(shown)) && key@.same(k@) && replaced(
                        self@,
                        r.1@,
                        k@,
                        old@,
                        key@,
                        shown@,
                    )),
            },
    {
        let (found, entries) = self.entries.update_lookup_with_key(k, f);
        (found, OwnedObject { entries })
    }

    /// As [`update_with_key`](Self::update_with_key), and with it the
    /// value that is under the key afterwards, or the one that was taken
    /// out.
    pub fn update_lookup_with_key<F>(&self, k: &OwnedValue, f: F) -> (r: (
        Option<Arc<OwnedValue>>,
        OwnedObject,
    )) where F: Fn(Arc<OwnedValue>, Arc<OwnedValue>) -> Option<Arc<OwnedValue>>
        requires
            forall|key: Arc<OwnedValue>, old: Arc<OwnedValue>| f.requires((key, old)),
        ensures
            match r.0 {
                None => r.1@ == self@ && !(k@.plain() && has_key(self@, k@)),
                Some(shown) => (exists|key: Arc<OwnedValue>| #[trigger]
                    f.ensures((key, shown), None) && key@.same(k@) && taken(
                        self@,
                        r.1@,
                        k@,
                        shown@,
                    )) || (exists|key: Arc<OwnedValue>, old: Arc<OwnedValue>| #[trigger]
                    f.ensures((key, old), Some(shown)) && key@.same(k@) && replaced(
                        self@,
                        r.1@,
                        k@,
                        old@,
                        key@,
                        shown@,
                    )),
            },
    {
        self.map_update_lookup_with_key(k, f)
    }

    /// `HashMap::alter` of im, which is given `f` as it stands and
    /// calls it itself. Stated of it, and not proved:
    /// The same entries, but under `k` what `f` makes of the value that
    /// is there, or of there being none; without the entry if `f` makes
    /// nothing of it.
    #[verifier::external_body]
    fn map_alter<F>(&self, f: F, k: OwnedValue) -> (r: OwnedObject) where
        F: Fn(Option<Arc<OwnedValue>>) -> Option<Arc<OwnedValue>>,

        requires
            forall|old: Option<Arc<OwnedValue>>| f.requires((old,)),
        ensures
            owned_altered(f, self@, r@, k@),
    {
        OwnedObject { entries: self.entries.alter(f, k) }
    }

    /// The same entries, but under `k` what `f` makes of the value that
    /// is there, or of there being none; without the entry if `f` makes
    /// nothing of it.
    pub fn alter<F>(&self, f: F, k: OwnedValue) -> (r: OwnedObject) where
        F: Fn(Option<Arc<OwnedValue>>) -> Option<Arc<OwnedValue>>,

        requires
            forall|old: Option<Arc<OwnedValue>>| f.requires((old,)),
        ensures
            owned_altered(f, self@, r@, k@),
    {
        self.map_alter(f, k)
    }

    /// `HashMap::union_with` of im, which is given `f` as it stands and
    /// calls it itself. Stated of it, and not proved:
    /// The entries of both objects; under a key that both have, what
    /// `f` makes of the value here and the value in `other`. Each entry of
    /// the result is one of this object, or one of `other`, or has a key
    /// of `other` and a value that `f` made of a value found here under
    /// that key and the value that `other` has under it. An entry of this
    /// object whose key is like no key of `other` is an entry of the
    /// result; and for each plain key of `other` the result has, under
    /// that key, what `f` made if this object has the key, and the entry
    /// of `other` if it has not.
    #[verifier::external_body]
    fn map_union_with<F>(&self, other: &OwnedObject, f: F) -> (r: OwnedObject) where
        F: Fn(Arc<OwnedValue>, Arc<OwnedValue>) -> Arc<OwnedValue>,

        requires
            forall|old: Arc<OwnedValue>, new: Arc<OwnedValue>| f.requires((old, new)),
        ensures
            forall|j: int|
                0 <= j < r@.len() ==> self@.contains(#[trigger] r@[j]) || other@.contains(r@[j])
                    || owned_joined(f, self@, other@, r@[j]),
            forall|i: int|
                0 <= i < self@.len() && apart((#[trigger] self@[i]).0, other@) ==> r@.contains(
                    self@[i],
                ),
            forall|j: int|
                0 <= j < other@.len() && (#[trigger] other@[j]).0.plain() ==> if has_key(
                    self@,
                    other@[j].0,
                ) {
                    owned_joined_under(f, self@, other@, r@, other@[j].0)
                } else {
                    r@.contains(other@[j])
                },
    {
        OwnedObject { entries: self.entries.union_with(&other.entries, f) }
    }

    /// The entries of both objects; under a key that both have, what
    /// `f` makes of the value here and the value in `other`. Each entry of
    /// the result is one of this object, or one of `other`, or has a key
    /// of `other` and a value that `f` made of a value found here under
    /// that key and the value that `other` has under it. An entry of this
    /// object whose key is like no key of `other` is an entry of the
    /// result; and for each plain key of `other` the result has, under
    /// that key, what `f` made if this object has the key, and the entry
    /// of `other` if it has not.
    pub fn union_with<F>(&self, other: &OwnedObject, f: F) -> (r: OwnedObject) where
        F: Fn(Arc<OwnedValue>, Arc<OwnedValue>) -> Arc<OwnedValue>,

        requires
            forall|old: Arc<OwnedValue>, new: Arc<OwnedValue>| f.requires((old, new)),
        ensures
            forall|j: int|
                0 <= j < r@.len() ==> self@.contains(#[trigger] r@[j]) || other@.contains(r@[j])
                    || owned_joined(f, self@, other@, r@[j]),
            forall|i: int|
                0 <= i < self@.len() && apart((#[trigger] self@[i]).0, other@) ==> r@.contains(
                    self@[i],
                ),
            forall|j: int|
                0 <= j < other@.len() && (#[trigger] other@[j]).0.plain() ==> if has_key(
                    self@,
                    other@[j].0,
                ) {
                    owned_joined_under(f, self@, other@, r@, other@[j].0)
                } else {
                    r@.contains(other@[j])
                },
    {
        self.map_union_with(other, f)
    }

    /// `HashMap::union_with_key` of im, which is given `f` as it stands and
    /// calls it itself. Stated of it, and not proved:
    /// As [`union_with`](Self::union_with), with a function that is given
    /// the key, too.
    #[verifier::external_body]
    fn map_union_with_key<F>(&self, other: &OwnedObject, f: F) -> (r: OwnedObject) where
        F: Fn(Arc<OwnedValue>, Arc<OwnedValue>, Arc<OwnedValue>) -> Arc<OwnedValue>,

        requires
            forall|key: Arc<OwnedValue>, old: Arc<OwnedValue>, new: Arc<OwnedValue>|
                f.requires((key, old, new)),
        ensures
            forall|j: int|
                0 <= j < r@.len() ==> self@.contains(#[trigger] r@[j]) || other@.contains(r@[j])
                    || owned_joined_by_key(f, self@, other@, r@[j]),
            forall|i: int|
                0 <= i < self@.len() && apart((#[trigger] self@[i]).0, other@) ==> r@.contains(
                    self@[i],
                ),
            forall|j: int|
                0 <= j < other@.len() && (#[trigger] other@[j]).0.plain() ==> if has_key(
                    self@,
                    other@[j].0,
                ) {
                    owned_joined_by_key_under(f, self@, other@, r@, other@[j].0)
                } else {
                    r@.contains(other@[j])
                },
    {
        OwnedObject { entries: self.entries.union_with_key(&other.entries, f) }
    }

    /// As [`union_with`](Self::union_with), with a function that is given
    /// the key, too.
    pub fn union_with_key<F>(&self, other: &OwnedObject, f: F) -> (r: OwnedObject) where
        F: Fn(Arc<OwnedValue>, Arc<OwnedValue>, Arc<OwnedValue>) -> Arc<OwnedValue>,

        requires
            forall|key: Arc<OwnedValue>, old: Arc<OwnedValue>, new: Arc<OwnedValue>|
                f.requires((key, old, new)),
        ensures
            forall|j: int|
                0 <= j < r@.len() ==> self@.contains(#[trigger] r@[j]) || other@.contains(r@[j])
                    || owned_joined_by_key(f, self@, other@, r@[j]),
            forall|i: int|
                0 <= i < self@.len() && apart((#[trigger] self@[i]).0, other@) ==> r@.contains(
                    self@[i],
                ),
            forall|j: int|
                0 <= j < other@.len() && (#[trigger] other@[j]).0.plain() ==> if has_key(
                    self@,
                    other@[j].0,
                ) {
                    owned_joined_by_key_under(f, self@, other@, r@, other@[j].0)
                } else {
                    r@.contains(other@[j])
                },
    {
        self.map_union_with_key(other, f)
    }

    /// `HashMap::intersection_with` of im, which is given `f` as it stands and
    /// calls it itself. Stated of it, and not proved:
    /// The entries of this object whose keys `other` has too, each with
    /// what `f` makes of the value here and the value in `other`, under
    /// the key as `other` has it. Under each plain key of `other` that
    /// this object has, the result has such a value.
    #[verifier::external_body]
    fn map_intersection_with<F>(&self, other: &OwnedObject, f: F) -> (r: OwnedObject) where
        F: Fn(Arc<OwnedValue>, Arc<OwnedValue>) -> Arc<OwnedValue>,

        requires
            forall|old: Arc<OwnedValue>, new: Arc<OwnedValue>| f.requires((old, new)),
        ensures
            forall|j: int| 0 <= j < r@.len() ==> owned_joined(f, self@, other@, #[trigger] r@[j]),
            forall|j: int|
                0 <= j < other@.len() && (#[trigger] other@[j]).0.plain() && has_key(
                    self@,
                    other@[j].0,
                ) ==> owned_joined_under(f, self@, other@, r@, other@[j].0),
    {
        OwnedObject { entries: self.entries.intersection_with(&other.entries, f) }
    }

    /// The entries of this object whose keys `other` has too, each with
    /// what `f` makes of the value here and the value in `other`, under
    /// the key as `other` has it. Under each plain key of `other` that
    /// this object has, the result has such a value.
    pub fn intersection_with<F>(&self, other: &OwnedObject, f: F) -> (r: OwnedObject) where
        F: Fn(Arc<OwnedValue>, Arc<OwnedValue>) -> Arc<OwnedValue>,

        requires
            forall|old: Arc<OwnedValue>, new: Arc<OwnedValue>| f.requires((old, new)),
        ensures
            forall|j: int| 0 <= j < r@.len() ==> owned_joined(f, self@, other@, #[trigger] r@[j]),
            forall|j: int|
                0 <= j < other@.len() && (#[trigger] other@[j]).0.plain() && has_key(
                    self@,
                    other@[j].0,
                ) ==> owned_joined_under(f, self@, other@, r@, other@[j].0),
    {
        self.map_intersection_with(other, f)
    }

    /// `HashMap::intersection_with_key` of im, which is given `f` as it stands and
    /// calls it itself. Stated of it, and not proved:
    /// As [`intersection_with`](Self::intersection_with), with a function
    /// that is given the key, too.
    #[verifier::external_body]
    fn map_intersection_with_key<F>(&self, other: &OwnedObject, f: F) -> (r: OwnedObject) where
        F: Fn(Arc<OwnedValue>, Arc<OwnedValue>, Arc<OwnedValue>) -> Arc<OwnedValue>,

        requires
            forall|key: Arc<OwnedValue>, old: Arc<OwnedValue>, new: Arc<OwnedValue>|
                f.requires((key, old, new)),
        ensures
            forall|j: int|
                0 <= j < r@.len() ==> owned_joined_by_key(f, self@, other@, #[trigger] r@[j]),
            forall|j: int|
                0 <= j < other@.len() && (#[trigger] other@[j]).0.plain() && has_key(
                    self@,
                    other@[j].0,
                ) ==> owned_joined_by_key_under(f, self@, other@, r@, other@[j].0),
    {
        OwnedObject { entries: self.entries.intersection_with_key(&other.entries, f) }
    }

    /// As [`intersection_with`](Self::intersection_with), with a function
    /// that is given the key, too.
    pub fn intersection_with_key<F>(&self, other: &OwnedObject, f: F) -> (r: OwnedObject) where
        F: Fn(Arc<OwnedValue>, Arc<OwnedValue>, Arc<OwnedValue>) -> Arc<OwnedValue>,

        requires
            forall|key: Arc<OwnedValue>, old: Arc<OwnedValue>, new: Arc<OwnedValue>|
                f.requires((key, old, new)),
        ensures
            forall|j: int|
                0 <= j < r@.len() ==> owned_joined_by_key(f, self@, other@, #[trigger] r@[j]),
            forall|j: int|
                0 <= j < other@.len() && (#[trigger] other@[j]).0.plain() && has_key(
                    self@,
                    other@[j].0,
                ) ==> owned_joined_by_key_under(f, self@, other@, r@, other@[j].0),
    {
        self.map_intersection_with_key(other, f)
    }

    /// `HashMap::difference_with` of im, which is given `f` as it stands and
    /// calls it itself. Stated of it, and not proved:
    /// The entries of this object, but for each key that `other` has too
    /// what `f` makes of the value under it and the value in `other`, or
    /// nothing if `f` makes nothing of them. Each entry of the result is
    /// one of this object, or has a key of `other` and a value that `f`
    /// made with the value that `other` has under that key. An entry of
    /// this object whose key is like no key of `other` is an entry of the
    /// result.
    #[verifier::external_body]
    fn map_difference_with<F>(&self, other: &OwnedObject, f: F) -> (r: OwnedObject) where
        F: Fn(Arc<OwnedValue>, Arc<OwnedValue>) -> Option<Arc<OwnedValue>>,

        requires
            forall|old: Arc<OwnedValue>, new: Arc<OwnedValue>| f.requires((old, new)),
        ensures
            forall|j: int|
                0 <= j < r@.len() ==> self@.contains(#[trigger] r@[j]) || owned_settled(
                    f,
                    other@,
                    r@[j],
                ),
            forall|i: int|
                0 <= i < self@.len() && apart((#[trigger] self@[i]).0, other@) ==> r@.contains(
                    self@[i],
                ),
    {
        OwnedObject { entries: self.entries.difference_with(&other.entries, f) }
    }

    /// The entries of this object, but for each key that `other` has too
    /// what `f` makes of the value under it and the value in `other`, or
    /// nothing if `f` makes nothing of them. Each entry of the result is
    /// one of this object, or has a key of `other` and a value that `f`
    /// made with the value that `other` has under that key. An entry of
    /// this object whose key is like no key of `other` is an entry of the
    /// result.
    pub fn difference_with<F>(&self, other: &OwnedObject, f: F) -> (r: OwnedObject) where
        F: Fn(Arc<OwnedValue>, Arc<OwnedValue>) -> Option<Arc<OwnedValue>>,

        requires
            forall|old: Arc<OwnedValue>, new: Arc<OwnedValue>| f.requires((old, new)),
        ensures
            forall|j: int|
                0 <= j < r@.len() ==> self@.contains(#[trigger] r@[j]) || owned_settled(
                    f,
                    other@,
                    r@[j],
                ),
            forall|i: int|
                0 <= i < self@.len() && apart((#[trigger] self@[i]).0, other@) ==> r@.contains(
                    self@[i],
                ),
    {
        self.map_difference_with(other, f)
    }

    /// `HashMap::difference_with_key` of im, which is given `f` as it stands and
    /// calls it itself. Stated of it, and not proved:
    /// As [`difference_with`](Self::difference_with), with a function that
    /// is given the key, too.
    #[verifier::external_body]
    fn map_difference_with_key<F>(&self, other: &OwnedObject, f: F) -> (r: OwnedObject) where
        F: Fn(Arc<OwnedValue>, Arc<OwnedValue>, Arc<OwnedValue>) -> Option<Arc<OwnedValue>>,

        requires
            forall|key: Arc<OwnedValue>, old: Arc<OwnedValue>, new: Arc<OwnedValue>|
                f.requires((key, old, new)),
        ensures
            forall|j: int|
                0 <= j < r@.len() ==> self@.contains(#[trigger] r@[j]) || owned_settled_by_key(
                    f,
                    other@,
                    r@[j],
                ),
            forall|i: int|
                0 <= i < self@.len() && apart((#[trigger] self@[i]).0, other@) ==> r@.contains(
                    self@[i],
                ),
    {
        OwnedObject { entries: self.entries.difference_with_key(&other.entries, f) }
    }

    /// As [`difference_with`](Self::difference_with), with a function that
    /// is given the key, too.
    pub fn difference_with_key<F>(&self, other: &OwnedObject, f: F) -> (r: OwnedObject) where
        F: Fn(Arc<OwnedValue>, Arc<OwnedValue>, Arc<OwnedValue>) -> Option<Arc<OwnedValue>>,

        requires
            forall|key: Arc<OwnedValue>, old: Arc<OwnedValue>, new: Arc<OwnedValue>|
                f.requires((key, old, new)),
        ensures
            forall|j: int|
                0 <= j < r@.len() ==> self@.contains(#[trigger] r@[j]) || owned_settled_by_key(
                    f,
                    other@,
                    r@[j],
                ),
            forall|i: int|
                0 <= i < self@.len() && apart((#[trigger] self@[i]).0, other@) ==> r@.contains(
                    self@[i],
                ),
    {
        self.map_difference_with_key(other, f)
    }

    /// `HashMap::is_submap_by` of im, which is given `judge` as it stands and
    /// calls it itself. Stated of it, and not proved:
    /// Whether `other` has every key of this object, with a value that
    /// `judge` takes for the one here.
    #[verifier::external_body]
    fn map_is_submap_by<F>(&self, other: &OwnedObject, judge: F) -> (r: bool) where
        F: Fn(Arc<OwnedValue>, Arc<OwnedValue>) -> bool,

        requires
            forall|here: Arc<OwnedValue>, there: Arc<OwnedValue>| judge.requires((here, there)),
        ensures
            r ==> forall|i: int| 0 <= i < self@.len() ==> owned_matched(judge, other@, #[trigger] self@[i]),
            !r ==> exists|i: int| 0 <= i < self@.len() && owned_unmatched(judge, other@, #[trigger] self@[i]),
    {
        self.entries.is_submap_by(&other.entries, judge)
    }

    /// Whether `other` has every key of this object, with a value that
    /// `judge` takes for the one here.
    pub fn is_submap_by<F>(&self, other: &OwnedObject, judge: F) -> (r: bool) where
        F: Fn(Arc<OwnedValue>, Arc<OwnedValue>) -> bool,

        requires
            forall|here: Arc<OwnedValue>, there: Arc<OwnedValue>| judge.requires((here, there)),
        ensures
            r ==> forall|i: int| 0 <= i < self@.len() ==> owned_matched(judge, other@, #[trigger] self@[i]),
            !r ==> exists|i: int| 0 <= i < self@.len() && owned_unmatched(judge, other@, #[trigger] self@[i]),
    {
        self.map_is_submap_by(other, judge)
    }

    /// `HashMap::is_proper_submap_by` of im, which is given `judge` as it stands and
    /// calls it itself. Stated of it, and not proved:
    /// Whether `other` has every key of this object, with a value that
    /// `judge` takes for the one here, and a different number of entries.
    #[verifier::external_body]
    fn map_is_proper_submap_by<F>(&self, other: &OwnedObject, judge: F) -> (r: bool) where
        F: Fn(Arc<OwnedValue>, Arc<OwnedValue>) -> bool,

        requires
            forall|here: Arc<OwnedValue>, there: Arc<OwnedValue>| judge.requires((here, there)),
        ensures
            r ==> self@.len() != other@.len() && forall|i: int|
                0 <= i < self@.len() ==> owned_matched(judge, other@, #[trigger] self@[i]),
            !r ==> self@.len() == other@.len() || exists|i: int|
                0 <= i < self@.len() && owned_unmatched(judge, other@, #[trigger] self@[i]),
    {
        self.entries.is_proper_submap_by(&other.entries, judge)
    }

    /// Whether `other` has every key of this object, with a value that
    /// `judge` takes for the one here, and a different number of entries.
    pub fn is_proper_submap_by<F>(&self, other: &OwnedObject, judge: F) -> (r: bool) where
        F: Fn(Arc<OwnedValue>, Arc<OwnedValue>) -> bool,

        requires
            forall|here: Arc<OwnedValue>, there: Arc<OwnedValue>| judge.requires((here, there)),
        ensures
            r ==> self@.len() != other@.len() && forall|i: int|
                0 <= i < self@.len() ==> owned_matched(judge, other@, #[trigger] self@[i]),
            !r ==> self@.len() == other@.len() || exists|i: int|
                0 <= i < self@.len() && owned_unmatched(judge, other@, #[trigger] self@[i]),
    {
        self.map_is_proper_submap_by(other, judge)
    }

    /// The value under `key`; the null of the language if nothing is
    /// found.
    pub fn get(&self, key: &OwnedValue) -> (r: Arc<OwnedValue>)
        ensures
            holds(self@, key@, r@) || r@ == null_view(),
            key@.plain() && has_key(self@, key@) ==> holds(self@, key@, r@),
            key@.object_free() && has_key(self@, key@) ==> holds(self@, key@, r@),
            !has_key(self@, key@) ==> r@ == null_view(),
    {
        match self.get_opt(key) {
            Some(v) => v,
            None => get_null_owned(),
        }
    }
}

impl Clone for OwnedObject {
    /// `Clone::clone` of im's hash map: an object of the same entries in
    /// the same order, sharing their storage.
    #[verifier::external_body]
    fn clone(&self) -> (r: OwnedObject)
        ensures
            owned_object_view(r) == owned_object_view(*self),
    {
        OwnedObject { entries: self.entries.clone() }
    }
}

impl Default for OwnedObject {
    fn default() -> (r: OwnedObject)
        ensures
            r@ == Seq::<(ValueView, ValueView)>::empty(),
    {
        OwnedObject::new()
    }
}

impl PartialEq for OwnedObject {
    /// `PartialEq::eq` of im's hash map: the same number of entries, and
    /// for each entry of the one an entry of the other with a key and a
    /// value `==` to its own. So equal objects are alike.
    #[verifier::external_body]
    fn eq(&self, other: &OwnedObject) -> (r: bool)
        ensures
            r ==> ValueView::Object(owned_object_view(*self)).same(ValueView::Object(owned_object_view(*other)))
                && ValueView::Object(owned_object_view(*other)).same(ValueView::Object(owned_object_view(*self))),
    {
        self.entries == other.entries
    }
}

impl Eq for OwnedObject {

}

impl Hash for OwnedObject {
    /// `Hash::hash` of im's hash map: hashes the entries in the object's
    /// own order.
    #[verifier::external_body]
    fn hash<H: Hasher>(&self, state: &mut H) {
        self.entries.hash(state)
    }
}

} // verus!
