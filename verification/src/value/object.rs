//! Objects: mappings from a key to a value, both of any kind.

use crate::table::SymbolTable;
use crate::value::convert::law_mirrors_itself;
use crate::value::convert::lemma_mirror_none;
use crate::value::convert::lemma_mirror_step;
use crate::value::convert::lemma_step_comes_from;
use crate::value::view::comes_from;
use crate::value::view::entries_mirror;
use crate::value::view::gathered;
use crate::value::view::lemma_gather_step;
use crate::value::view::lemma_unrivalled_step;
use crate::value::view::unlike_keys;
use crate::value::view::unrivalled;
use crate::value::view::all_plain;
use crate::value::view::apart;
use crate::value::view::has_key;
use crate::value::view::holds;
use crate::value::view::null_view;
use crate::value::view::parted;
use crate::value::view::removed;
use crate::value::view::replaced;
use crate::value::view::shared;
use crate::value::view::stored;
use crate::value::view::taken;
use crate::value::view::tidy;
use crate::value::view::united;
use crate::value::view::within;
use crate::value::view::ValueView;
use crate::value::value::Value;
use core::hash::Hash;
use core::hash::Hasher;
use std::sync::Arc;
use std::sync::RwLock;
use vstd::prelude::*;

verus! {

/// A mapping from values to values.
///
/// The entries live in a persistent hash map of the im crate: a copy
/// shares its structure with the one it was made from, and an operation that does not
/// take `&mut self` leaves the object it is called on as it was. A key is
/// found again by `==` and its hash. The order in which an object hands
/// out its entries is its own, and not that in which they were put in.
#[verifier::external_body]
#[derive(Debug)]
pub struct Object {
    entries: im::HashMap<Value, Value>,
}

/// The entries that an object holds, in the order in which it hands them
/// out.
pub uninterp spec fn object_view(object: Object) -> Seq<(ValueView, ValueView)>;

/// The locks of the symbol tables that the symbols in an object are linked
/// to, in keys and in values, at any depth.
pub uninterp spec fn object_links(object: Object) -> Set<RwLock<SymbolTable>>;

impl View for Object {
    type V = Seq<(ValueView, ValueView)>;

    open spec fn view(&self) -> Seq<(ValueView, ValueView)> {
        object_view(*self)
    }
}

/// The null of the language: an object without entries.
pub fn get_null() -> (r: Arc<Value>)
    ensures
        r@ == null_view(),
{
    Arc::new(Value::Object(Object::empty()))
}

/// The entries that `pairs` are, each pair by its key and its value as
/// they are in contracts.
pub open spec fn pair_views(pairs: Seq<(Value, Value)>) -> Seq<(ValueView, ValueView)> {
    Seq::new(pairs.len(), |i: int| (pairs[i].0@, pairs[i].1@))
}

/// Whether the value of `e` is one that `f` can make of a value that `a`
/// has under the key of `e` and the value that `b` has under that very key.
pub open spec fn joined<F: Fn(Arc<Value>, Arc<Value>) -> Arc<Value>>(
    f: F,
    a: Seq<(ValueView, ValueView)>,
    b: Seq<(ValueView, ValueView)>,
    e: (ValueView, ValueView),
) -> bool {
    exists|old: Arc<Value>, new: Arc<Value>, out: Arc<Value>|
        holds(a, e.0, old@) && b.contains((e.0, new@)) && #[trigger] f.ensures((old, new), out)
            && out@ == e.1
}

/// As [`joined`], for a function that is given the key, too.
pub open spec fn joined_by_key<
    F: Fn(Arc<Value>, Arc<Value>, Arc<Value>) -> Arc<Value>,
>(f: F, a: Seq<(ValueView, ValueView)>, b: Seq<(ValueView, ValueView)>, e: (ValueView, ValueView)) -> bool {
    exists|key: Arc<Value>, old: Arc<Value>, new: Arc<Value>, out: Arc<Value>|
        key@ == e.0 && holds(a, e.0, old@) && b.contains((e.0, new@)) && #[trigger] f.ensures(
            (key, old, new),
            out,
        ) && out@ == e.1
}

/// Whether `r` has, under the very key `key`, a value that `f` can make of a
/// value that `a` has under that key and the value that `b` has under it.
pub open spec fn joined_under<F: Fn(Arc<Value>, Arc<Value>) -> Arc<Value>>(
    f: F,
    a: Seq<(ValueView, ValueView)>,
    b: Seq<(ValueView, ValueView)>,
    r: Seq<(ValueView, ValueView)>,
    key: ValueView,
) -> bool {
    exists|e: (ValueView, ValueView)|
        r.contains(e) && e.0 == key && #[trigger] joined(f, a, b, e)
}

/// As [`joined_under`], for a function that is given the key, too.
pub open spec fn joined_by_key_under<
    F: Fn(Arc<Value>, Arc<Value>, Arc<Value>) -> Arc<Value>,
>(
    f: F,
    a: Seq<(ValueView, ValueView)>,
    b: Seq<(ValueView, ValueView)>,
    r: Seq<(ValueView, ValueView)>,
    key: ValueView,
) -> bool {
    exists|e: (ValueView, ValueView)|
        r.contains(e) && e.0 == key && #[trigger] joined_by_key(f, a, b, e)
}

/// Whether `r` is `a` once `v` was put under `k` with `f`: under `k` what
/// `f` makes of a value that was there and `v`, or `v` itself where
/// nothing was found under `k`.
pub open spec fn put_with<F: Fn(Arc<Value>, Arc<Value>) -> Arc<Value>>(
    f: F,
    a: Seq<(ValueView, ValueView)>,
    r: Seq<(ValueView, ValueView)>,
    k: ValueView,
    v: ValueView,
) -> bool {
    (exists|old: Arc<Value>, new: Arc<Value>, out: Arc<Value>|
        new@ == v && #[trigger] f.ensures((old, new), out) && replaced(a, r, k, old@, k, out@)) || (!(
    k.plain() && has_key(a, k)) && stored(a, r, k, v))
}

/// As [`put_with`], for a function that is given the key, too.
pub open spec fn put_with_key<
    F: Fn(Arc<Value>, Arc<Value>, Arc<Value>) -> Arc<Value>,
>(f: F, a: Seq<(ValueView, ValueView)>, r: Seq<(ValueView, ValueView)>, k: ValueView, v: ValueView) -> bool {
    (exists|key: Arc<Value>, old: Arc<Value>, new: Arc<Value>, out: Arc<Value>|
        key@ == k && new@ == v && #[trigger] f.ensures((key, old, new), out) && replaced(
            a,
            r,
            k,
            old@,
            k,
            out@,
        )) || (!(k.plain() && has_key(a, k)) && stored(a, r, k, v))
}

/// Whether `r` is `a` once `f` was put to the value under `k`: as it was
/// where nothing was found under `k`; without the entry where `f` made
/// nothing of its value; and else with what `f` made of it, under the key
/// as it was stored.
pub open spec fn changed<F: Fn(Arc<Value>) -> Option<Arc<Value>>>(
    f: F,
    a: Seq<(ValueView, ValueView)>,
    r: Seq<(ValueView, ValueView)>,
    k: ValueView,
) -> bool {
    (r == a && !(k.plain() && has_key(a, k))) || (exists|old: Arc<Value>| #[trigger]
        f.ensures((old,), None) && taken(a, r, k, old@)) || (exists|
        old: Arc<Value>,
        out: Arc<Value>,
        key: ValueView,
    | #[trigger]
        f.ensures((old,), Some(out)) && key.same(k) && #[trigger] replaced(a, r, k, old@, key, out@))
}

/// As [`changed`], for a function that is given the key as it was
/// stored, too.
pub open spec fn changed_by_key<F: Fn(Arc<Value>, Arc<Value>) -> Option<Arc<Value>>>(
    f: F,
    a: Seq<(ValueView, ValueView)>,
    r: Seq<(ValueView, ValueView)>,
    k: ValueView,
) -> bool {
    (r == a && !(k.plain() && has_key(a, k))) || (exists|key: Arc<Value>, old: Arc<Value>| #[trigger]
        f.ensures((key, old), None) && key@.same(k) && taken(a, r, k, old@)) || (exists|
        key: Arc<Value>,
        old: Arc<Value>,
        out: Arc<Value>,
    | #[trigger]
        f.ensures((key, old), Some(out)) && key@.same(k) && replaced(a, r, k, old@, key@, out@))
}

/// Whether `r` is `a` once `f` was put to what is under `k`, a value or
/// none: `f` was given what was found, and what it made is under `k`, or
/// the entry is gone where it made nothing.
pub open spec fn altered<F: Fn(Option<Arc<Value>>) -> Option<Arc<Value>>>(
    f: F,
    a: Seq<(ValueView, ValueView)>,
    r: Seq<(ValueView, ValueView)>,
    k: ValueView,
) -> bool {
    exists|found: Option<Arc<Value>>, out: Option<Arc<Value>>| #[trigger]
        f.ensures((found,), out) && match (found, out) {
            (None, None) => r == a && !(k.plain() && has_key(a, k)),
            (None, Some(new)) => !(k.plain() && has_key(a, k)) && stored(a, r, k, new@),
            (Some(old), None) => taken(a, r, k, old@),
            (Some(old), Some(new)) => replaced(a, r, k, old@, k, new@),
        }
}

/// Whether the value of `e` is one that `f` can make of some value and the
/// value that `b` has under the key of `e`.
pub open spec fn settled<F: Fn(Arc<Value>, Arc<Value>) -> Option<Arc<Value>>>(
    f: F,
    b: Seq<(ValueView, ValueView)>,
    e: (ValueView, ValueView),
) -> bool {
    exists|old: Arc<Value>, new: Arc<Value>, out: Arc<Value>|
        b.contains((e.0, new@)) && #[trigger] f.ensures((old, new), Some(out)) && out@ == e.1
}

/// As [`settled`], for a function that is given the key, too.
pub open spec fn settled_by_key<
    F: Fn(Arc<Value>, Arc<Value>, Arc<Value>) -> Option<Arc<Value>>,
>(f: F, b: Seq<(ValueView, ValueView)>, e: (ValueView, ValueView)) -> bool {
    exists|key: Arc<Value>, old: Arc<Value>, new: Arc<Value>, out: Arc<Value>|
        key@ == e.0 && b.contains((e.0, new@)) && #[trigger] f.ensures((key, old, new), Some(out))
            && out@ == e.1
}

/// Whether `b` has, under a key like that of `e`, a value that `judge` takes
/// for the value of `e`.
pub open spec fn matched<F: Fn(Arc<Value>, Arc<Value>) -> bool>(
    judge: F,
    b: Seq<(ValueView, ValueView)>,
    e: (ValueView, ValueView),
) -> bool {
    exists|here: Arc<Value>, there: Arc<Value>|
        here@ == e.1 && holds(b, e.0, there@) && #[trigger] judge.ensures((here, there), true)
}

/// Whether the key of `e` was not found in `b`, or the value found under
/// it is one that `judge` does not take for the value of `e`.
pub open spec fn unmatched<F: Fn(Arc<Value>, Arc<Value>) -> bool>(
    judge: F,
    b: Seq<(ValueView, ValueView)>,
    e: (ValueView, ValueView),
) -> bool {
    !(e.0.plain() && has_key(b, e.0)) || exists|here: Arc<Value>, there: Arc<Value>|
        here@ == e.1 && holds(b, e.0, there@) && #[trigger] judge.ensures((here, there), false)
}

impl Object {
    /// `HashMap::new` of im: a map without entries. No symbol is in it, and so no link.
    #[verifier::external_body]
    fn map_new() -> (r: Object)
        ensures
            object_view(r) == Seq::<(ValueView, ValueView)>::empty(),
            object_links(r) == Set::<RwLock<SymbolTable>>::empty(),
    {
        Object { entries: im::HashMap::new() }
    }

    /// An object without entries. No symbol is in it, and so no link.
    pub fn new() -> (r: Object)
        ensures
            r@ == Seq::<(ValueView, ValueView)>::empty(),
            object_links(r) == Set::<RwLock<SymbolTable>>::empty(),
    {
        Self::map_new()
    }

    /// `HashMap::singleton` of im: a map of the one entry `v` under `k`.
    #[verifier::external_body]
    fn map_singleton(k: Value, v: Value) -> (r: Object)
        ensures
            object_view(r) == seq![(k@, v@)],
    {
        Object { entries: im::HashMap::singleton(k, v) }
    }

    /// An object of the one entry `v` under `k`.
    pub fn singleton(k: Value, v: Value) -> (r: Object)
        ensures
            r@ == seq![(k@, v@)],
    {
        Self::map_singleton(k, v)
    }

    /// `HashMap::is_empty` of im: whether there is no entry.
    #[verifier::external_body]
    fn map_is_empty(&self) -> (r: bool)
        ensures
            r == (object_view(*self).len() == 0),
    {
        self.entries.is_empty()
    }

    /// Whether there is no entry.
    pub fn is_empty(&self) -> (r: bool)
        ensures
            r == (self@.len() == 0),
    {
        self.map_is_empty()
    }

    /// `HashMap::len` of im: the number of entries.
    #[verifier::external_body]
    fn map_len(&self) -> (r: usize)
        ensures
            r == object_view(*self).len(),
    {
        self.entries.len()
    }

    /// The number of entries.
    pub fn len(&self) -> (r: usize)
        ensures
            r == self@.len(),
    {
        self.map_len()
    }

    /// `HashMap::iter` of im, collected: a handle to the key and to the
    /// value of each entry, in the map's own order. No plain key comes twice.
    #[verifier::external_body]
    fn map_iter(&self) -> (r: Vec<(Arc<Value>, Arc<Value>)>)
        ensures
            r@.map_values(|e: (Arc<Value>, Arc<Value>)| (e.0@, e.1@)) == object_view(*self),
            tidy(r@.map_values(|e: (Arc<Value>, Arc<Value>)| (e.0@, e.1@))),
    {
        self.entries.iter().collect()
    }

    /// A handle to the key and to the value of each entry, in the
    /// object's own order. No plain key comes twice.
    pub fn entries(&self) -> (r: Vec<(Arc<Value>, Arc<Value>)>)
        ensures
            r@.map_values(|e: (Arc<Value>, Arc<Value>)| (e.0@, e.1@)) == self@,
            tidy(r@.map_values(|e: (Arc<Value>, Arc<Value>)| (e.0@, e.1@))),
    {
        self.map_iter()
    }

    /// `HashMap::keys` of im, collected: a handle to the key of each
    /// entry, in the map's own order.
    #[verifier::external_body]
    fn map_keys(&self) -> (r: Vec<Arc<Value>>)
        ensures
            r@.map_values(|k: Arc<Value>| k@) == object_view(*self).map_values(|e: (ValueView, ValueView)| e.0),
    {
        self.entries.keys().collect()
    }

    /// A handle to the key of each entry, in the object's own order.
    pub fn keys(&self) -> (r: Vec<Arc<Value>>)
        ensures
            r@.map_values(|k: Arc<Value>| k@) == self@.map_values(|e: (ValueView, ValueView)| e.0),
    {
        self.map_keys()
    }

    /// `HashMap::values` of im, collected: a handle to the value of each
    /// entry, in the map's own order.
    #[verifier::external_body]
    fn map_values(&self) -> (r: Vec<Arc<Value>>)
        ensures
            r@.map_values(|v: Arc<Value>| v@) == object_view(*self).map_values(|e: (ValueView, ValueView)| e.1),
    {
        self.entries.values().collect()
    }

    /// A handle to the value of each entry, in the object's own order.
    pub fn values(&self) -> (r: Vec<Arc<Value>>)
        ensures
            r@.map_values(|v: Arc<Value>| v@) == self@.map_values(|e: (ValueView, ValueView)| e.1),
    {
        self.map_values()
    }

    /// `HashMap::get` of im: the value under a key that is `==` to `k`.
    /// What is found is the value of an entry whose key is like `k`; a plain
    /// key is found whenever an entry has it.
    #[verifier::external_body]
    fn map_get(&self, k: &Value) -> (r: Option<Arc<Value>>)
        ensures
            r matches Some(v) ==> holds(object_view(*self), k@, v@),
            k@.plain() && has_key(object_view(*self), k@) ==> r is Some,
    {
        self.entries.get(k)
    }

    /// The value under a key that is `==` to `k`. What is found is the
    /// value of an entry whose key is like `k`; a plain key is found
    /// whenever an entry has it.
    pub fn get_opt(&self, k: &Value) -> (r: Option<Arc<Value>>)
        ensures
            r matches Some(v) ==> holds(self@, k@, v@),
            k@.plain() && has_key(self@, k@) ==> r is Some,
    {
        self.map_get(k)
    }

    /// `HashMap::get_or` of im: the value under a key that is `==` to
    /// `k`, or `default` if nothing is found.
    #[verifier::external_body]
    fn map_get_or(&self, k: &Value, default: Value) -> (r: Arc<Value>)
        ensures
            holds(object_view(*self), k@, r@) || r@ == default@,
            k@.plain() && has_key(object_view(*self), k@) ==> holds(object_view(*self), k@, r@),
            !has_key(object_view(*self), k@) ==> r@ == default@,
    {
        self.entries.get_or(k, default)
    }

    /// The value under a key that is `==` to `k`, or `default` if
    /// nothing is found.
    pub fn get_or(&self, k: &Value, default: Value) -> (r: Arc<Value>)
        ensures
            holds(self@, k@, r@) || r@ == default@,
            k@.plain() && has_key(self@, k@) ==> holds(self@, k@, r@),
            !has_key(self@, k@) ==> r@ == default@,
    {
        self.map_get_or(k, default)
    }

    /// `HashMap::contains_key` of im: whether a key is `==` to `k`.
    #[verifier::external_body]
    fn map_contains_key(&self, k: &Value) -> (r: bool)
        ensures
            r ==> has_key(object_view(*self), k@),
            k@.plain() && has_key(object_view(*self), k@) ==> r,
    {
        self.entries.contains_key(k)
    }

    /// Whether a key is `==` to `k`.
    pub fn contains_key(&self, k: &Value) -> (r: bool)
        ensures
            r ==> has_key(self@, k@),
            k@.plain() && has_key(self@, k@) ==> r,
    {
        self.map_contains_key(k)
    }

    /// `HashMap::insert` of im: the same entries, but the value behind
    /// `v` under the key behind `k`.
    #[verifier::external_body]
    fn map_insert(&self, k: Arc<Value>, v: Arc<Value>) -> (r: Object)
        ensures
            stored(object_view(*self), object_view(r), k@, v@),
    {
        Object { entries: self.entries.insert(k, v) }
    }

    /// The same entries, but the value behind `v` under the key behind
    /// `k`, neither of them copied.
    pub fn insert_shared(&self, k: Arc<Value>, v: Arc<Value>) -> (r: Object)
        ensures
            stored(self@, r@, k@, v@),
    {
        self.map_insert(k, v)
    }

    /// `HashMap::insert_mut` of im: stores `v` under `k`.
    #[verifier::external_body]
    fn map_insert_mut(&mut self, k: Value, v: Value)
        ensures
            stored(object_view(*old(self)), object_view(*final(self)), k@, v@),
    {
        self.entries.insert_mut(k, v)
    }

    /// Stores `v` under `k`.
    pub fn insert_mut(&mut self, k: Value, v: Value)
        ensures
            stored(old(self)@, final(self)@, k@, v@),
    {
        self.map_insert_mut(k, v)
    }

    /// `HashMap::set` of im: the same entries, but `v` under `k`.
    #[verifier::external_body]
    fn map_set(&self, k: Value, v: Value) -> (r: Object)
        ensures
            stored(object_view(*self), object_view(r), k@, v@),
    {
        Object { entries: self.entries.set(k, v) }
    }

    /// The same entries, but `v` under `k`.
    pub fn set(&self, k: Value, v: Value) -> (r: Object)
        ensures
            stored(self@, r@, k@, v@),
    {
        self.map_set(k, v)
    }

    /// `HashMap::set_mut` of im: stores `v` under `k`. No link comes in but those of `k` and `v`.
    #[verifier::external_body]
    fn map_set_mut(&mut self, k: Value, v: Value)
        ensures
            stored(object_view(*old(self)), object_view(*final(self)), k@, v@),
            object_links(*final(self)).subset_of(object_links(*old(self)).union(k.links()).union(v.links())),
    {
        self.entries.set_mut(k, v)
    }

    /// Stores `v` under `k`. No link comes in but those of `k` and `v`.
    pub fn set_mut(&mut self, k: Value, v: Value)
        ensures
            stored(old(self)@, final(self)@, k@, v@),
            object_links(*final(self)).subset_of(object_links(*old(self)).union(k.links()).union(v.links())),
    {
        self.map_set_mut(k, v)
    }

    /// `HashMap::remove` of im: the same entries without the one whose
    /// key is `==` to `k`.
    #[verifier::external_body]
    fn map_remove(&self, k: &Value) -> (r: Object)
        ensures
            removed(object_view(*self), object_view(r), k@),
    {
        Object { entries: self.entries.remove(k) }
    }

    /// The same entries without the one whose key is `==` to `k`.
    pub fn remove(&self, k: &Value) -> (r: Object)
        ensures
            removed(self@, r@, k@),
    {
        self.map_remove(k)
    }

    /// `HashMap::remove_mut` of im: takes out the entry whose key is
    /// `==` to `k`.
    #[verifier::external_body]
    fn map_remove_mut(&mut self, k: &Value)
        ensures
            removed(object_view(*old(self)), object_view(*final(self)), k@),
    {
        self.entries.remove_mut(k)
    }

    /// Takes out the entry whose key is `==` to `k`.
    pub fn remove_mut(&mut self, k: &Value)
        ensures
            removed(old(self)@, final(self)@, k@),
    {
        self.map_remove_mut(k)
    }

    /// `HashMap::pop` of im: the value under a key that is `==` to `k`,
    /// and the map without that entry.
    #[verifier::external_body]
    fn map_pop(&self, k: &Value) -> (r: Option<(Arc<Value>, Object)>)
        ensures
            match r {
                Some((v, rest)) => holds(object_view(*self), k@, v@) && removed(object_view(*self), object_view(rest), k@)
                    && object_view(rest).len() + 1 == object_view(*self).len(),
                None => !(k@.plain() && has_key(object_view(*self), k@)),
            },
    {
        self.entries.pop(k).map(|(v, entries)| (v, Object { entries }))
    }

    /// The value under a key that is `==` to `k`, and the object without
    /// that entry.
    pub fn pop(&self, k: &Value) -> (r: Option<(Arc<Value>, Object)>)
        ensures
            match r {
                Some((v, rest)) => holds(self@, k@, v@) && removed(self@, rest@, k@)
                    && rest@.len() + 1 == self@.len(),
                None => !(k@.plain() && has_key(self@, k@)),
            },
    {
        self.map_pop(k)
    }

    /// `HashMap::pop_mut` of im: takes out the entry whose key is `==`
    /// to `k`, and hands out its value.
    #[verifier::external_body]
    fn map_pop_mut(&mut self, k: &Value) -> (r: Option<Arc<Value>>)
        ensures
            match r {
                Some(v) => holds(object_view(*old(self)), k@, v@) && removed(object_view(*old(self)), object_view(*final(self)), k@)
                    && object_view(*final(self)).len() + 1 == object_view(*old(self)).len(),
                None => !(k@.plain() && has_key(object_view(*old(self)), k@)) && object_view(*final(self)) == object_view(*old(self)),
            },
    {
        self.entries.pop_mut(k)
    }

    /// Takes out the entry whose key is `==` to `k`, and hands out its
    /// value.
    pub fn pop_mut(&mut self, k: &Value) -> (r: Option<Arc<Value>>)
        ensures
            match r {
                Some(v) => holds(old(self)@, k@, v@) && removed(old(self)@, final(self)@, k@)
                    && final(self)@.len() + 1 == old(self)@.len(),
                None => !(k@.plain() && has_key(old(self)@, k@)) && final(self)@ == old(self)@,
            },
    {
        self.map_pop_mut(k)
    }

    /// `HashMap::pop_with_key` of im: the entry whose key is `==` to `k`,
    /// key and value, and the map without it.
    #[verifier::external_body]
    fn map_pop_with_key(&self, k: &Value) -> (r: Option<(Arc<Value>, Arc<Value>, Object)>)
        ensures
            match r {
                Some((key, v, rest)) => object_view(*self).contains((key@, v@)) && key@.same(k@) && removed(
                    object_view(*self),
                    object_view(rest),
                    k@,
                ) && object_view(rest).len() + 1 == object_view(*self).len(),
                None => !(k@.plain() && has_key(object_view(*self), k@)),
            },
    {
        self.entries.pop_with_key(k).map(|(key, v, entries)| (key, v, Object { entries }))
    }

    /// The entry whose key is `==` to `k`, key and value, and the
    /// object without it.
    pub fn pop_with_key(&self, k: &Value) -> (r: Option<(Arc<Value>, Arc<Value>, Object)>)
        ensures
            match r {
                Some((key, v, rest)) => self@.contains((key@, v@)) && key@.same(k@) && removed(
                    self@,
                    rest@,
                    k@,
                ) && rest@.len() + 1 == self@.len(),
                None => !(k@.plain() && has_key(self@, k@)),
            },
    {
        self.map_pop_with_key(k)
    }

    /// `HashMap::pop_with_key_mut` of im: takes out the entry whose key is
    /// `==` to `k`, and hands out its key and value.
    #[verifier::external_body]
    fn map_pop_with_key_mut(&mut self, k: &Value) -> (r: Option<(Arc<Value>, Arc<Value>)>)
        ensures
            match r {
                Some((key, v)) => object_view(*old(self)).contains((key@, v@)) && key@.same(k@) && removed(
                    object_view(*old(self)),
                    object_view(*final(self)),
                    k@,
                ) && object_view(*final(self)).len() + 1 == object_view(*old(self)).len(),
                None => !(k@.plain() && has_key(object_view(*old(self)), k@)) && object_view(*final(self)) == object_view(*old(self)),
            },
    {
        self.entries.pop_with_key_mut(k)
    }

    /// Takes out the entry whose key is `==` to `k`, and hands out its
    /// key and value.
    pub fn pop_with_key_mut(&mut self, k: &Value) -> (r: Option<(Arc<Value>, Arc<Value>)>)
        ensures
            match r {
                Some((key, v)) => old(self)@.contains((key@, v@)) && key@.same(k@) && removed(
                    old(self)@,
                    final(self)@,
                    k@,
                ) && final(self)@.len() + 1 == old(self)@.len(),
                None => !(k@.plain() && has_key(old(self)@, k@)) && final(self)@ == old(self)@,
            },
    {
        self.map_pop_with_key_mut(k)
    }

    /// `HashMap::union` of im: the entries of both maps; under a key
    /// that both have, the value of this one.
    #[verifier::external_body]
    fn map_union(&self, other: &Object) -> (r: Object)
        ensures
            united(object_view(*self), object_view(*other), object_view(r)),
    {
        Object { entries: self.entries.union(&other.entries) }
    }

    /// The entries of both objects; under a key that both have, the
    /// value of this one.
    pub fn union(&self, other: &Object) -> (r: Object)
        ensures
            united(self@, other@, r@),
    {
        self.map_union(other)
    }

    /// `HashMap::difference` of im: the entries of this map whose keys
    /// `other` does not have.
    #[verifier::external_body]
    fn map_difference(&self, other: &Object) -> (r: Object)
        ensures
            parted(object_view(*self), object_view(*other), object_view(r)),
    {
        Object { entries: self.entries.difference(&other.entries) }
    }

    /// The entries of this object whose keys `other` does not have.
    pub fn difference(&self, other: &Object) -> (r: Object)
        ensures
            parted(self@, other@, r@),
    {
        self.map_difference(other)
    }

    /// `HashMap::intersection` of im: the entries of this map whose keys
    /// `other` has too.
    #[verifier::external_body]
    fn map_intersection(&self, other: &Object) -> (r: Object)
        ensures
            shared(object_view(*self), object_view(*other), object_view(r)),
    {
        Object { entries: self.entries.intersection(&other.entries) }
    }

    /// The entries of this object whose keys `other` has too.
    pub fn intersection(&self, other: &Object) -> (r: Object)
        ensures
            shared(self@, other@, r@),
    {
        self.map_intersection(other)
    }

    /// `HashMap::is_submap` of im: whether `other` has every key of this
    /// map, with a value `==` to the one here.
    #[verifier::external_body]
    fn map_is_submap(&self, other: &Object) -> (r: bool)
        ensures
            r ==> within(object_view(*self), object_view(*other)),
            all_plain(object_view(*self)) && within(object_view(*self), object_view(*other)) ==> r,
    {
        self.entries.is_submap(&other.entries)
    }

    /// Whether `other` has every key of this object, with a value `==`
    /// to the one here.
    pub fn is_submap(&self, other: &Object) -> (r: bool)
        ensures
            r ==> within(self@, other@),
            all_plain(self@) && within(self@, other@) ==> r,
    {
        self.map_is_submap(other)
    }

    /// `HashMap::is_proper_submap` of im: whether `other` has every key
    /// of this map, with a value `==` to the one here, and a different
    /// number of entries.
    #[verifier::external_body]
    fn map_is_proper_submap(&self, other: &Object) -> (r: bool)
        ensures
            r ==> within(object_view(*self), object_view(*other)) && object_view(*self).len() != object_view(*other).len(),
            all_plain(object_view(*self)) && within(object_view(*self), object_view(*other)) && object_view(*self).len() != object_view(*other).len()
                ==> r,
    {
        self.entries.is_proper_submap(&other.entries)
    }

    /// Whether `other` has every key of this object, with a value `==`
    /// to the one here, and a different number of entries.
    pub fn is_proper_submap(&self, other: &Object) -> (r: bool)
        ensures
            r ==> within(self@, other@) && self@.len() != other@.len(),
            all_plain(self@) && within(self@, other@) && self@.len() != other@.len()
                ==> r,
    {
        self.map_is_proper_submap(other)
    }

    /// An object without entries.
    pub fn empty() -> (r: Object)
        ensures
            r@ == Seq::<(ValueView, ValueView)>::empty(),
    {
        Object::new()
    }

    /// The entries, key and value, each a copy, in the object's own
    /// order. No plain key comes twice.
    pub fn to_pairs(&self) -> (r: Vec<(Value, Value)>)
        ensures
            pair_views(r@) == self@,
            tidy(self@),
    {
        let entries = self.entries();
        let n = entries.len();
        let mut r: Vec<(Value, Value)> = Vec::new();
        let mut i: usize = 0;
        while i < n
            invariant
                n == entries@.len(),
                n == self@.len(),
                i <= n,
                entries@.map_values(|e: (Arc<Value>, Arc<Value>)| (e.0@, e.1@)) == self@,
                r@.len() == i,
                forall|j: int| 0 <= j < i ==> (#[trigger] r@[j]).0@ == self@[j].0 && r@[j].1@
                    == self@[j].1,
            decreases n - i,
        {
            assert(entries@.map_values(|e: (Arc<Value>, Arc<Value>)| (e.0@, e.1@))[i as int]
                == self@[i as int]);
            let key = (*entries[i].0).clone();
            let value = (*entries[i].1).clone();
            r.push((key, value));
            i += 1;
        }
        assert(pair_views(r@) =~= self@);
        r
    }

    /// An object of the entries `pairs`, stored one after the other, so
    /// that a later pair takes the place of an earlier one whose key is
    /// `==` to its own. Where no plain key comes twice, each pair whose
    /// key is plain is an entry of the object, and if all keys are plain
    /// the object has as many entries as there are pairs. Where no key is
    /// like another, the object has exactly the pairs as its entries. In
    /// any case each pair whose key is like the key of no later pair is an
    /// entry of the object.
    pub fn from_pairs(pairs: &Vec<(Value, Value)>) -> (r: Object)
        ensures
            r@.len() <= pairs@.len(),
            forall|j: int| 0 <= j < r@.len() ==> comes_from(pair_views(pairs@), #[trigger] r@[j]),
            tidy(pair_views(pairs@)) ==> entries_mirror(pair_views(pairs@), r@),
            gathered(pair_views(pairs@), r@),
            forall|x: int|
                0 <= x < pairs@.len() && #[trigger] unrivalled(pair_views(pairs@), x) ==> r@.contains(
                    pair_views(pairs@)[x],
                ),
            tidy(r@),
    {
        let ghost source = pair_views(pairs@);
        let n = pairs.len();
        let mut r = Object::new();
        let mut i: usize = 0;
        proof {
            lemma_mirror_none(source);
        }
        while i < n
            invariant
                n == pairs@.len(),
                source == pair_views(pairs@),
                i <= n,
                r@.len() <= i,
                forall|j: int|
                    0 <= j < r@.len() ==> comes_from(source.subrange(0, i as int), #[trigger] r@[j]),
                tidy(source) ==> entries_mirror(source.subrange(0, i as int), r@),
                unlike_keys(source) ==> gathered(source.subrange(0, i as int), r@),
                forall|x: int|
                    0 <= x < i && #[trigger] unrivalled(source, x) ==> r@.contains(source[x]),
                tidy(r@),
            decreases n - i,
        {
            let key = pairs[i].0.clone();
            let value = pairs[i].1.clone();
            let ghost before = r@;
            r.set_mut(key, value);
            proof {
                let seen = source.subrange(0, i as int);
                assert(source.subrange(0, i + 1) =~= seen.push(source[i as int]));
                law_mirrors_itself(key@);
                law_mirrors_itself(value@);
                lemma_step_comes_from(seen, source[i as int], before, r@, key@, value@);
                if tidy(source) {
                    lemma_mirror_step(source, i as int, before, r@, key@, value@);
                }
                lemma_gather_step(source, i as int, before, r@);
                lemma_unrivalled_step(source, i as int, before, r@);
            }
            i += 1;
        }
        proof {
            assert(source.subrange(0, n as int) =~= source);
        }
        r
    }

    /// The same entries, but `v` under `k`.
    pub fn insert(&self, k: Value, v: Value) -> (r: Object)
        ensures
            stored(self@, r@, k@, v@),
    {
        self.insert_shared(Arc::new(k), Arc::new(v))
    }

    /// `HashMap::insert_with` of im, which is given `f` as it stands and
    /// calls it itself. Stated of it, and not proved:
    /// The same entries, but under `k` what `f` makes of the value that
    /// was there and `v`; `v` itself if there was none.
    #[verifier::external_body]
    fn map_insert_with<F>(self, k: Value, v: Value, f: F) -> (r: Object) where
        F: Fn(Arc<Value>, Arc<Value>) -> Arc<Value>,

        requires
            forall|old: Arc<Value>, new: Arc<Value>| f.requires((old, new)),
        ensures
            put_with(f, self@, r@, k@, v@),
    {
        Object { entries: self.entries.insert_with(k, v, f) }
    }

    /// The same entries, but under `k` what `f` makes of the value that
    /// was there and `v`; `v` itself if there was none.
    pub fn insert_with<F>(self, k: Value, v: Value, f: F) -> (r: Object) where
        F: Fn(Arc<Value>, Arc<Value>) -> Arc<Value>,

        requires
            forall|old: Arc<Value>, new: Arc<Value>| f.requires((old, new)),
        ensures
            put_with(f, self@, r@, k@, v@),
    {
        self.map_insert_with(k, v, f)
    }

    /// `HashMap::insert_with_key` of im, which is given `f` as it stands and
    /// calls it itself. Stated of it, and not proved:
    /// The same entries, but under `k` what `f` makes of `k`, the value
    /// that was there and `v`; `v` itself if there was none.
    #[verifier::external_body]
    fn map_insert_with_key<F>(self, k: Value, v: Value, f: F) -> (r: Object) where
        F: Fn(Arc<Value>, Arc<Value>, Arc<Value>) -> Arc<Value>,

        requires
            forall|key: Arc<Value>, old: Arc<Value>, new: Arc<Value>|
                f.requires((key, old, new)),
        ensures
            put_with_key(f, self@, r@, k@, v@),
    {
        Object { entries: self.entries.insert_with_key(k, v, f) }
    }

    /// The same entries, but under `k` what `f` makes of `k`, the value
    /// that was there and `v`; `v` itself if there was none.
    pub fn insert_with_key<F>(self, k: Value, v: Value, f: F) -> (r: Object) where
        F: Fn(Arc<Value>, Arc<Value>, Arc<Value>) -> Arc<Value>,

        requires
            forall|key: Arc<Value>, old: Arc<Value>, new: Arc<Value>|
                f.requires((key, old, new)),
        ensures
            put_with_key(f, self@, r@, k@, v@),
    {
        self.map_insert_with_key(k, v, f)
    }

    /// `HashMap::insert_lookup_with_key` of im, which is given `f` as it stands and
    /// calls it itself. Stated of it, and not proved:
    /// As [`insert_with_key`](Self::insert_with_key), and with it the value
    /// that was under `k`, if there was one.
    #[verifier::external_body]
    fn map_insert_lookup_with_key<F>(self, k: Value, v: Value, f: F) -> (r: (
        Option<Arc<Value>>,
        Object,
    )) where F: Fn(Arc<Value>, Arc<Value>, Arc<Value>) -> Arc<Value>
        requires
            forall|key: Arc<Value>, old: Arc<Value>, new: Arc<Value>|
                f.requires((key, old, new)),
        ensures
            match r.0 {
                Some(old) => exists|key: Arc<Value>, new: Arc<Value>, out: Arc<Value>|
                    key@ == k@ && new@ == v@ && #[trigger] f.ensures((key, old, new), out)
                        && replaced(self@, r.1@, k@, old@, k@, out@),
                None => !(k@.plain() && has_key(self@, k@)) && stored(self@, r.1@, k@, v@),
            },
    {
        let (found, entries) = self.entries.insert_lookup_with_key(k, v, f);
        (found, Object { entries })
    }

    /// As [`insert_with_key`](Self::insert_with_key), and with it the value
    /// that was under `k`, if there was one.
    pub fn insert_lookup_with_key<F>(self, k: Value, v: Value, f: F) -> (r: (
        Option<Arc<Value>>,
        Object,
    )) where F: Fn(Arc<Value>, Arc<Value>, Arc<Value>) -> Arc<Value>
        requires
            forall|key: Arc<Value>, old: Arc<Value>, new: Arc<Value>|
                f.requires((key, old, new)),
        ensures
            match r.0 {
                Some(old) => exists|key: Arc<Value>, new: Arc<Value>, out: Arc<Value>|
                    key@ == k@ && new@ == v@ && #[trigger] f.ensures((key, old, new), out)
                        && replaced(self@, r.1@, k@, old@, k@, out@),
                None => !(k@.plain() && has_key(self@, k@)) && stored(self@, r.1@, k@, v@),
            },
    {
        self.map_insert_lookup_with_key(k, v, f)
    }

    /// `HashMap::update` of im, which is given `f` as it stands and
    /// calls it itself. Stated of it, and not proved:
    /// The same entries, but what `f` makes of the value under `k` in its
    /// place, under the key as it was stored; without the entry if `f`
    /// makes nothing of it. As it was if nothing is found under `k`.
    #[verifier::external_body]
    fn map_update<F>(&self, k: &Value, f: F) -> (r: Object) where
        F: Fn(Arc<Value>) -> Option<Arc<Value>>,

        requires
            forall|old: Arc<Value>| f.requires((old,)),
        ensures
            changed(f, self@, r@, k@),
    {
        Object { entries: self.entries.update(k, f) }
    }

    /// The same entries, but what `f` makes of the value under `k` in its
    /// place, under the key as it was stored; without the entry if `f`
    /// makes nothing of it. As it was if nothing is found under `k`.
    pub fn update<F>(&self, k: &Value, f: F) -> (r: Object) where
        F: Fn(Arc<Value>) -> Option<Arc<Value>>,

        requires
            forall|old: Arc<Value>| f.requires((old,)),
        ensures
            changed(f, self@, r@, k@),
    {
        self.map_update(k, f)
    }

    /// `HashMap::update_with_key` of im, which is given `f` as it stands and
    /// calls it itself. Stated of it, and not proved:
    /// As [`update`](Self::update), with a function that is given the key
    /// as it was stored, too.
    #[verifier::external_body]
    fn map_update_with_key<F>(&self, k: &Value, f: F) -> (r: Object) where
        F: Fn(Arc<Value>, Arc<Value>) -> Option<Arc<Value>>,

        requires
            forall|key: Arc<Value>, old: Arc<Value>| f.requires((key, old)),
        ensures
            changed_by_key(f, self@, r@, k@),
    {
        Object { entries: self.entries.update_with_key(k, f) }
    }

    /// As [`update`](Self::update), with a function that is given the key
    /// as it was stored, too.
    pub fn update_with_key<F>(&self, k: &Value, f: F) -> (r: Object) where
        F: Fn(Arc<Value>, Arc<Value>) -> Option<Arc<Value>>,

        requires
            forall|key: Arc<Value>, old: Arc<Value>| f.requires((key, old)),
        ensures
            changed_by_key(f, self@, r@, k@),
    {
        self.map_update_with_key(k, f)
    }

    /// `HashMap::update_lookup_with_key` of im, which is given `f` as it stands and
    /// calls it itself. Stated of it, and not proved:
    /// As [`update_with_key`](Self::update_with_key), and with it the
    /// value that is under the key afterwards, or the one that was taken
    /// out.
    #[verifier::external_body]
    fn map_update_lookup_with_key<F>(&self, k: &Value, f: F) -> (r: (
        Option<Arc<Value>>,
        Object,
    )) where F: Fn(Arc<Value>, Arc<Value>) -> Option<Arc<Value>>
        requires
            forall|key: Arc<Value>, old: Arc<Value>| f.requires((key, old)),
        ensures
            match r.0 {
                None => r.1@ == self@ && !(k@.plain() && has_key(self@, k@)),
                Some(shown) => (exists|key: Arc<Value>| #[trigger]
                    f.ensures((key, shown), None) && key@.same(k@) && taken(
                        self@,
                        r.1@,
                        k@,
                        shown@,
                    )) || (exists|key: Arc<Value>, old: Arc<Value>| #[trigger]
                    f.ensures((key, old), Some(shown)) && key@.same(k@) && replaced(
                        self@,
                        r.1@,
                        k@,
                        old@,
                        key@,
                        shown@,
                    )),
            },
    {
        let (found, entries) = self.entries.update_lookup_with_key(k, f);
        (found, Object { entries })
    }

    /// As [`update_with_key`](Self::update_with_key), and with it the
    /// value that is under the key afterwards, or the one that was taken
    /// out.
    pub fn update_lookup_with_key<F>(&self, k: &Value, f: F) -> (r: (
        Option<Arc<Value>>,
        Object,
    )) where F: Fn(Arc<Value>, Arc<Value>) -> Option<Arc<Value>>
        requires
            forall|key: Arc<Value>, old: Arc<Value>| f.requires((key, old)),
        ensures
            match r.0 {
                None => r.1@ == self@ && !(k@.plain() && has_key(self@, k@)),
                Some(shown) => (exists|key: Arc<Value>| #[trigger]
                    f.ensures((key, shown), None) && key@.same(k@) && taken(
                        self@,
                        r.1@,
                        k@,
                        shown@,
                    )) || (exists|key: Arc<Value>, old: Arc<Value>| #[trigger]
                    f.ensures((key, old), Some(shown)) && key@.same(k@) && replaced(
                        self@,
                        r.1@,
                        k@,
                        old@,
                        key@,
                        shown@,
                    )),
            },
    {
        self.map_update_lookup_with_key(k, f)
    }

    /// `HashMap::alter` of im, which is given `f` as it stands and
    /// calls it itself. Stated of it, and not proved:
    /// The same entries, but under `k` what `f` makes of the value that
    /// is there, or of there being none; without the entry if `f` makes
    /// nothing of it.
    #[verifier::external_body]
    fn map_alter<F>(&self, f: F, k: Value) -> (r: Object) where
        F: Fn(Option<Arc<Value>>) -> Option<Arc<Value>>,

        requires
            forall|old: Option<Arc<Value>>| f.requires((old,)),
        ensures
            altered(f, self@, r@, k@),
    {
        Object { entries: self.entries.alter(f, k) }
    }

    /// The same entries, but under `k` what `f` makes of the value that
    /// is there, or of there being none; without the entry if `f` makes
    /// nothing of it.
    pub fn alter<F>(&self, f: F, k: Value) -> (r: Object) where
        F: Fn(Option<Arc<Value>>) -> Option<Arc<Value>>,

        requires
            forall|old: Option<Arc<Value>>| f.requires((old,)),
        ensures
            altered(f, self@, r@, k@),
    {
        self.map_alter(f, k)
    }

    /// `HashMap::union_with` of im, which is given `f` as it stands and
    /// calls it itself. Stated of it, and not proved:
    /// The entries of both objects; under a key that both have, what
    /// `f` makes of the value here and the value in `other`. Each entry of
    /// the result is one of this object, or one of `other`, or has a key
    /// of `other` and a value that `f` made of a value found here under
    /// that key and the value that `other` has under it. An entry of this
    /// object whose key is like no key of `other` is an entry of the
    /// result; and for each plain key of `other` the result has, under
    /// that key, what `f` made if this object has the key, and the entry
    /// of `other` if it has not.
    #[verifier::external_body]
    fn map_union_with<F>(&self, other: &Object, f: F) -> (r: Object) where
        F: Fn(Arc<Value>, Arc<Value>) -> Arc<Value>,

        requires
            forall|old: Arc<Value>, new: Arc<Value>| f.requires((old, new)),
        ensures
            forall|j: int|
                0 <= j < r@.len() ==> self@.contains(#[trigger] r@[j]) || other@.contains(r@[j])
                    || joined(f, self@, other@, r@[j]),
            forall|i: int|
                0 <= i < self@.len() && apart((#[trigger] self@[i]).0, other@) ==> r@.contains(
                    self@[i],
                ),
            forall|j: int|
                0 <= j < other@.len() && (#[trigger] other@[j]).0.plain() ==> if has_key(
                    self@,
                    other@[j].0,
                ) {
                    joined_under(f, self@, other@, r@, other@[j].0)
                } else {
                    r@.contains(other@[j])
                },
    {
        Object { entries: self.entries.union_with(&other.entries, f) }
    }

    /// The entries of both objects; under a key that both have, what
    /// `f` makes of the value here and the value in `other`. Each entry of
    /// the result is one of this object, or one of `other`, or has a key
    /// of `other` and a value that `f` made of a value found here under
    /// that key and the value that `other` has under it. An entry of this
    /// object whose key is like no key of `other` is an entry of the
    /// result; and for each plain key of `other` the result has, under
    /// that key, what `f` made if this object has the key, and the entry
    /// of `other` if it has not.
    pub fn union_with<F>(&self, other: &Object, f: F) -> (r: Object) where
        F: Fn(Arc<Value>, Arc<Value>) -> Arc<Value>,

        requires
            forall|old: Arc<Value>, new: Arc<Value>| f.requires((old, new)),
        ensures
            forall|j: int|
                0 <= j < r@.len() ==> self@.contains(#[trigger] r@[j]) || other@.contains(r@[j])
                    || joined(f, self@, other@, r@[j]),
            forall|i: int|
                0 <= i < self@.len() && apart((#[trigger] self@[i]).0, other@) ==> r@.contains(
                    self@[i],
                ),
            forall|j: int|
                0 <= j < other@.len() && (#[trigger] other@[j]).0.plain() ==> if has_key(
                    self@,
                    other@[j].0,
                ) {
                    joined_under(f, self@, other@, r@, other@[j].0)
                } else {
                    r@.contains(other@[j])
                },
    {
        self.map_union_with(other, f)
    }

    /// `HashMap::union_with_key` of im, which is given `f` as it stands and
    /// calls it itself. Stated of it, and not proved:
    /// As [`union_with`](Self::union_with), with a function that is given
    /// the key, too.
    #[verifier::external_body]
    fn map_union_with_key<F>(&self, other: &Object, f: F) -> (r: Object) where
        F: Fn(Arc<Value>, Arc<Value>, Arc<Value>) -> Arc<Value>,

        requires
            forall|key: Arc<Value>, old: Arc<Value>, new: Arc<Value>|
                f.requires((key, old, new)),
        ensures
            forall|j: int|
                0 <= j < r@.len() ==> self@.contains(#[trigger] r@[j]) || other@.contains(r@[j])
                    || joined_by_key(f, self@, other@, r@[j]),
            forall|i: int|
                0 <= i < self@.len() && apart((#[trigger] self@[i]).0, other@) ==> r@.contains(
                    self@[i],
                ),
            forall|j: int|
                0 <= j < other@.len() && (#[trigger] other@[j]).0.plain() ==> if has_key(
                    self@,
                    other@[j].0,
                ) {
                    joined_by_key_under(f, self@, other@, r@, other@[j].0)
                } else {
                    r@.contains(other@[j])
                },
    {
        Object { entries: self.entries.union_with_key(&other.entries, f) }
    }

    /// As [`union_with`](Self::union_with), with a function that is given
    /// the key, too.
    pub fn union_with_key<F>(&self, other: &Object, f: F) -> (r: Object) where
        F: Fn(Arc<Value>, Arc<Value>, Arc<Value>) -> Arc<Value>,

        requires
            forall|key: Arc<Value>, old: Arc<Value>, new: Arc<Value>|
                f.requires((key, old, new)),
        ensures
            forall|j: int|
                0 <= j < r@.len() ==> self@.contains(#[trigger] r@[j]) || other@.contains(r@[j])
                    || joined_by_key(f, self@, other@, r@[j]),
            forall|i: int|
                0 <= i < self@.len() && apart((#[trigger] self@[i]).0, other@) ==> r@.contains(
                    self@[i],
                ),
            forall|j: int|
                0 <= j < other@.len() && (#[trigger] other@[j]).0.plain() ==> if has_key(
                    self@,
                    other@[j].0,
                ) {
                    joined_by_key_under(f, self@, other@, r@, other@[j].0)
                } else {
                    r@.contains(other@[j])
                },
    {
        self.map_union_with_key(other, f)
    }

    /// `HashMap::intersection_with` of im, which is given `f` as it stands and
    /// calls it itself. Stated of it, and not proved:
    /// The entries of this object whose keys `other` has too, each with
    /// what `f` makes of the value here and the value in `other`, under
    /// the key as `other` has it. Under each plain key of `other` that
    /// this object has, the result has such a value.
    #[verifier::external_body]
    fn map_intersection_with<F>(&self, other: &Object, f: F) -> (r: Object) where
        F: Fn(Arc<Value>, Arc<Value>) -> Arc<Value>,

        requires
            forall|old: Arc<Value>, new: Arc<Value>| f.requires((old, new)),
        ensures
            forall|j: int| 0 <= j < r@.len() ==> joined(f, self@, other@, #[trigger] r@[j]),
            forall|j: int|
                0 <= j < other@.len() && (#[trigger] other@[j]).0.plain() && has_key(
                    self@,
                    other@[j].0,
                ) ==> joined_under(f, self@, other@, r@, other@[j].0),
    {
        Object { entries: self.entries.intersection_with(&other.entries, f) }
    }

    /// The entries of this object whose keys `other` has too, each with
    /// what `f` makes of the value here and the value in `other`, under
    /// the key as `other` has it. Under each plain key of `other` that
    /// this object has, the result has such a value.
    pub fn intersection_with<F>(&self, other: &Object, f: F) -> (r: Object) where
        F: Fn(Arc<Value>, Arc<Value>) -> Arc<Value>,

        requires
            forall|old: Arc<Value>, new: Arc<Value>| f.requires((old, new)),
        ensures
            forall|j: int| 0 <= j < r@.len() ==> joined(f, self@, other@, #[trigger] r@[j]),
            forall|j: int|
                0 <= j < other@.len() && (#[trigger] other@[j]).0.plain() && has_key(
                    self@,
                    other@[j].0,
                ) ==> joined_under(f, self@, other@, r@, other@[j].0),
    {
        self.map_intersection_with(other, f)
    }

    /// `HashMap::intersection_with_key` of im, which is given `f` as it stands and
    /// calls it itself. Stated of it, and not proved:
    /// As [`intersection_with`](Self::intersection_with), with a function
    /// that is given the key, too.
    #[verifier::external_body]
    fn map_intersection_with_key<F>(&self, other: &Object, f: F) -> (r: Object) where
        F: Fn(Arc<Value>, Arc<Value>, Arc<Value>) -> Arc<Value>,

        requires
            forall|key: Arc<Value>, old: Arc<Value>, new: Arc<Value>|
                f.requires((key, old, new)),
        ensures
            forall|j: int|
                0 <= j < r@.len() ==> joined_by_key(f, self@, other@, #[trigger] r@[j]),
            forall|j: int|
                0 <= j < other@.len() && (#[trigger] other@[j]).0.plain() && has_key(
                    self@,
                    other@[j].0,
                ) ==> joined_by_key_under(f, self@, other@, r@, other@[j].0),
    {
        Object { entries: self.entries.intersection_with_key(&other.entries, f) }
    }

    /// As [`intersection_with`](Self::intersection_with), with a function
    /// that is given the key, too.
    pub fn intersection_with_key<F>(&self, other: &Object, f: F) -> (r: Object) where
        F: Fn(Arc<Value>, Arc<Value>, Arc<Value>) -> Arc<Value>,

        requires
            forall|key: Arc<Value>, old: Arc<Value>, new: Arc<Value>|
                f.requires((key, old, new)),
        ensures
            forall|j: int|
                0 <= j < r@.len() ==> joined_by_key(f, self@, other@, #[trigger] r@[j]),
            forall|j: int|
                0 <= j < other@.len() && (#[trigger] other@[j]).0.plain() && has_key(
                    self@,
                    other@[j].0,
                ) ==> joined_by_key_under(f, self@, other@, r@, other@[j].0),
    {
        self.map_intersection_with_key(other, f)
    }

    /// `HashMap::difference_with` of im, which is given `f` as it stands and
    /// calls it itself. Stated of it, and not proved:
    /// The entries of this object, but for each key that `other` has too
    /// what `f` makes of the value under it and the value in `other`, or
    /// nothing if `f` makes nothing of them. Each entry of the result is
    /// one of this object, or has a key of `other` and a value that `f`
    /// made with the value that `other` has under that key. An entry of
    /// this object whose key is like no key of `other` is an entry of the
    /// result.
    #[verifier::external_body]
    fn map_difference_with<F>(&self, other: &Object, f: F) -> (r: Object) where
        F: Fn(Arc<Value>, Arc<Value>) -> Option<Arc<Value>>,

        requires
            forall|old: Arc<Value>, new: Arc<Value>| f.requires((old, new)),
        ensures
            forall|j: int|
                0 <= j < r@.len() ==> self@.contains(#[trigger] r@[j]) || settled(
                    f,
                    other@,
                    r@[j],
                ),
            forall|i: int|
                0 <= i < self@.len() && apart((#[trigger] self@[i]).0, other@) ==> r@.contains(
                    self@[i],
                ),
    {
        Object { entries: self.entries.difference_with(&other.entries, f) }
    }

    /// The entries of this object, but for each key that `other` has too
    /// what `f` makes of the value under it and the value in `other`, or
    /// nothing if `f` makes nothing of them. Each entry of the result is
    /// one of this object, or has a key of `other` and a value that `f`
    /// made with the value that `other` has under that key. An entry of
    /// this object whose key is like no key of `other` is an entry of the
    /// result.
    pub fn difference_with<F>(&self, other: &Object, f: F) -> (r: Object) where
        F: Fn(Arc<Value>, Arc<Value>) -> Option<Arc<Value>>,

        requires
            forall|old: Arc<Value>, new: Arc<Value>| f.requires((old, new)),
        ensures
            forall|j: int|
                0 <= j < r@.len() ==> self@.contains(#[trigger] r@[j]) || settled(
                    f,
                    other@,
                    r@[j],
                ),
            forall|i: int|
                0 <= i < self@.len() && apart((#[trigger] self@[i]).0, other@) ==> r@.contains(
                    self@[i],
                ),
    {
        self.map_difference_with(other, f)
    }

    /// `HashMap::difference_with_key` of im, which is given `f` as it stands and
    /// calls it itself. Stated of it, and not proved:
    /// As [`difference_with`](Self::difference_with), with a function that
    /// is given the key, too.
    #[verifier::external_body]
    fn map_difference_with_key<F>(&self, other: &Object, f: F) -> (r: Object) where
        F: Fn(Arc<Value>, Arc<Value>, Arc<Value>) -> Option<Arc<Value>>,

        requires
            forall|key: Arc<Value>, old: Arc<Value>, new: Arc<Value>|
                f.requires((key, old, new)),
        ensures
            forall|j: int|
                0 <= j < r@.len() ==> self@.contains(#[trigger] r@[j]) || settled_by_key(
                    f,
                    other@,
                    r@[j],
                ),
            forall|i: int|
                0 <= i < self@.len() && apart((#[trigger] self@[i]).0, other@) ==> r@.contains(
                    self@[i],
                ),
    {
        Object { entries: self.entries.difference_with_key(&other.entries, f) }
    }

    /// As [`difference_with`](Self::difference_with), with a function that
    /// is given the key, too.
    pub fn difference_with_key<F>(&self, other: &Object, f: F) -> (r: Object) where
        F: Fn(Arc<Value>, Arc<Value>, Arc<Value>) -> Option<Arc<Value>>,

        requires
            forall|key: Arc<Value>, old: Arc<Value>, new: Arc<Value>|
                f.requires((key, old, new)),
        ensures
            forall|j: int|
                0 <= j < r@.len() ==> self@.contains(#[trigger] r@[j]) || settled_by_key(
                    f,
                    other@,
                    r@[j],
                ),
            forall|i: int|
                0 <= i < self@.len() && apart((#[trigger] self@[i]).0, other@) ==> r@.contains(
                    self@[i],
                ),
    {
        self.map_difference_with_key(other, f)
    }

    /// `HashMap::is_submap_by` of im, which is given `judge` as it stands and
    /// calls it itself. Stated of it, and not proved:
    /// Whether `other` has every key of this object, with a value that
    /// `judge` takes for the one here.
    #[verifier::external_body]
    fn map_is_submap_by<F>(&self, other: &Object, judge: F) -> (r: bool) where
        F: Fn(Arc<Value>, Arc<Value>) -> bool,

        requires
            forall|here: Arc<Value>, there: Arc<Value>| judge.requires((here, there)),
        ensures
            r ==> forall|i: int| 0 <= i < self@.len() ==> matched(judge, other@, #[trigger] self@[i]),
            !r ==> exists|i: int| 0 <= i < self@.len() && unmatched(judge, other@, #[trigger] self@[i]),
    {
        self.entries.is_submap_by(&other.entries, judge)
    }

    /// Whether `other` has every key of this object, with a value that
    /// `judge` takes for the one here.
    pub fn is_submap_by<F>(&self, other: &Object, judge: F) -> (r: bool) where
        F: Fn(Arc<Value>, Arc<Value>) -> bool,

        requires
            forall|here: Arc<Value>, there: Arc<Value>| judge.requires((here, there)),
        ensures
            r ==> forall|i: int| 0 <= i < self@.len() ==> matched(judge, other@, #[trigger] self@[i]),
            !r ==> exists|i: int| 0 <= i < self@.len() && unmatched(judge, other@, #[trigger] self@[i]),
    {
        self.map_is_submap_by(other, judge)
    }

    /// `HashMap::is_proper_submap_by` of im, which is given `judge` as it stands and
    /// calls it itself. Stated of it, and not proved:
    /// Whether `other` has every key of this object, with a value that
    /// `judge` takes for the one here, and a different number of entries.
    #[verifier::external_body]
    fn map_is_proper_submap_by<F>(&self, other: &Object, judge: F) -> (r: bool) where
        F: Fn(Arc<Value>, Arc<Value>) -> bool,

        requires
            forall|here: Arc<Value>, there: Arc<Value>| judge.requires((here, there)),
        ensures
            r ==> self@.len() != other@.len() && forall|i: int|
                0 <= i < self@.len() ==> matched(judge, other@, #[trigger] self@[i]),
            !r ==> self@.len() == other@.len() || exists|i: int|
                0 <= i < self@.len() && unmatched(judge, other@, #[trigger] self@[i]),
    {
        self.entries.is_proper_submap_by(&other.entries, judge)
    }

    /// Whether `other` has every key of this object, with a value that
    /// `judge` takes for the one here, and a different number of entries.
    pub fn is_proper_submap_by<F>(&self, other: &Object, judge: F) -> (r: bool) where
        F: Fn(Arc<Value>, Arc<Value>) -> bool,

        requires
            forall|here: Arc<Value>, there: Arc<Value>| judge.requires((here, there)),
        ensures
            r ==> self@.len() != other@.len() && forall|i: int|
                0 <= i < self@.len() ==> matched(judge, other@, #[trigger] self@[i]),
            !r ==> self@.len() == other@.len() || exists|i: int|
                0 <= i < self@.len() && unmatched(judge, other@, #[trigger] self@[i]),
    {
        self.map_is_proper_submap_by(other, judge)
    }

    /// The value under `key`; the null of the language if nothing is
    /// found.
    pub fn get(&self, key: &Value) -> (r: Arc<Value>)
        ensures
            holds(self@, key@, r@) || r@ == null_view(),
            key@.plain() && has_key(self@, key@) ==> holds(self@, key@, r@),
            !has_key(self@, key@) ==> r@ == null_view(),
    {
        match self.get_opt(key) {
            Some(v) => v,
            None => get_null(),
        }
    }
}

impl Clone for Object {
    /// `Clone::clone` of im's hash map: an object of the same entries in
    /// the same order, sharing their storage.
    #[verifier::external_body]
    fn clone(&self) -> (r: Object)
        ensures
            object_view(r) == object_view(*self),
    {
        Object { entries: self.entries.clone() }
    }
}

impl Default for Object {
    fn default() -> (r: Object)
        ensures
            r@ == Seq::<(ValueView, ValueView)>::empty(),
    {
        Object::new()
    }
}

impl PartialEq for Object {
    /// `PartialEq::eq` of im's hash map: the same number of entries, and
    /// for each entry of the one an entry of the other with a key and a
    /// value `==` to its own. So equal objects are alike.
    #[verifier::external_body]
    fn eq(&self, other: &Object) -> (r: bool)
        ensures
            r ==> ValueView::Object(object_view(*self)).same(ValueView::Object(object_view(*other)))
                && ValueView::Object(object_view(*other)).same(ValueView::Object(object_view(*self))),
    {
        self.entries == other.entries
    }
}

impl Eq for Object {

}

impl Hash for Object {
    /// `Hash::hash` of im's hash map: hashes the entries in the object's
    /// own order.
    #[verifier::external_body]
    fn hash<H: Hasher>(&self, state: &mut H) {
        self.entries.hash(state)
    }
}

} // verus!
