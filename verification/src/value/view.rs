//! Values as mathematical objects: what the contracts of this crate speak of.

use crate::value::number::whole_part;
use crate::value::symbol::name::SymbolView;
use vstd::prelude::*;

verus! {

/// A value as a tree: a number by the bit pattern of its float, a string by
/// its characters, a symbol by its chain of names, an array by its items in
/// order, and an object by its entries in the order in which the object
/// hands them out.
pub enum ValueView {
    Number(u64),
    String(Seq<char>),
    Symbol(SymbolView),
    Array(Seq<ValueView>),
    Object(Seq<(ValueView, ValueView)>),
}

/// The entries of an object, each a key and the value stored under it.
pub type Entries = Seq<(ValueView, ValueView)>;

/// The null of the language: an object without entries.
pub open spec fn null_view() -> ValueView {
    ValueView::Object(Seq::empty())
}

impl ValueView {
    /// Whether the two values are alike to `==`, as far as they themselves
    /// decide it: numbers by their integer parts, strings and symbols by
    /// their text, arrays item by item, and objects entry by entry in any
    /// order. (Whether two symbols are in fact equal depends, beyond this, on
    /// their interpreters.)
    pub open spec fn same(self, other: ValueView) -> bool
        decreases self,
    {
        match self {
            ValueView::Number(a) => other matches ValueView::Number(b) && whole_part(a)
                == whole_part(b),
            ValueView::String(a) => other matches ValueView::String(b) && a == b,
            ValueView::Symbol(a) => other matches ValueView::Symbol(b) && a == b,
            ValueView::Array(a) => other matches ValueView::Array(b) && a.len() == b.len()
                && forall|i: int| 0 <= i < a.len() ==> (#[trigger] a[i]).same(b[i]),
            ValueView::Object(a) => other matches ValueView::Object(b) && a.len() == b.len()
                && forall|i: int|
                0 <= i < a.len() ==> exists|j: int|
                    0 <= j < b.len() && (#[trigger] a[i]).0.same((#[trigger] b[j]).0) && a[i].1.same(
                        b[j].1,
                    ),
        }
    }

    /// Whether the value is built of numbers, strings and arrays alone.
    /// Such a value is found again under `==` and hashing wherever it is
    /// looked for: nothing about it depends on an interpreter or on the
    /// order in which an object hands out its entries.
    pub open spec fn plain(self) -> bool
        decreases self,
    {
        match self {
            ValueView::Number(_) => true,
            ValueView::String(_) => true,
            ValueView::Symbol(_) => false,
            ValueView::Array(items) => forall|i: int|
                0 <= i < items.len() ==> (#[trigger] items[i]).plain(),
            ValueView::Object(_) => false,
        }
    }

    /// Whether `other` is this value over again: the same numbers, strings
    /// and symbols in the same places, arrays item by item, and objects
    /// entry by entry as [`entries_mirror`] says.
    pub open spec fn mirrors(self, other: ValueView) -> bool
        decreases self, 0nat,
    {
        match self {
            ValueView::Number(a) => other == ValueView::Number(a),
            ValueView::String(a) => other == ValueView::String(a),
            ValueView::Symbol(a) => other == ValueView::Symbol(a),
            ValueView::Array(a) => other matches ValueView::Array(b) && a.len() == b.len()
                && forall|i: int| 0 <= i < a.len() ==> (#[trigger] a[i]).mirrors(b[i]),
            ValueView::Object(a) => other matches ValueView::Object(b) && entries_mirror(a, b),
        }
    }

    /// Whether `other`, taken to be this value over again, has lost none of
    /// its entries: arrays item by item, and objects as [`entries_carried`]
    /// says.
    pub open spec fn carries(self, other: ValueView) -> bool
        decreases self, 0nat,
    {
        match self {
            ValueView::Array(a) => other matches ValueView::Array(b) && a.len() == b.len()
                && forall|i: int| 0 <= i < a.len() ==> (#[trigger] a[i]).carries(b[i]),
            ValueView::Object(a) => other matches ValueView::Object(b) && entries_carried(a, b),
            _ => true,
        }
    }

    /// Whether the value holds no object at any depth.
    pub open spec fn object_free(self) -> bool
        decreases self,
    {
        match self {
            ValueView::Array(items) => forall|i: int|
                0 <= i < items.len() ==> (#[trigger] items[i]).object_free(),
            ValueView::Object(_) => false,
            _ => true,
        }
    }

    /// Whether the value holds no symbol at any depth.
    pub open spec fn symbol_free(self) -> bool
        decreases self,
    {
        match self {
            ValueView::Number(_) => true,
            ValueView::String(_) => true,
            ValueView::Symbol(_) => false,
            ValueView::Array(items) => forall|i: int|
                0 <= i < items.len() ==> (#[trigger] items[i]).symbol_free(),
            ValueView::Object(entries) => forall|i: int|
                0 <= i < entries.len() ==> (#[trigger] entries[i]).0.symbol_free()
                    && entries[i].1.symbol_free(),
        }
    }
}

/// The place `i`, as contracts count places.
pub open spec fn place(i: usize) -> int {
    i as int
}

/// How far into an array of `len` items a count of `count` reaches.
pub open spec fn reach(count: usize, len: nat) -> int {
    if count >= len {
        len as int
    } else {
        count as int
    }
}

/// Whether the entries `b` are entries of `a` over again: each of `b` is
/// one of `a` over again, and there are no more of them. Where all keys of
/// `a` are plain, each entry of `a` is there over again under its own key,
/// and the two have the same number of entries.
pub open spec fn entries_mirror(a: Entries, b: Entries) -> bool
    decreases a, 1nat,
{
    &&& b.len() <= a.len()
    &&& forall|j: int| 0 <= j < b.len() ==> comes_from(a, #[trigger] b[j])
    &&& plain_keys(a) ==> b.len() == a.len() && forall|i: int|
        0 <= i < a.len() ==> kept_in(#[trigger] entry_at(a, i), b)
}

/// Whether the key `key` can turn into `other` when it is made over again.
pub open spec fn turns_into(key: ValueView, other: ValueView) -> bool {
    key.mirrors(other)
}

/// Whether no two keys of `entries` can turn into like keys when they are
/// made over again.
pub open spec fn keys_apart(entries: Entries) -> bool {
    forall|i: int, j: int, a: ValueView, b: ValueView|
        0 <= i < entries.len() && 0 <= j < entries.len() && i != j && #[trigger] turns_into(
            entries[i].0,
            a,
        ) && #[trigger] turns_into(entries[j].0, b) ==> !a.same(b)
}

/// Whether the key at place `x` of `entries` can turn into no key that is
/// like one that a later key can turn into: whether no later entry can
/// take the place of this one when they are made over again.
pub open spec fn later_apart(entries: Entries, x: int) -> bool {
    forall|y: int, a: ValueView, b: ValueView|
        x < y < entries.len() && #[trigger] turns_into(entries[x].0, a) && #[trigger] turns_into(
            entries[y].0,
            b,
        ) ==> !a.same(b)
}

/// Whether the entries `b`, taken to be `a` over again, have lost none of
/// them but to a later entry of `a`: each entry of `a` whose place no later
/// one can take is there over again, with nothing lost in it either; and
/// where no two keys of `a` can turn into like keys, `b` has as many
/// entries as `a`.
pub open spec fn entries_carried(a: Entries, b: Entries) -> bool
    decreases a, 1nat,
{
    &&& keys_apart(a) ==> b.len() == a.len()
    &&& forall|i: int|
        0 <= i < a.len() && later_apart(a, i) ==> carried(#[trigger] entry_at(a, i), b)
}

/// Whether the entries `b` have `entry` over again, key and value, with
/// nothing lost in either.
pub open spec fn carried(entry: (ValueView, ValueView), b: Entries) -> bool
    decreases entry, 0nat,
{
    exists|j: int|
        0 <= j < b.len() && entry.0.mirrors((#[trigger] b[j]).0) && entry.1.mirrors(b[j].1)
            && entry.0.carries(b[j].0) && entry.1.carries(b[j].1)
}

/// The entry at place `i` of `entries`.
pub open spec fn entry_at(entries: Entries, i: int) -> (ValueView, ValueView) {
    entries[i]
}

/// Whether `entry` is one of the entries `a` over again, key and value.
pub open spec fn comes_from(a: Entries, entry: (ValueView, ValueView)) -> bool
    decreases a, 0nat,
{
    exists|i: int|
        0 <= i < a.len() && (#[trigger] a[i]).0.mirrors(entry.0) && a[i].1.mirrors(entry.1)
}

/// Whether the entries `b` have `entry` over again under its own key.
pub open spec fn kept_in(entry: (ValueView, ValueView), b: Entries) -> bool
    decreases entry, 0nat,
{
    exists|j: int| 0 <= j < b.len() && (#[trigger] b[j]).0 == entry.0 && entry.1.mirrors(b[j].1)
}

/// Whether every key of `entries` is plain.
pub open spec fn plain_keys(entries: Entries) -> bool {
    forall|i: int| 0 <= i < entries.len() ==> (#[trigger] entries[i]).0.plain()
}

/// A plain value holds no object and no symbol.
pub proof fn law_plain_is_bare(a: ValueView)
    requires
        a.plain(),
    ensures
        a.object_free(),
        a.symbol_free(),
    decreases a,
{
    match a {
        ValueView::Array(items) => {
            assert forall|i: int| 0 <= i < items.len() implies (#[trigger] items[i]).object_free()
                && items[i].symbol_free() by {
                law_plain_is_bare(items[i]);
            }
        },
        _ => {},
    }
}

/// Adding an item at the end leaves the items that were there where they
/// were, and makes the array one longer.
pub proof fn law_push_keeps(items: Seq<ValueView>, value: ValueView)
    ensures
        items.push(value).len() == items.len() + 1,
        items.push(value).subrange(0, items.len() as int) == items,
        items.push(value).last() == value,
{
    assert(items.push(value).subrange(0, items.len() as int) =~= items);
}

/// Whether `entries` has an entry whose key is like `key`.
pub open spec fn has_key(entries: Entries, key: ValueView) -> bool {
    exists|i: int| 0 <= i < entries.len() && (#[trigger] entries[i]).0.same(key)
}

/// Whether `entries` has `value` under a key like `key`.
pub open spec fn holds(entries: Entries, key: ValueView, value: ValueView) -> bool {
    exists|i: int|
        0 <= i < entries.len() && (#[trigger] entries[i]).0.same(key) && entries[i].1 == value
}

/// Whether no plain key occurs twice in `entries`: a plain key is like the
/// key of at most one entry.
pub open spec fn tidy(entries: Entries) -> bool {
    forall|i: int, j: int|
        0 <= i < entries.len() && 0 <= j < entries.len() && i != j && (#[trigger] entries[i]).0.plain()
            ==> !entries[i].0.same((#[trigger] entries[j]).0)
}

/// Whether no key without an object in it occurs twice in `entries`: such
/// a key is like the key of at most one entry.
pub open spec fn neat(entries: Entries) -> bool {
    forall|i: int, j: int|
        0 <= i < entries.len() && 0 <= j < entries.len() && i != j && (
        #[trigger] entries[i]).0.object_free() ==> !entries[i].0.same((#[trigger] entries[j]).0)
}

/// Whether no key of `entries` holds an object.
pub open spec fn bare_keys(entries: Entries) -> bool {
    forall|i: int| 0 <= i < entries.len() ==> (#[trigger] entries[i]).0.object_free()
}

/// Whether `after` is `before` once `value` was stored under `key`: the new
/// entry is there, entries under other keys stay, and nothing else comes in.
/// Under a plain key the new entry is the only one, and under a key that is
/// like none of `before` there is one entry more.
pub open spec fn stored(before: Entries, after: Entries, key: ValueView, value: ValueView) -> bool {
    &&& after.contains((key, value))
    &&& forall|e: (ValueView, ValueView)|
        #[trigger] before.contains(e) && !e.0.same(key) ==> after.contains(e)
    &&& forall|e: (ValueView, ValueView)|
        #[trigger] after.contains(e) ==> e == (key, value) || before.contains(e)
    &&& key.plain() ==> forall|e: (ValueView, ValueView)|
        #[trigger] after.contains(e) && e.0.same(key) ==> e == (key, value)
    &&& before.len() <= after.len() <= before.len() + 1
    &&& key.plain() ==> after.len() == before.len() + if has_key(before, key) {
        0int
    } else {
        1int
    }
    &&& !has_key(before, key) ==> after.len() == before.len() + 1
    &&& tidy(after)
}

/// Whether `after` is `before` once the entry under `key` was taken out:
/// entries under other keys stay, and nothing comes in. Under a plain key no
/// entry is left.
pub open spec fn removed(before: Entries, after: Entries, key: ValueView) -> bool {
    &&& forall|e: (ValueView, ValueView)|
        #[trigger] before.contains(e) && !e.0.same(key) ==> after.contains(e)
    &&& forall|e: (ValueView, ValueView)| #[trigger] after.contains(e) ==> before.contains(e)
    &&& key.plain() ==> !has_key(after, key)
    &&& after.len() <= before.len() <= after.len() + 1
    &&& key.plain() ==> before.len() == after.len() + if has_key(before, key) {
        1int
    } else {
        0int
    }
    &&& tidy(after)
}

/// Whether `after` is `before` once the entry under `key`, whose value was
/// `old`, was taken out.
pub open spec fn taken(before: Entries, after: Entries, key: ValueView, old: ValueView) -> bool {
    &&& holds(before, key, old)
    &&& removed(before, after, key)
    &&& after.len() + 1 == before.len()
}

/// Whether `after` is `before` once the entry under `key`, whose value was
/// `old`, was taken out and `value` was stored under `stored_key`.
pub open spec fn replaced(
    before: Entries,
    after: Entries,
    key: ValueView,
    old: ValueView,
    stored_key: ValueView,
    value: ValueView,
) -> bool {
    exists|between: Entries| #[trigger]
        taken(before, between, key, old) && stored(between, after, stored_key, value)
}

/// Whether no key of `entries` is like the key of another entry.
pub open spec fn unlike_keys(entries: Entries) -> bool {
    forall|i: int, j: int|
        0 <= i < entries.len() && 0 <= j < entries.len() && i != j ==> !(
        #[trigger] entries[i]).0.same((#[trigger] entries[j]).0)
}

/// Whether `r` has exactly the entries `pairs`, if no key of `pairs` is like
/// another: as many, each of them, and no other.
pub open spec fn gathered(pairs: Entries, r: Entries) -> bool {
    unlike_keys(pairs) ==> {
        &&& r.len() == pairs.len()
        &&& forall|i: int| 0 <= i < pairs.len() ==> r.contains(#[trigger] pairs[i])
        &&& forall|j: int| 0 <= j < r.len() ==> pairs.contains(#[trigger] r[j])
    }
}

/// Whether the key of the pair at place `x` is like the key of no later
/// pair, so that no later pair takes its place.
pub open spec fn unrivalled(pairs: Entries, x: int) -> bool {
    forall|y: int| x < y < pairs.len() ==> !pairs[x].0.same((#[trigger] pairs[y]).0)
}

/// Storing the next of `source` keeps every pair whose place it does not
/// take.
pub(crate) proof fn lemma_unrivalled_step(source: Entries, i: int, before: Entries, after: Entries)
    requires
        0 <= i < source.len(),
        stored(before, after, source[i].0, source[i].1),
        forall|x: int| 0 <= x < i && #[trigger] unrivalled(source, x) ==> before.contains(source[x]),
    ensures
        forall|x: int|
            0 <= x < i + 1 && #[trigger] unrivalled(source, x) ==> after.contains(source[x]),
{
    assert forall|x: int| 0 <= x < i + 1 && #[trigger] unrivalled(source, x) implies after.contains(
        source[x],
    ) by {
        if x < i {
            assert(before.contains(source[x]));
            assert(!source[x].0.same(source[i].0));
        }
    }
}

/// Storing the next of `source` in an object that has gathered those before
/// it gives one that has gathered those up to it.
pub(crate) proof fn lemma_gather_step(source: Entries, i: int, before: Entries, after: Entries)
    requires
        0 <= i < source.len(),
        stored(before, after, source[i].0, source[i].1),
        unlike_keys(source) ==> gathered(source.subrange(0, i), before),
    ensures
        unlike_keys(source) ==> gathered(source.subrange(0, i + 1), after),
{
    if unlike_keys(source) {
        let seen = source.subrange(0, i);
        let next = source.subrange(0, i + 1);
        let k = source[i].0;
        assert forall|x: int, y: int| 0 <= x < seen.len() && 0 <= y < seen.len() && x != y implies !(
        #[trigger] seen[x]).0.same((#[trigger] seen[y]).0) by {
            assert(seen[x] == source[x] && seen[y] == source[y]);
        }
        assert forall|j: int| 0 <= j < before.len() implies !(#[trigger] before[j]).0.same(k) by {
            assert(seen.contains(before[j]));
            let x = choose|x: int| 0 <= x < seen.len() && seen[x] == before[j];
            assert(seen[x] == source[x]);
        }
        assert(!has_key(before, k));
        assert forall|x: int| 0 <= x < next.len() implies after.contains(#[trigger] next[x]) by {
            if x < i {
                assert(next[x] == seen[x]);
                assert(before.contains(seen[x]));
                let j = choose|j: int| 0 <= j < before.len() && before[j] == seen[x];
                assert(!before[j].0.same(k));
            } else {
                assert(next[x] == (k, source[i].1));
            }
        }
        assert forall|j: int| 0 <= j < after.len() implies next.contains(#[trigger] after[j]) by {
            assert(after.contains(after[j]));
            if after[j] == (k, source[i].1) {
                assert(next[i] == after[j]);
            } else {
                assert(before.contains(after[j]));
                let j0 = choose|j0: int| 0 <= j0 < before.len() && before[j0] == after[j];
                assert(seen.contains(before[j0]));
                let x = choose|x: int| 0 <= x < seen.len() && seen[x] == before[j0];
                assert(next[x] == after[j]);
            }
        }
    }
}

/// Whether `key` is like the key of no entry of `entries`.
pub open spec fn apart(key: ValueView, entries: Entries) -> bool {
    forall|j: int| 0 <= j < entries.len() ==> !key.same((#[trigger] entries[j]).0)
}

/// Whether `key` is the key of an entry of `entries`, as it stands.
pub open spec fn has_exact_key(entries: Entries, key: ValueView) -> bool {
    exists|i: int| 0 <= i < entries.len() && (#[trigger] entries[i]).0 == key
}

/// Whether `r` is the union of `a` and `b`, in which `a` decides the value
/// under a key that both have: each entry of `r` is one of `a`, or one of
/// `b`, or has a key of `b` and the value that `a` has under a like key.
/// What `a` has under a plain key, `r` has under it; and an entry of `b`
/// under a plain key that `a` lacks is an entry of `r`.
pub open spec fn united(a: Entries, b: Entries, r: Entries) -> bool {
    &&& forall|j: int|
        0 <= j < r.len() ==> a.contains(#[trigger] r[j]) || b.contains(r[j]) || (has_exact_key(
            b,
            r[j].0,
        ) && holds(a, r[j].0, r[j].1))
    &&& forall|i: int| 0 <= i < a.len() && (#[trigger] a[i]).0.plain() ==> holds(r, a[i].0, a[i].1)
    &&& forall|i: int|
        0 <= i < b.len() && (#[trigger] b[i]).0.plain() && !has_key(a, b[i].0) ==> r.contains(b[i])
    &&& tidy(r)
}

/// Whether `r` is `a` without the entries whose keys `b` has: each entry
/// of `r` is one of `a`, an entry of `a` under a key that is like none of
/// `b` is an entry of `r`, and no plain key that `b` has is left.
pub open spec fn parted(a: Entries, b: Entries, r: Entries) -> bool {
    &&& forall|j: int| 0 <= j < r.len() ==> a.contains(#[trigger] r[j])
    &&& forall|i: int| 0 <= i < a.len() && !has_key(b, (#[trigger] a[i]).0) ==> r.contains(a[i])
    &&& forall|i: int|
        0 <= i < b.len() && (#[trigger] b[i]).0.plain() ==> !has_key(r, b[i].0)
    &&& tidy(r)
}

/// Whether `r` holds what `a` and `b` have in common, by key: each entry
/// of `r` has a key of `b` and the value that `a` has under a like key,
/// and every plain key of `b` that `a` has is a key of `r`.
pub open spec fn shared(a: Entries, b: Entries, r: Entries) -> bool {
    &&& forall|j: int|
        0 <= j < r.len() ==> has_exact_key(b, (#[trigger] r[j]).0) && holds(a, r[j].0, r[j].1)
    &&& forall|i: int|
        0 <= i < b.len() && (#[trigger] b[i]).0.plain() && has_key(a, b[i].0) ==> has_exact_key(
            r,
            b[i].0,
        )
    &&& tidy(r)
}

/// Whether each entry of `a` has an entry in `b` with a like key and a like
/// value.
pub open spec fn within(a: Entries, b: Entries) -> bool {
    forall|i: int|
        0 <= i < a.len() ==> exists|j: int|
            0 <= j < b.len() && (#[trigger] b[j]).0.same((#[trigger] a[i]).0) && a[i].1.same(
                b[j].1,
            )
}

/// Whether every key and every value of `entries` is plain.
pub open spec fn all_plain(entries: Entries) -> bool {
    forall|i: int|
        0 <= i < entries.len() ==> (#[trigger] entries[i]).0.plain() && entries[i].1.plain()
}

} // verus!
