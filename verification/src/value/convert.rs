//! From the values that are bound to an interpreter to the owned ones, and
//! back.
//!
//! Turning a value into an owned one drops the links of its symbols. An
//! object in it keeps every entry but one whose key falls together with the
//! key of a later entry once the links are gone, as the keys of symbols of
//! one name from two interpreters do. The way back interns every symbol in
//! the interpreter that is given, and so needs that interpreter's symbol
//! table; every symbol that comes back is linked to that table.

use crate::interpreter::Interpreter;
use crate::table::SymbolTable;
use crate::value::array::array_links;
use crate::value::array::Array;
use crate::value::object::object_links;
use crate::value::object::Object;
use crate::value::owned::array::OwnedArray;
use crate::value::owned::object::OwnedObject;
use crate::value::owned::symbol::OwnedSymbol;
use crate::value::owned::value::OwnedValue;
use crate::value::symbol::name::SymbolError;
use crate::value::symbol::Symbol;
use crate::value::value::Value;
use crate::value::view::bare_keys;
use crate::value::view::carried;
use crate::value::view::comes_from;
use crate::value::view::entries_carried;
use crate::value::view::gathered;
use crate::value::view::entries_mirror;
use crate::value::view::entry_at;
use crate::value::view::has_key;
use crate::value::view::holds;
use crate::value::view::kept_in;
use crate::value::view::keys_apart;
use crate::value::view::later_apart;
use crate::value::view::neat;
use crate::value::view::plain_keys;
use crate::value::view::stored;
use crate::value::view::tidy;
use crate::value::view::turns_into;
use crate::value::view::unlike_keys;
use crate::value::view::Entries;
use crate::value::view::ValueView;
use std::sync::Arc;
use std::sync::RwLock;
use vstd::prelude::*;
use vstd::std_specs::convert::FromSpecImpl;

verus! {

/// A plain value over again is the same value.
pub proof fn lemma_plain_mirrors(a: ValueView, b: ValueView)
    requires
        a.plain(),
        a.mirrors(b),
    ensures
        a == b,
    decreases a,
{
    match a {
        ValueView::Array(items) => {
            let others = b->Array_0;
            assert forall|i: int| 0 <= i < items.len() implies items[i] == others[i] by {
                lemma_plain_mirrors(items[i], others[i]);
            }
            assert(items =~= others);
        },
        _ => {},
    }
}

/// A value over again, over again, is the value over again: what comes
/// back from an owned value that was made of a value is that value over
/// again.
pub proof fn law_mirrors_compose(a: ValueView, b: ValueView, c: ValueView)
    requires
        a.mirrors(b),
        b.mirrors(c),
    ensures
        a.mirrors(c),
    decreases a, 2nat,
{
    match a {
        ValueView::Array(x) => {
            let y = b->Array_0;
            let z = c->Array_0;
            assert forall|i: int| 0 <= i < x.len() implies (#[trigger] x[i]).mirrors(z[i]) by {
                assert(y[i].mirrors(z[i]));
                law_mirrors_compose(x[i], y[i], z[i]);
            }
        },
        ValueView::Object(x) => {
            lemma_entries_compose(x, b->Object_0, c->Object_0);
        },
        _ => {},
    }
}

/// Entries over again, over again, are the entries over again.
proof fn lemma_entries_compose(x: Entries, y: Entries, z: Entries)
    requires
        entries_mirror(x, y),
        entries_mirror(y, z),
    ensures
        entries_mirror(x, z),
    decreases x, 1nat,
{
    assert forall|l: int| 0 <= l < z.len() implies comes_from(x, #[trigger] z[l]) by {
        lemma_comes_from_compose(x, y, z[l]);
    }
    if plain_keys(x) {
        assert forall|j: int| 0 <= j < y.len() implies (#[trigger] y[j]).0.plain() by {
            lemma_comes_from_plain(x, y[j]);
        }
        assert forall|i: int| 0 <= i < x.len() implies kept_in(#[trigger] entry_at(x, i), z) by {
            assert(kept_in(entry_at(x, i), y));
            lemma_kept_in_compose(x[i], y, z);
        }
    }
}

/// What is one of `y` over again, where each of `y` is one of `x` over
/// again, is one of `x` over again.
proof fn lemma_comes_from_compose(x: Entries, y: Entries, e: (ValueView, ValueView))
    requires
        forall|j: int| 0 <= j < y.len() ==> comes_from(x, #[trigger] y[j]),
        comes_from(y, e),
    ensures
        comes_from(x, e),
    decreases x, 0nat,
{
    let j = choose|j: int|
        0 <= j < y.len() && (#[trigger] y[j]).0.mirrors(e.0) && y[j].1.mirrors(e.1);
    assert(comes_from(x, y[j]));
    let i = choose|i: int|
        0 <= i < x.len() && (#[trigger] x[i]).0.mirrors(y[j].0) && x[i].1.mirrors(y[j].1);
    law_mirrors_compose(x[i].0, y[j].0, e.0);
    law_mirrors_compose(x[i].1, y[j].1, e.1);
}

/// What is, over again, one of entries whose keys are all plain has a plain
/// key too.
proof fn lemma_comes_from_plain(x: Entries, e: (ValueView, ValueView))
    requires
        plain_keys(x),
        comes_from(x, e),
    ensures
        e.0.plain(),
{
    let i = choose|i: int|
        0 <= i < x.len() && (#[trigger] x[i]).0.mirrors(e.0) && x[i].1.mirrors(e.1);
    lemma_plain_mirrors(x[i].0, e.0);
}

/// What `y` has over again, where `z` has each of `y` over again, `z` has
/// over again.
proof fn lemma_kept_in_compose(entry: (ValueView, ValueView), y: Entries, z: Entries)
    requires
        kept_in(entry, y),
        forall|j: int| 0 <= j < y.len() ==> kept_in(#[trigger] entry_at(y, j), z),
    ensures
        kept_in(entry, z),
    decreases entry, 0nat,
{
    let j = choose|j: int|
        0 <= j < y.len() && (#[trigger] y[j]).0 == entry.0 && entry.1.mirrors(y[j].1);
    assert(kept_in(entry_at(y, j), z));
    let l = choose|l: int|
        0 <= l < z.len() && (#[trigger] z[l]).0 == y[j].0 && y[j].1.mirrors(z[l].1);
    law_mirrors_compose(entry.1, y[j].1, z[l].1);
}

/// Every value is itself over again.
pub proof fn law_mirrors_itself(a: ValueView)
    ensures
        a.mirrors(a),
    decreases a, 1nat,
{
    match a {
        ValueView::Array(items) => {
            assert forall|i: int| 0 <= i < items.len() implies (#[trigger] items[i]).mirrors(
                items[i],
            ) by {
                law_mirrors_itself(items[i]);
            }
        },
        ValueView::Object(entries) => {
            lemma_entries_mirror_themselves(entries);
        },
        _ => {},
    }
}

/// Entries are themselves over again.
proof fn lemma_entries_mirror_themselves(entries: Entries)
    ensures
        entries_mirror(entries, entries),
    decreases entries, 0nat,
{
    assert forall|j: int| 0 <= j < entries.len() implies comes_from(
        entries,
        #[trigger] entries[j],
    ) by {
        law_mirrors_itself(entries[j].0);
        law_mirrors_itself(entries[j].1);
    }
    assert forall|i: int| 0 <= i < entries.len() implies kept_in(
        #[trigger] entry_at(entries, i),
        entries,
    ) by {
        law_mirrors_itself(entries[i].1);
    }
}

/// A plain value that another value is like is like that other value, which
/// is plain too.
pub proof fn lemma_same_plain(a: ValueView, b: ValueView)
    requires
        b.plain(),
        a.same(b),
    ensures
        a.plain(),
        b.same(a),
    decreases a,
{
    match a {
        ValueView::Array(items) => {
            let others = b->Array_0;
            assert forall|i: int| 0 <= i < items.len() implies (#[trigger] items[i]).plain()
                && (#[trigger] others[i]).same(items[i]) by {
                lemma_same_plain(items[i], others[i]);
            }
        },
        _ => {},
    }
}

/// What is found under a plain key in an object that was made again from
/// its own entries is what was stored under that key, over again: an
/// object that is taken apart into its entries and built again from them
/// answers for each of its plain keys as it did before.
pub proof fn law_round_trip_lookup(first: Entries, rebuilt: Entries, i: int, found: ValueView)
    requires
        plain_keys(first),
        entries_mirror(first, rebuilt),
        tidy(rebuilt),
        0 <= i < first.len(),
        holds(rebuilt, first[i].0, found),
    ensures
        first[i].1.mirrors(found),
{
    let key = first[i].0;
    assert(kept_in(entry_at(first, i), rebuilt));
    let kept = choose|j: int|
        0 <= j < rebuilt.len() && (#[trigger] rebuilt[j]).0 == key && first[i].1.mirrors(
            rebuilt[j].1,
        );
    let at = choose|j: int|
        0 <= j < rebuilt.len() && (#[trigger] rebuilt[j]).0.same(key) && rebuilt[j].1 == found;
    lemma_same_plain(rebuilt[at].0, key);
    if at != kept {
        assert(!rebuilt[kept].0.same(rebuilt[at].0));
    }
}

/// What is found in an object that was built again from its own entries,
/// no key of which is like another, is the value of an entry of the first
/// object whose key is like the key that was looked for; and the other way
/// round. The two objects have the same entries, and as many.
pub proof fn law_round_trip_found(first: Entries, rebuilt: Entries, key: ValueView, found: ValueView)
    requires
        unlike_keys(first),
        gathered(first, rebuilt),
    ensures
        rebuilt.len() == first.len(),
        holds(rebuilt, key, found) <==> holds(first, key, found),
        has_key(rebuilt, key) <==> has_key(first, key),
{
    if holds(rebuilt, key, found) {
        let j = choose|j: int|
            0 <= j < rebuilt.len() && (#[trigger] rebuilt[j]).0.same(key) && rebuilt[j].1 == found;
        assert(first.contains(rebuilt[j]));
        let i = choose|i: int| 0 <= i < first.len() && first[i] == rebuilt[j];
        assert(first[i].0.same(key) && first[i].1 == found);
    }
    if holds(first, key, found) {
        let i = choose|i: int|
            0 <= i < first.len() && (#[trigger] first[i]).0.same(key) && first[i].1 == found;
        assert(rebuilt.contains(first[i]));
        let j = choose|j: int| 0 <= j < rebuilt.len() && rebuilt[j] == first[i];
        assert(rebuilt[j].0.same(key) && rebuilt[j].1 == found);
    }
    if has_key(rebuilt, key) {
        let j = choose|j: int| 0 <= j < rebuilt.len() && (#[trigger] rebuilt[j]).0.same(key);
        assert(first.contains(rebuilt[j]));
        let i = choose|i: int| 0 <= i < first.len() && first[i] == rebuilt[j];
        assert(first[i].0.same(key));
    }
    if has_key(first, key) {
        let i = choose|i: int| 0 <= i < first.len() && (#[trigger] first[i]).0.same(key);
        assert(rebuilt.contains(first[i]));
        let j = choose|j: int| 0 <= j < rebuilt.len() && rebuilt[j] == first[i];
        assert(rebuilt[j].0.same(key));
    }
}

/// A value without an object in it is like itself.
pub proof fn law_bare_like_itself(a: ValueView)
    requires
        a.object_free(),
    ensures
        a.same(a),
    decreases a,
{
    match a {
        ValueView::Array(items) => {
            assert forall|i: int| 0 <= i < items.len() implies (#[trigger] items[i]).same(
                items[i],
            ) by {
                law_bare_like_itself(items[i]);
            }
        },
        _ => {},
    }
}

/// An object that was built again from the entries of an object none of
/// whose keys holds an object, and none of them twice, answers for each of
/// those keys as the first did: the key is there, and what is found under
/// it is what the first object had under it.
pub proof fn law_round_trip_answers(first: Entries, rebuilt: Entries, i: int, found: ValueView)
    requires
        bare_keys(first),
        neat(first),
        gathered(first, rebuilt),
        0 <= i < first.len(),
    ensures
        has_key(rebuilt, first[i].0),
        holds(rebuilt, first[i].0, first[i].1),
        holds(rebuilt, first[i].0, found) ==> found == first[i].1,
{
    let key = first[i].0;
    assert(unlike_keys(first));
    law_bare_like_itself(key);
    assert(rebuilt.contains(first[i]));
    let at = choose|j: int| 0 <= j < rebuilt.len() && rebuilt[j] == first[i];
    assert(rebuilt[at].0.same(key) && rebuilt[at].1 == first[i].1);
    if holds(rebuilt, key, found) {
        let j = choose|j: int|
            0 <= j < rebuilt.len() && (#[trigger] rebuilt[j]).0.same(key) && rebuilt[j].1 == found;
        assert(first.contains(rebuilt[j]));
        let k = choose|k: int| 0 <= k < first.len() && first[k] == rebuilt[j];
        if k != i {
            assert(first[k].0.same(first[i].0));
        }
    }
}

/// A plain value is like itself.
pub proof fn law_plain_like_itself(a: ValueView)
    requires
        a.plain(),
    ensures
        a.same(a),
    decreases a,
{
    match a {
        ValueView::Array(items) => {
            assert forall|i: int| 0 <= i < items.len() implies (#[trigger] items[i]).same(
                items[i],
            ) by {
                law_plain_like_itself(items[i]);
            }
        },
        _ => {},
    }
}

/// A value without an object in it that was turned into an owned value,
/// and that into a value again, is what it was: number for number, name
/// for name. A plain value is like what comes back, so that `==` holds
/// between the two.
pub proof fn law_round_trip_equal(value: ValueView, owned: ValueView, back: ValueView)
    requires
        value.object_free(),
        value.mirrors(owned),
        owned.mirrors(back),
    ensures
        back == value,
        value.plain() ==> back.plain() && back.same(value) && value.same(back),
{
    law_mirrors_compose(value, owned, back);
    law_mirrors_same(value, back);
    if value.plain() {
        law_plain_like_itself(value);
    }
}

/// A value without an object in it, over again, is the same value:
/// turning such a value into an owned one and back changes nothing in
/// what it is.
pub proof fn law_mirrors_same(a: ValueView, b: ValueView)
    requires
        a.object_free(),
        a.mirrors(b),
    ensures
        a == b,
    decreases a,
{
    match a {
        ValueView::Array(items) => {
            let others = b->Array_0;
            assert forall|i: int| 0 <= i < items.len() implies items[i] == others[i] by {
                law_mirrors_same(items[i], others[i]);
            }
            assert(items =~= others);
        },
        _ => {},
    }
}

/// No entries are no entries over again.
pub(crate) proof fn lemma_mirror_none(source: Entries)
    ensures
        entries_mirror(source.subrange(0, 0), Seq::empty()),
{
}

/// After one more entry was stored, each entry of the object is still one
/// of the source's over again.
pub(crate) proof fn lemma_step_comes_from(
    seen: Entries,
    entry: (ValueView, ValueView),
    before: Entries,
    after: Entries,
    k: ValueView,
    v: ValueView,
)
    requires
        entry.0.mirrors(k),
        entry.1.mirrors(v),
        stored(before, after, k, v),
        forall|j: int| 0 <= j < before.len() ==> comes_from(seen, #[trigger] before[j]),
    ensures
        forall|j: int| 0 <= j < after.len() ==> comes_from(seen.push(entry), #[trigger] after[j]),
{
    let next = seen.push(entry);
    assert(next[seen.len() as int] == entry);
    assert forall|j: int| 0 <= j < after.len() implies comes_from(next, #[trigger] after[j]) by {
        let e = after[j];
        assert(after.contains(e));
        if e == (k, v) {
            assert(next[seen.len() as int].0.mirrors(e.0) && next[seen.len() as int].1.mirrors(
                e.1,
            ));
        } else {
            assert(before.contains(e));
            let j0 = choose|j0: int| 0 <= j0 < before.len() && before[j0] == e;
            assert(comes_from(seen, before[j0]));
            let x = choose|x: int|
                0 <= x < seen.len() && (#[trigger] seen[x]).0.mirrors(e.0) && seen[x].1.mirrors(
                    e.1,
                );
            assert(next[x] == seen[x]);
            assert(next[x].0.mirrors(e.0) && next[x].1.mirrors(e.1));
        }
    }
}

/// A plain key that is like none of the plain keys seen so far is like no
/// key of an object that holds only those over again.
proof fn lemma_step_fresh(seen: Entries, before: Entries, k: ValueView)
    requires
        plain_keys(seen),
        forall|x: int| 0 <= x < seen.len() ==> !(#[trigger] seen[x]).0.same(k),
        forall|j: int| 0 <= j < before.len() ==> comes_from(seen, #[trigger] before[j]),
    ensures
        !has_key(before, k),
{
    assert forall|j0: int| 0 <= j0 < before.len() implies !(#[trigger] before[j0]).0.same(k) by {
        assert(comes_from(seen, before[j0]));
        let x = choose|x: int|
            0 <= x < seen.len() && (#[trigger] seen[x]).0.mirrors(before[j0].0) && seen[x].1.mirrors(
                before[j0].1,
            );
        lemma_plain_mirrors(seen[x].0, before[j0].0);
    }
}

/// After one more entry was stored under a key that the object did not
/// have, the object has each of the source's entries over again.
proof fn lemma_step_kept(
    seen: Entries,
    entry: (ValueView, ValueView),
    before: Entries,
    after: Entries,
    v: ValueView,
)
    requires
        entry.1.mirrors(v),
        entry.0.plain(),
        stored(before, after, entry.0, v),
        !has_key(before, entry.0),
        forall|x: int| 0 <= x < seen.len() ==> kept_in(#[trigger] entry_at(seen, x), before),
    ensures
        forall|x: int|
            0 <= x < seen.len() + 1 ==> kept_in(#[trigger] entry_at(seen.push(entry), x), after),
{
    let next = seen.push(entry);
    let k = entry.0;
    assert forall|x: int| 0 <= x < next.len() implies kept_in(
        #[trigger] entry_at(next, x),
        after,
    ) by {
        if x == seen.len() {
            assert(after.contains((k, v)));
            let j = choose|j: int| 0 <= j < after.len() && after[j] == (k, v);
            assert(after[j].0 == next[x].0 && next[x].1.mirrors(after[j].1));
        } else {
            assert(next[x] == seen[x]);
            assert(kept_in(entry_at(seen, x), before));
            let j0 = choose|j0: int|
                0 <= j0 < before.len() && (#[trigger] before[j0]).0 == seen[x].0
                    && seen[x].1.mirrors(before[j0].1);
            assert(before.contains(before[j0]));
            assert(!before[j0].0.same(k));
            assert(after.contains(before[j0]));
            let j = choose|j: int| 0 <= j < after.len() && after[j] == before[j0];
            assert(after[j].0 == next[x].0 && next[x].1.mirrors(after[j].1));
        }
    }
}

/// Storing the next entry of `source` over again in an object that holds
/// the entries before it over again gives one that holds the entries up
/// to it over again.
pub(crate) proof fn lemma_mirror_step(
    source: Entries,
    i: int,
    before: Entries,
    after: Entries,
    k: ValueView,
    v: ValueView,
)
    requires
        tidy(source),
        0 <= i < source.len(),
        source[i].0.mirrors(k),
        source[i].1.mirrors(v),
        stored(before, after, k, v),
        entries_mirror(source.subrange(0, i), before),
    ensures
        entries_mirror(source.subrange(0, i + 1), after),
{
    let seen = source.subrange(0, i);
    let next = source.subrange(0, i + 1);
    assert(next =~= seen.push(source[i]));
    lemma_step_comes_from(seen, source[i], before, after, k, v);
    if plain_keys(next) {
        assert forall|x: int| 0 <= x < seen.len() implies (#[trigger] seen[x]).0.plain() by {
            assert(next[x] == seen[x]);
        }
        assert(next[i] == source[i]);
        lemma_plain_mirrors(source[i].0, k);
        assert forall|x: int| 0 <= x < seen.len() implies !(#[trigger] seen[x]).0.same(k) by {
            assert(seen[x] == source[x]);
            assert(!source[x].0.same(source[i].0));
        }
        lemma_step_fresh(seen, before, k);
        lemma_step_kept(seen, source[i], before, after, v);
    }
}

/// Every value, taken as itself over again, has lost nothing.
pub proof fn law_carries_itself(a: ValueView)
    ensures
        a.carries(a),
    decreases a, 1nat,
{
    match a {
        ValueView::Array(items) => {
            assert forall|i: int| 0 <= i < items.len() implies (#[trigger] items[i]).carries(
                items[i],
            ) by {
                law_carries_itself(items[i]);
            }
        },
        ValueView::Object(entries) => {
            assert forall|i: int| 0 <= i < entries.len() implies carried(
                #[trigger] entry_at(entries, i),
                entries,
            ) by {
                law_mirrors_itself(entries[i].0);
                law_mirrors_itself(entries[i].1);
                law_carries_itself(entries[i].0);
                law_carries_itself(entries[i].1);
                assert(entries[i].0.mirrors(entries[i].0) && entries[i].1.mirrors(entries[i].1)
                    && entries[i].0.carries(entries[i].0) && entries[i].1.carries(entries[i].1));
            }
            assert(entries_carried(entries, entries));
        },
        _ => {},
    }
}

/// Where no two keys can turn into like keys, no later entry can take the
/// place of an earlier one.
pub proof fn law_apart_later(entries: Entries, x: int)
    requires
        keys_apart(entries),
        0 <= x < entries.len(),
    ensures
        later_apart(entries, x),
{
}

/// Keys without an object in them, no one like another, cannot turn into
/// like keys.
pub proof fn law_unlike_keys_apart(entries: Entries)
    requires
        forall|i: int| 0 <= i < entries.len() ==> (#[trigger] entries[i]).0.object_free(),
        forall|i: int, j: int|
            0 <= i < entries.len() && 0 <= j < entries.len() && i != j ==> !(
            #[trigger] entries[i]).0.same((#[trigger] entries[j]).0),
    ensures
        keys_apart(entries),
{
    assert forall|i: int, j: int, a: ValueView, b: ValueView|
        0 <= i < entries.len() && 0 <= j < entries.len() && i != j && #[trigger] turns_into(
            entries[i].0,
            a,
        ) && #[trigger] turns_into(entries[j].0, b) implies !a.same(b) by {
        law_mirrors_same(entries[i].0, a);
        law_mirrors_same(entries[j].0, b);
    }
}

/// A key that was made over again from a key of entries whose keys stay
/// apart is like none of the keys that were made from the entries before
/// it.
proof fn lemma_carry_fresh(source: Entries, i: int, before: Entries, k: ValueView)
    requires
        keys_apart(source),
        0 <= i < source.len(),
        source[i].0.mirrors(k),
        forall|j: int|
            0 <= j < before.len() ==> comes_from(source.subrange(0, i), #[trigger] before[j]),
    ensures
        forall|j: int| 0 <= j < before.len() ==> !(#[trigger] before[j]).0.same(k),
        !has_key(before, k),
{
    let seen = source.subrange(0, i);
    assert forall|j: int| 0 <= j < before.len() implies !(#[trigger] before[j]).0.same(k) by {
        assert(comes_from(seen, before[j]));
        let x = choose|x: int|
            0 <= x < seen.len() && (#[trigger] seen[x]).0.mirrors(before[j].0) && seen[x].1.mirrors(
                before[j].1,
            );
        assert(seen[x] == source[x]);
        assert(turns_into(source[x].0, before[j].0) && turns_into(source[i].0, k));
    }
}

/// After one more entry was stored, the object still has every entry over
/// again whose place none of the entries stored since can have taken, and
/// the new one.
proof fn lemma_carry_step(
    source: Entries,
    i: int,
    before: Entries,
    after: Entries,
    k: ValueView,
    v: ValueView,
)
    requires
        0 <= i < source.len(),
        source[i].0.mirrors(k),
        source[i].1.mirrors(v),
        source[i].0.carries(k),
        source[i].1.carries(v),
        stored(before, after, k, v),
        forall|x: int|
            0 <= x < i && later_apart(source, x) ==> carried(#[trigger] entry_at(source, x), before),
    ensures
        forall|x: int|
            0 <= x < i + 1 && later_apart(source, x) ==> carried(
                #[trigger] entry_at(source, x),
                after,
            ),
{
    assert forall|x: int| 0 <= x < i + 1 && later_apart(source, x) implies carried(
        #[trigger] entry_at(source, x),
        after,
    ) by {
        if x == i {
            assert(after.contains((k, v)));
            let j = choose|j: int| 0 <= j < after.len() && after[j] == (k, v);
            assert(source[x].0.mirrors(after[j].0) && source[x].1.mirrors(after[j].1)
                && source[x].0.carries(after[j].0) && source[x].1.carries(after[j].1));
        } else {
            assert(carried(entry_at(source, x), before));
            let j0 = choose|j0: int|
                0 <= j0 < before.len() && source[x].0.mirrors((#[trigger] before[j0]).0)
                    && source[x].1.mirrors(before[j0].1) && source[x].0.carries(before[j0].0)
                    && source[x].1.carries(before[j0].1);
            assert(before.contains(before[j0]));
            assert(turns_into(source[x].0, before[j0].0) && turns_into(source[i].0, k));
            assert(!before[j0].0.same(k));
            assert(after.contains(before[j0]));
            let j = choose|j: int| 0 <= j < after.len() && after[j] == before[j0];
            assert(source[x].0.mirrors(after[j].0) && source[x].1.mirrors(after[j].1)
                && source[x].0.carries(after[j].0) && source[x].1.carries(after[j].1));
        }
    }
}

/// Storing the next entry of `source` over again keeps an object that has
/// lost none of the entries before it, but to a later one, one that has
/// lost none up to it.
pub(crate) proof fn lemma_carry_next(
    source: Entries,
    i: int,
    before: Entries,
    after: Entries,
    k: ValueView,
    v: ValueView,
)
    requires
        0 <= i < source.len(),
        source[i].0.mirrors(k),
        source[i].1.mirrors(v),
        source[i].0.carries(k),
        source[i].1.carries(v),
        stored(before, after, k, v),
        forall|j: int|
            0 <= j < before.len() ==> comes_from(source.subrange(0, i), #[trigger] before[j]),
        keys_apart(source) ==> before.len() == i,
        forall|x: int|
            0 <= x < i && later_apart(source, x) ==> carried(#[trigger] entry_at(source, x), before),
    ensures
        keys_apart(source) ==> after.len() == i + 1,
        forall|x: int|
            0 <= x < i + 1 && later_apart(source, x) ==> carried(
                #[trigger] entry_at(source, x),
                after,
            ),
{
    if keys_apart(source) {
        lemma_carry_fresh(source, i, before, k);
    }
    lemma_carry_step(source, i, before, after, k, v);
}

impl OwnedValue {
    /// The owned value that is `value` over again, its symbols without their
    /// links. An object in it loses an entry only to a later entry whose
    /// key falls together with its own once their links are gone.
    pub fn from_value(value: &Value) -> (r: OwnedValue)
        ensures
            value@.mirrors(r@),
            value@.carries(r@),
        decreases value@, 1nat,
    {
        match value {
            Value::Number(number) => OwnedValue::Number(*number),
            Value::String(text) => OwnedValue::String(text.clone()),
            Value::Symbol(symbol) => OwnedValue::Symbol(symbol.owned()),
            Value::Array(array) => {
                proof {
                    assert(decreases_to!(value@ => value@->Array_0));
                }
                OwnedValue::Array(OwnedArray::from_array(array))
            },
            Value::Object(object) => {
                proof {
                    assert(decreases_to!(value@ => value@->Object_0));
                }
                OwnedValue::Object(OwnedObject::from_object(object))
            },
        }
    }
}

impl OwnedArray {
    /// The owned array whose items are those of `array` over again, none
    /// of them lost.
    pub fn from_array(array: &Array) -> (r: OwnedArray)
        ensures
            ValueView::Array(array@).mirrors(ValueView::Array(r@)),
            ValueView::Array(array@).carries(ValueView::Array(r@)),
        decreases array@, 0nat,
    {
        let n = array.len();
        let mut r = OwnedArray::new();
        let mut i: usize = 0;
        while i < n
            invariant
                n == array@.len(),
                i <= n,
                r@.len() == i,
                forall|j: int| 0 <= j < i ==> (#[trigger] array@[j]).mirrors(r@[j]),
                forall|j: int| 0 <= j < i ==> (#[trigger] array@[j]).carries(r@[j]),
            decreases n - i,
        {
            let item = array.get_unwrapped(i);
            proof {
                assert(decreases_to!(array@ => array@[i as int]));
            }
            let owned = OwnedValue::from_value(&item);
            r.push_back_mut(owned);
            i += 1;
        }
        r
    }
}

impl OwnedObject {
    /// The owned object whose entries are those of `object` over again. It
    /// has every entry of `object` whose place no entry that `object` hands
    /// out later can take, under its own key over again; and as many
    /// entries as `object` where no two keys of `object` can turn into like
    /// keys.
    pub fn from_object(object: &Object) -> (r: OwnedObject)
        ensures
            ValueView::Object(object@).mirrors(ValueView::Object(r@)),
            entries_carried(object@, r@),
        decreases object@, 0nat,
    {
        let entries = object.entries();
        let n = entries.len();
        let mut r = OwnedObject::new();
        let mut i: usize = 0;
        proof {
            lemma_mirror_none(object@);
        }
        while i < n
            invariant
                n == entries@.len(),
                n == object@.len(),
                i <= n,
                entries@.map_values(|e: (Arc<Value>, Arc<Value>)| (e.0@, e.1@)) == object@,
                tidy(object@),
                entries_mirror(object@.subrange(0, i as int), r@),
                keys_apart(object@) ==> r@.len() == i,
                forall|x: int|
                    0 <= x < i && later_apart(object@, x) ==> carried(
                        #[trigger] entry_at(object@, x),
                        r@,
                    ),
            decreases n - i,
        {
            proof {
                assert(entries@.map_values(|e: (Arc<Value>, Arc<Value>)| (e.0@, e.1@))[i as int]
                    == object@[i as int]);
                assert(decreases_to!(object@ => object@[i as int]));
                assert(decreases_to!(object@[i as int] => object@[i as int].0));
                assert(decreases_to!(object@[i as int] => object@[i as int].1));
            }
            let key = OwnedValue::from_value(&entries[i].0);
            let value = OwnedValue::from_value(&entries[i].1);
            let ghost before = r@;
            r.set_mut(key, value);
            proof {
                lemma_carry_next(object@, i as int, before, r@, key@, value@);
                lemma_mirror_step(object@, i as int, before, r@, key@, value@);
            }
            i += 1;
        }
        proof {
            assert(object@.subrange(0, n as int) =~= object@);
            assert(entries_carried(object@, r@));
        }
        r
    }
}

impl Value {
    /// The value of `interpreter` that is `val` over again, every symbol in
    /// it interned there, and nothing in it lost. Every symbol in what
    /// comes back is linked to the table of `interpreter`, at any depth and
    /// at every level of its namespaces. Only the interning of a symbol can
    /// fail.
    pub fn from_owned(val: &OwnedValue, interpreter: &mut Interpreter) -> (r: Result<
        Value,
        SymbolError,
    >)
        ensures
            match r {
                Ok(value) => val@.mirrors(value@) && val@.carries(value@) && value.linked_within(
                    old(interpreter).lock(),
                ),
                Err(e) => e == SymbolError::TableCorrupted && !val@.symbol_free(),
            },
            r matches Ok(Value::Symbol(symbol)) ==> symbol.table() == old(interpreter).lock()
                && symbol.linked_throughout(old(interpreter).lock()),
            final(interpreter).lock() == old(interpreter).lock(),
        decreases val@, 1nat,
    {
        match val {
            OwnedValue::Number(number) => Ok(Value::Number(*number)),
            OwnedValue::String(text) => Ok(Value::String(text.clone())),
            OwnedValue::Symbol(symbol) => match Symbol::from_owned(symbol, interpreter) {
                Ok(symbol) => {
                    proof {
                        let lock = old(interpreter).lock();
                        assert forall|other: RwLock<SymbolTable>| #[trigger]
                            symbol.tables().to_set().contains(other) implies other == lock by {
                            assert(symbol.tables().contains(other));
                            let i = choose|i: int|
                                0 <= i < symbol.tables().len() && symbol.tables()[i] == other;
                            assert(symbol.tables()[i] == lock);
                        }
                    }
                    Ok(Value::Symbol(symbol))
                },
                Err(e) => Err(e),
            },
            OwnedValue::Array(array) => {
                proof {
                    assert(decreases_to!(val@ => val@->Array_0));
                }
                match Array::from_owned(array, interpreter) {
                    Ok(array) => Ok(Value::Array(array)),
                    Err(e) => Err(e),
                }
            },
            OwnedValue::Object(object) => {
                proof {
                    assert(decreases_to!(val@ => val@->Object_0));
                }
                match Object::from_owned(object, interpreter) {
                    Ok(object) => Ok(Value::Object(object)),
                    Err(e) => Err(e),
                }
            },
        }
    }
}

impl Array {
    /// The array of `interpreter` whose items are those of `array` over
    /// again, every symbol in it linked to the table of `interpreter`.
    pub fn from_owned(array: &OwnedArray, interpreter: &mut Interpreter) -> (r: Result<
        Array,
        SymbolError,
    >)
        ensures
            match r {
                Ok(bound) => ValueView::Array(array@).mirrors(ValueView::Array(bound@))
                    && ValueView::Array(array@).carries(ValueView::Array(bound@)) && Value::Array(
                    bound,
                ).linked_within(old(interpreter).lock()),
                Err(e) => e == SymbolError::TableCorrupted && !ValueView::Array(
                    array@,
                ).symbol_free(),
            },
            final(interpreter).lock() == old(interpreter).lock(),
        decreases array@, 0nat,
    {
        let n = array.len();
        let mut r = Array::new();
        let mut i: usize = 0;
        while i < n
            invariant
                n == array@.len(),
                i <= n,
                r@.len() == i,
                forall|j: int| 0 <= j < i ==> (#[trigger] array@[j]).mirrors(r@[j]),
                forall|j: int| 0 <= j < i ==> (#[trigger] array@[j]).carries(r@[j]),
                Value::Array(r).linked_within(old(interpreter).lock()),
                interpreter.lock() == old(interpreter).lock(),
            decreases n - i,
        {
            let item = array.get_unwrapped(i);
            proof {
                assert(decreases_to!(array@ => array@[i as int]));
            }
            match Value::from_owned(&item, interpreter) {
                Ok(bound) => {
                    let ghost before = r;
                    let ghost added = bound;
                    r.push_back_mut(bound);
                    proof {
                        let lock = old(interpreter).lock();
                        assert forall|other: RwLock<SymbolTable>| #[trigger]
                            array_links(r).contains(other) implies other == lock by {
                            assert(array_links(before).union(added.links()).contains(other));
                            assert(Value::Array(before).links().contains(other)
                                || added.links().contains(other));
                        }
                    }
                },
                Err(e) => {
                    proof {
                        let whole = ValueView::Array(array@);
                        assert(!(#[trigger] whole->Array_0[i as int]).symbol_free());
                    }
                    return Err(e);
                },
            }
            i += 1;
        }
        Ok(r)
    }
}

impl Object {
    /// The object of `interpreter` whose entries are those of `object` over
    /// again. It has every entry of `object` whose place no entry that
    /// `object` hands out later can take, under its own key over again; and
    /// as many entries as `object` where no two keys of `object` can turn
    /// into like keys, as none can where no key of `object` holds an
    /// object.
    pub fn from_owned(object: &OwnedObject, interpreter: &mut Interpreter) -> (r: Result<
        Object,
        SymbolError,
    >)
        ensures
            match r {
                Ok(bound) => ValueView::Object(object@).mirrors(ValueView::Object(bound@))
                    && entries_carried(object@, bound@) && (bare_keys(object@) ==> bound@.len()
                    == object@.len()) && Value::Object(bound).linked_within(
                    old(interpreter).lock(),
                ),
                Err(e) => e == SymbolError::TableCorrupted && !ValueView::Object(
                    object@,
                ).symbol_free(),
            },
            final(interpreter).lock() == old(interpreter).lock(),
        decreases object@, 0nat,
    {
        let entries = object.entries();
        let n = entries.len();
        let mut r = Object::new();
        let mut i: usize = 0;
        proof {
            lemma_mirror_none(object@);
            if bare_keys(object@) {
                assert(unlike_keys(object@));
                law_unlike_keys_apart(object@);
            }
        }
        while i < n
            invariant
                n == entries@.len(),
                n == object@.len(),
                i <= n,
                entries@.map_values(|e: (Arc<OwnedValue>, Arc<OwnedValue>)| (e.0@, e.1@))
                    == object@,
                tidy(object@),
                bare_keys(object@) ==> keys_apart(object@),
                Value::Object(r).linked_within(old(interpreter).lock()),
                entries_mirror(object@.subrange(0, i as int), r@),
                keys_apart(object@) ==> r@.len() == i,
                forall|x: int|
                    0 <= x < i && later_apart(object@, x) ==> carried(
                        #[trigger] entry_at(object@, x),
                        r@,
                    ),
                interpreter.lock() == old(interpreter).lock(),
            decreases n - i,
        {
            proof {
                assert(entries@.map_values(
                    |e: (Arc<OwnedValue>, Arc<OwnedValue>)| (e.0@, e.1@),
                )[i as int] == object@[i as int]);
                assert(decreases_to!(object@ => object@[i as int]));
                assert(decreases_to!(object@[i as int] => object@[i as int].0));
                assert(decreases_to!(object@[i as int] => object@[i as int].1));
            }
            let key = match Value::from_owned(&entries[i].0, interpreter) {
                Ok(key) => key,
                Err(e) => {
                    proof {
                        let whole = ValueView::Object(object@);
                        assert(!(#[trigger] whole->Object_0[i as int]).0.symbol_free());
                    }
                    return Err(e);
                },
            };
            let value = match Value::from_owned(&entries[i].1, interpreter) {
                Ok(value) => value,
                Err(e) => {
                    proof {
                        let whole = ValueView::Object(object@);
                        assert(!(#[trigger] whole->Object_0[i as int]).1.symbol_free());
                    }
                    return Err(e);
                },
            };
            let ghost before = r@;
            let ghost was = r;
            let ghost new_key = key;
            let ghost new_value = value;
            r.set_mut(key, value);
            proof {
                lemma_carry_next(object@, i as int, before, r@, key@, value@);
                lemma_mirror_step(object@, i as int, before, r@, key@, value@);
                let lock = old(interpreter).lock();
                assert forall|other: RwLock<SymbolTable>| #[trigger]
                    object_links(r).contains(other) implies other == lock by {
                    assert(object_links(was).union(new_key.links()).union(
                        new_value.links(),
                    ).contains(other));
                    assert(Value::Object(was).links().contains(other) || new_key.links().contains(
                        other,
                    ) || new_value.links().contains(other));
                }
            }
            i += 1;
        }
        proof {
            assert(object@.subrange(0, n as int) =~= object@);
            assert(entries_carried(object@, r@));
        }
        Ok(r)
    }
}

impl From<Symbol> for OwnedSymbol {
    /// The same chain of names, without the links.
    fn from(val: Symbol) -> (r: OwnedSymbol)
        ensures
            r@ == val@,
    {
        val.owned()
    }
}

impl FromSpecImpl<Symbol> for OwnedSymbol {
    open spec fn obeys_from_spec() -> bool {
        false
    }

    open spec fn from_spec(val: Symbol) -> OwnedSymbol {
        arbitrary()
    }
}

impl From<Value> for OwnedValue {
    /// The owned value that is `val` over again.
    fn from(val: Value) -> (r: OwnedValue)
        ensures
            val@.mirrors(r@),
            val@.carries(r@),
    {
        OwnedValue::from_value(&val)
    }
}

impl FromSpecImpl<Value> for OwnedValue {
    open spec fn obeys_from_spec() -> bool {
        false
    }

    open spec fn from_spec(val: Value) -> OwnedValue {
        arbitrary()
    }
}

impl From<Array> for OwnedArray {
    /// The owned array whose items are those of `arr` over again.
    fn from(arr: Array) -> (r: OwnedArray)
        ensures
            ValueView::Array(arr@).mirrors(ValueView::Array(r@)),
            ValueView::Array(arr@).carries(ValueView::Array(r@)),
    {
        OwnedArray::from_array(&arr)
    }
}

impl FromSpecImpl<Array> for OwnedArray {
    open spec fn obeys_from_spec() -> bool {
        false
    }

    open spec fn from_spec(arr: Array) -> OwnedArray {
        arbitrary()
    }
}

impl From<Object> for OwnedObject {
    /// The owned object whose entries are those of `obj` over again.
    fn from(obj: Object) -> (r: OwnedObject)
        ensures
            ValueView::Object(obj@).mirrors(ValueView::Object(r@)),
            entries_carried(obj@, r@),
    {
        OwnedObject::from_object(&obj)
    }
}

impl FromSpecImpl<Object> for OwnedObject {
    open spec fn obeys_from_spec() -> bool {
        false
    }

    open spec fn from_spec(obj: Object) -> OwnedObject {
        arbitrary()
    }
}

} // verus!
