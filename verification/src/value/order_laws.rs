//! That the order of values is one: seen from the other side it is the
//! same order, values that stand equal stand alike to every third, and what
//! is before something that is before a third is before the third.

use crate::value::order::entries_order;
use crate::value::order::entry_order;
use crate::value::order::items_order;
use crate::value::symbol::name::flipped;
use crate::value::symbol::name::lemma_order_chains;
use crate::value::symbol::name::lemma_order_equal;
use crate::value::symbol::name::lemma_order_flips;
use crate::value::symbol::name::lemma_order_itself;
use crate::value::symbol::name::lemma_text_order_chains;
use crate::value::symbol::name::lemma_text_order_equal;
use crate::value::symbol::name::lemma_text_order_flips;
use crate::value::symbol::name::lemma_text_order_itself;
use crate::value::view::ValueView;
use core::cmp::Ordering;
use vstd::prelude::*;

verus! {

/// Every value stands equal to itself.
pub proof fn law_order_itself(a: ValueView)
    ensures
        a.order(a) == Ordering::Equal,
    decreases a, 0nat,
{
    match a {
        ValueView::Number(_) => {},
        ValueView::String(x) => {
            lemma_text_order_itself(x);
        },
        ValueView::Symbol(x) => {
            lemma_order_itself(x);
        },
        ValueView::Array(x) => {
            lemma_items_order_themselves(x, 0);
        },
        ValueView::Object(x) => {
            lemma_entries_order_themselves(x, 0);
        },
    }
}

proof fn lemma_items_order_themselves(a: Seq<ValueView>, from: int)
    requires
        0 <= from,
    ensures
        items_order(a, a, from) == Ordering::Equal,
    decreases a, a.len() - from,
{
    if from < a.len() {
        law_order_itself(a[from]);
        lemma_items_order_themselves(a, from + 1);
    }
}

proof fn lemma_entries_order_themselves(a: Seq<(ValueView, ValueView)>, from: int)
    requires
        0 <= from,
    ensures
        entries_order(a, a, from) == Ordering::Equal,
    decreases a, a.len() - from,
{
    if from < a.len() {
        law_order_itself(a[from].0);
        law_order_itself(a[from].1);
        assert(entry_order(a[from], a[from]) == Ordering::Equal);
        lemma_entries_order_themselves(a, from + 1);
    }
}

/// How `b` stands to `a` is how `a` stands to `b`, seen from the other
/// side.
pub proof fn law_order_flips(a: ValueView, b: ValueView)
    ensures
        b.order(a) == flipped(a.order(b)),
    decreases a, 0nat,
{
    match a {
        ValueView::Number(_) => {},
        ValueView::String(x) => {
            if b is String {
                lemma_text_order_flips(x, b->String_0);
            }
        },
        ValueView::Symbol(x) => {
            if b is Symbol {
                lemma_order_flips(x, b->Symbol_0);
            }
        },
        ValueView::Array(x) => {
            if b is Array {
                lemma_items_order_flips(x, b->Array_0, 0);
            }
        },
        ValueView::Object(x) => {
            if b is Object {
                lemma_entries_order_flips(x, b->Object_0, 0);
            }
        },
    }
}

proof fn lemma_items_order_flips(a: Seq<ValueView>, b: Seq<ValueView>, from: int)
    requires
        0 <= from,
    ensures
        items_order(b, a, from) == flipped(items_order(a, b, from)),
    decreases a, a.len() - from,
{
    if from < a.len() && from < b.len() {
        law_order_flips(a[from], b[from]);
        if a[from].order(b[from]) == Ordering::Equal {
            lemma_items_order_flips(a, b, from + 1);
        }
    }
}

proof fn lemma_entry_order_flips(a: (ValueView, ValueView), b: (ValueView, ValueView))
    ensures
        entry_order(b, a) == flipped(entry_order(a, b)),
    decreases a, 1nat,
{
    law_order_flips(a.0, b.0);
    law_order_flips(a.1, b.1);
}

proof fn lemma_entries_order_flips(
    a: Seq<(ValueView, ValueView)>,
    b: Seq<(ValueView, ValueView)>,
    from: int,
)
    requires
        0 <= from,
    ensures
        entries_order(b, a, from) == flipped(entries_order(a, b, from)),
    decreases a, a.len() - from,
{
    if from < a.len() && from < b.len() {
        lemma_entry_order_flips(a[from], b[from]);
        if entry_order(a[from], b[from]) == Ordering::Equal {
            lemma_entries_order_flips(a, b, from + 1);
        }
    }
}

/// Values that stand equal stand alike to every third.
pub proof fn law_order_equal_alike(a: ValueView, b: ValueView, c: ValueView)
    requires
        a.order(b) == Ordering::Equal,
    ensures
        a.order(c) == b.order(c),
    decreases a, 0nat,
{
    match a {
        ValueView::Number(_) => {},
        ValueView::String(x) => {
            lemma_text_order_equal(x, b->String_0);
        },
        ValueView::Symbol(x) => {
            lemma_order_equal(x, b->Symbol_0);
        },
        ValueView::Array(x) => {
            if c is Array {
                lemma_items_order_equal_alike(x, b->Array_0, c->Array_0, 0);
            }
        },
        ValueView::Object(x) => {
            if c is Object {
                lemma_entries_order_equal_alike(x, b->Object_0, c->Object_0, 0);
            }
        },
    }
}

proof fn lemma_items_order_equal_alike(
    a: Seq<ValueView>,
    b: Seq<ValueView>,
    c: Seq<ValueView>,
    from: int,
)
    requires
        0 <= from,
        items_order(a, b, from) == Ordering::Equal,
    ensures
        items_order(a, c, from) == items_order(b, c, from),
    decreases a, a.len() - from,
{
    if from < a.len() && from < b.len() {
        if from < c.len() {
            law_order_equal_alike(a[from], b[from], c[from]);
            if a[from].order(c[from]) == Ordering::Equal {
                lemma_items_order_equal_alike(a, b, c, from + 1);
            }
        }
    }
}

proof fn lemma_entry_order_equal_alike(
    a: (ValueView, ValueView),
    b: (ValueView, ValueView),
    c: (ValueView, ValueView),
)
    requires
        entry_order(a, b) == Ordering::Equal,
    ensures
        entry_order(a, c) == entry_order(b, c),
    decreases a, 1nat,
{
    law_order_equal_alike(a.0, b.0, c.0);
    law_order_equal_alike(a.1, b.1, c.1);
}

proof fn lemma_entries_order_equal_alike(
    a: Seq<(ValueView, ValueView)>,
    b: Seq<(ValueView, ValueView)>,
    c: Seq<(ValueView, ValueView)>,
    from: int,
)
    requires
        0 <= from,
        entries_order(a, b, from) == Ordering::Equal,
    ensures
        entries_order(a, c, from) == entries_order(b, c, from),
    decreases a, a.len() - from,
{
    if from < a.len() && from < b.len() {
        if from < c.len() {
            lemma_entry_order_equal_alike(a[from], b[from], c[from]);
            if entry_order(a[from], c[from]) == Ordering::Equal {
                lemma_entries_order_equal_alike(a, b, c, from + 1);
            }
        }
    }
}

/// A value stands to values that stand equal alike.
pub proof fn law_order_alike_to_equal(a: ValueView, b: ValueView, c: ValueView)
    requires
        b.order(c) == Ordering::Equal,
    ensures
        a.order(b) == a.order(c),
{
    law_order_equal_alike(b, c, a);
    law_order_flips(a, b);
    law_order_flips(a, c);
}

/// A value before a value that is before a third is before the third.
pub proof fn law_order_chains(a: ValueView, b: ValueView, c: ValueView)
    requires
        a.order(b) == Ordering::Less,
        b.order(c) == Ordering::Less,
    ensures
        a.order(c) == Ordering::Less,
    decreases a, 0nat,
{
    match a {
        ValueView::Number(_) => {},
        ValueView::String(x) => {
            if b is String && c is String {
                lemma_text_order_chains(x, b->String_0, c->String_0);
            }
        },
        ValueView::Symbol(x) => {
            if b is Symbol && c is Symbol {
                lemma_order_chains(x, b->Symbol_0, c->Symbol_0);
            }
        },
        ValueView::Array(x) => {
            if b is Array && c is Array {
                lemma_items_order_chains(x, b->Array_0, c->Array_0, 0);
            }
        },
        ValueView::Object(x) => {
            if b is Object && c is Object {
                lemma_entries_order_chains(x, b->Object_0, c->Object_0, 0);
            }
        },
    }
}

proof fn lemma_items_order_chains(
    a: Seq<ValueView>,
    b: Seq<ValueView>,
    c: Seq<ValueView>,
    from: int,
)
    requires
        0 <= from,
        items_order(a, b, from) == Ordering::Less,
        items_order(b, c, from) == Ordering::Less,
    ensures
        items_order(a, c, from) == Ordering::Less,
    decreases a, a.len() - from,
{
    if from < a.len() {
        let x = a[from].order(b[from]);
        let y = b[from].order(c[from]);
        if x == Ordering::Equal {
            law_order_equal_alike(a[from], b[from], c[from]);
            if y == Ordering::Equal {
                lemma_items_order_chains(a, b, c, from + 1);
            }
        } else if y == Ordering::Equal {
            law_order_alike_to_equal(a[from], b[from], c[from]);
        } else {
            law_order_chains(a[from], b[from], c[from]);
        }
    }
}

proof fn lemma_entry_order_chains(
    a: (ValueView, ValueView),
    b: (ValueView, ValueView),
    c: (ValueView, ValueView),
)
    requires
        entry_order(a, b) == Ordering::Less,
        entry_order(b, c) == Ordering::Less,
    ensures
        entry_order(a, c) == Ordering::Less,
    decreases a, 1nat,
{
    let x = a.0.order(b.0);
    let y = b.0.order(c.0);
    if x == Ordering::Equal {
        law_order_equal_alike(a.0, b.0, c.0);
        if y == Ordering::Equal {
            law_order_chains(a.1, b.1, c.1);
        }
    } else if y == Ordering::Equal {
        law_order_alike_to_equal(a.0, b.0, c.0);
    } else {
        law_order_chains(a.0, b.0, c.0);
    }
}

proof fn lemma_entries_order_chains(
    a: Seq<(ValueView, ValueView)>,
    b: Seq<(ValueView, ValueView)>,
    c: Seq<(ValueView, ValueView)>,
    from: int,
)
    requires
        0 <= from,
        entries_order(a, b, from) == Ordering::Less,
        entries_order(b, c, from) == Ordering::Less,
    ensures
        entries_order(a, c, from) == Ordering::Less,
    decreases a, a.len() - from,
{
    if from < a.len() {
        let x = entry_order(a[from], b[from]);
        let y = entry_order(b[from], c[from]);
        if x == Ordering::Equal {
            lemma_entry_order_equal_alike(a[from], b[from], c[from]);
            if y == Ordering::Equal {
                lemma_entries_order_chains(a, b, c, from + 1);
            }
        } else if y == Ordering::Equal {
            lemma_entry_order_flips(b[from], c[from]);
            lemma_entry_order_equal_alike(c[from], b[from], a[from]);
            lemma_entry_order_flips(a[from], b[from]);
            lemma_entry_order_flips(a[from], c[from]);
        } else {
            lemma_entry_order_chains(a[from], b[from], c[from]);
        }
    }
}

} // verus!
