//! What a symbol's name may hold, and the chain of names that a symbol is.

use super::format::FormatView;
use core::cmp::Ordering;
use vstd::prelude::*;
use vstd::string::StrSliceExecFns;

verus! {

/// Why a symbol could not be made.
#[derive(Debug, Clone, Copy, PartialEq, Eq, Structural)]
pub enum SymbolError {
    /// The name holds a space.
    SpaceInName,
    /// A panic left the interpreter's symbol table locked half-way through
    /// an update: the table can no longer be relied on.
    TableCorrupted,
}

/// Whether `name` can name a symbol: it holds no space.
pub open spec fn valid_name(name: Seq<char>) -> bool {
    !name.contains(' ')
}

/// The place of a character in the code charts.
pub open spec fn code_point(c: char) -> int {
    c as int
}

/// How the text `a` stands to the text `b`: by the first character in which
/// they differ, and a text before every longer one that starts with it.
pub open spec fn text_order(a: Seq<char>, b: Seq<char>) -> Ordering
    decreases a.len(),
{
    if a.len() == 0 {
        if b.len() == 0 {
            Ordering::Equal
        } else {
            Ordering::Less
        }
    } else if b.len() == 0 {
        Ordering::Greater
    } else if code_point(a[0]) < code_point(b[0]) {
        Ordering::Less
    } else if code_point(a[0]) > code_point(b[0]) {
        Ordering::Greater
    } else {
        text_order(a.drop_first(), b.drop_first())
    }
}

/// Texts that stand equal are the same text.
pub proof fn lemma_text_order_equal(a: Seq<char>, b: Seq<char>)
    requires
        text_order(a, b) == Ordering::Equal,
    ensures
        a == b,
    decreases a.len(),
{
    if a.len() > 0 {
        lemma_text_order_equal(a.drop_first(), b.drop_first());
        assert(a =~= seq![a[0]] + a.drop_first());
        assert(b =~= seq![b[0]] + b.drop_first());
    } else {
        assert(a =~= b);
    }
}

/// A text stands equal to itself.
pub proof fn lemma_text_order_itself(a: Seq<char>)
    ensures
        text_order(a, a) == Ordering::Equal,
    decreases a.len(),
{
    if a.len() > 0 {
        lemma_text_order_itself(a.drop_first());
    }
}

/// An ordering seen from the other side.
pub open spec fn flipped(o: Ordering) -> Ordering {
    match o {
        Ordering::Less => Ordering::Greater,
        Ordering::Equal => Ordering::Equal,
        Ordering::Greater => Ordering::Less,
    }
}

/// How `b` stands to `a` is how `a` stands to `b`, seen from the other
/// side.
pub proof fn lemma_text_order_flips(a: Seq<char>, b: Seq<char>)
    ensures
        text_order(b, a) == flipped(text_order(a, b)),
    decreases a.len(),
{
    if a.len() > 0 && b.len() > 0 && code_point(a[0]) == code_point(b[0]) {
        lemma_text_order_flips(a.drop_first(), b.drop_first());
    }
}

/// A text before a text that is before a third is before the third.
pub proof fn lemma_text_order_chains(a: Seq<char>, b: Seq<char>, c: Seq<char>)
    requires
        text_order(a, b) == Ordering::Less,
        text_order(b, c) == Ordering::Less,
    ensures
        text_order(a, c) == Ordering::Less,
    decreases a.len(),
{
    if a.len() > 0 && b.len() > 0 && c.len() > 0 {
        if code_point(a[0]) == code_point(b[0]) && code_point(b[0]) == code_point(c[0]) {
            lemma_text_order_chains(a.drop_first(), b.drop_first(), c.drop_first());
        }
    }
}

/// `Ord::cmp` of std for `str`: the order of the two strings by their
/// characters, each by its place in the code charts.
#[verifier::external_body]
pub(crate) fn compare_text(a: &str, b: &str) -> (r: Ordering)
    ensures
        r == text_order(a@, b@),
{
    a.cmp(b)
}

/// A symbol as a chain of names: its own, then that of each enclosing
/// namespace out to a global one.
pub enum SymbolView {
    /// A name in the global namespace.
    Global(Seq<char>),
    /// A name and the symbol of the namespace it is local to.
    Local(Seq<char>, Box<SymbolView>),
}

impl SymbolView {
    /// The symbol's own name.
    pub open spec fn name(self) -> Seq<char> {
        match self {
            SymbolView::Global(name) => name,
            SymbolView::Local(name, _) => name,
        }
    }

    /// How this chain stands to `other`: a local symbol before every global
    /// one, two local ones by their names and then by their namespaces, two
    /// global ones by their names.
    pub open spec fn order(self, other: SymbolView) -> Ordering
        decreases self,
    {
        match self {
            SymbolView::Local(name, namespace) => match other {
                SymbolView::Local(other_name, other_namespace) => {
                    if text_order(name, other_name) == Ordering::Equal {
                        namespace.order(*other_namespace)
                    } else {
                        text_order(name, other_name)
                    }
                },
                SymbolView::Global(_) => Ordering::Less,
            },
            SymbolView::Global(name) => match other {
                SymbolView::Local(_, _) => Ordering::Greater,
                SymbolView::Global(other_name) => text_order(name, other_name),
            },
        }
    }

    /// The layout in which the symbol is written.
    pub open spec fn format(self) -> FormatView
        decreases self,
    {
        match self {
            SymbolView::Global(name) => FormatView::Global(name),
            SymbolView::Local(name, namespace) => FormatView::Local(
                name,
                Box::new(namespace.format()),
            ),
        }
    }

    /// The text of the symbol, such as `'foo::bar`.
    pub open spec fn text(self) -> Seq<char> {
        self.format().text()
    }
}

/// Chains that stand equal are the same chain.
pub proof fn lemma_order_equal(a: SymbolView, b: SymbolView)
    requires
        a.order(b) == Ordering::Equal,
    ensures
        a == b,
    decreases a,
{
    match a {
        SymbolView::Local(name, namespace) => {
            let other_name = b->Local_0;
            let other_namespace = b->Local_1;
            lemma_text_order_equal(name, other_name);
            lemma_order_equal(*namespace, *other_namespace);
        },
        SymbolView::Global(name) => {
            lemma_text_order_equal(name, b->Global_0);
        },
    }
}

/// A chain stands equal to itself.
pub proof fn lemma_order_itself(a: SymbolView)
    ensures
        a.order(a) == Ordering::Equal,
    decreases a,
{
    match a {
        SymbolView::Local(name, namespace) => {
            lemma_text_order_itself(name);
            lemma_order_itself(*namespace);
        },
        SymbolView::Global(name) => {
            lemma_text_order_itself(name);
        },
    }
}

/// How `b` stands to `a` is how `a` stands to `b`, seen from the other
/// side.
pub proof fn lemma_order_flips(a: SymbolView, b: SymbolView)
    ensures
        b.order(a) == flipped(a.order(b)),
    decreases a,
{
    match a {
        SymbolView::Local(name, namespace) => match b {
            SymbolView::Local(other_name, other_namespace) => {
                lemma_text_order_flips(name, other_name);
                lemma_order_flips(*namespace, *other_namespace);
            },
            SymbolView::Global(_) => {},
        },
        SymbolView::Global(name) => match b {
            SymbolView::Local(_, _) => {},
            SymbolView::Global(other_name) => {
                lemma_text_order_flips(name, other_name);
            },
        },
    }
}

/// A chain before a chain that is before a third is before the third.
pub proof fn lemma_order_chains(a: SymbolView, b: SymbolView, c: SymbolView)
    requires
        a.order(b) == Ordering::Less,
        b.order(c) == Ordering::Less,
    ensures
        a.order(c) == Ordering::Less,
    decreases a,
{
    match a {
        SymbolView::Local(n1, ns1) => match b {
            SymbolView::Local(n2, ns2) => match c {
                SymbolView::Local(n3, ns3) => {
                    if text_order(n1, n2) == Ordering::Equal {
                        lemma_text_order_equal(n1, n2);
                        if text_order(n2, n3) == Ordering::Equal {
                            lemma_text_order_equal(n2, n3);
                            lemma_order_chains(*ns1, *ns2, *ns3);
                        }
                    } else if text_order(n2, n3) == Ordering::Equal {
                        lemma_text_order_equal(n2, n3);
                    } else {
                        lemma_text_order_chains(n1, n2, n3);
                    }
                },
                SymbolView::Global(_) => {},
            },
            SymbolView::Global(_) => {},
        },
        SymbolView::Global(n1) => match b {
            SymbolView::Local(_, _) => {},
            SymbolView::Global(n2) => match c {
                SymbolView::Local(_, _) => {},
                SymbolView::Global(n3) => {
                    lemma_text_order_chains(n1, n2, n3);
                },
            },
        },
    }
}

/// Whether `name` holds a space.
pub fn contains_space(name: &str) -> (r: bool)
    ensures
        r == !valid_name(name@),
{
    let n = name.unicode_len();
    let mut i: usize = 0;
    while i < n
        invariant
            n == name@.len(),
            i <= n,
            forall|j: int| 0 <= j < i ==> name@[j] != ' ',
        decreases n - i,
    {
        if name.get_char(i) == ' ' {
            return true;
        }
        i += 1;
    }
    false
}

} // verus!
