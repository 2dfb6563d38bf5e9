//! Expressions, and how they are written down as owned values: a node
//! without parts as a symbol, a node with parts as an object with one
//! entry for each part under a symbol that names the part.

use crate::value::owned::object::OwnedObject;
use crate::value::owned::symbol::OwnedSymbol;
use crate::value::owned::value::OwnedValue;
use crate::value::symbol::name::valid_name;
use crate::value::symbol::name::SymbolView;
use crate::value::view::stored;
use crate::value::view::ValueView;
use vstd::prelude::*;
use vstd::std_specs::convert::FromSpecImpl;
use vstd::string::StringExecFns;

verus! {

/// An expression of the language.
#[derive(Debug, PartialEq, Eq, Hash)]
pub enum Expression {
    Nop,
    /// Sets options of the editor on an expression. When run, it gives
    /// the value of `id`.
    IdeOption { id: Box<Expression>, options: OwnedObject },
    Cond { cond: Box<Expression>, if_true: Box<Expression>, if_false: Box<Expression>, display: CondDisplay },
}

/// How a conditional is shown.
#[derive(Debug, Clone, Copy, PartialEq, Eq, Structural, Hash, PartialOrd, Ord)]
pub enum CondDisplay {
    /// Like an if/else expression.
    If,
    /// Like a ternary expression of C.
    Ternary,
}

/// The symbol `'a::b`.
pub open spec fn path2(a: Seq<char>, b: Seq<char>) -> SymbolView {
    SymbolView::Local(b, Box::new(SymbolView::Global(a)))
}

/// The symbol `'a::b::c`.
pub open spec fn path3(a: Seq<char>, b: Seq<char>, c: Seq<char>) -> SymbolView {
    SymbolView::Local(c, Box::new(path2(a, b)))
}

/// The owned symbol `'a::b`.
fn symbol2(a: &str, b: &str) -> (r: OwnedSymbol)
    requires
        valid_name(a@),
        valid_name(b@),
    ensures
        r@ == path2(a@, b@),
{
    let root = match OwnedSymbol::new_global(String::from_str(a)) {
        Ok(symbol) => symbol,
        Err(_) => unreached(),
    };
    match OwnedSymbol::new_local(String::from_str(b), root) {
        Ok(symbol) => symbol,
        Err(_) => unreached(),
    }
}

/// The owned symbol `'a::b::c`.
fn symbol3(a: &str, b: &str, c: &str) -> (r: OwnedSymbol)
    requires
        valid_name(a@),
        valid_name(b@),
        valid_name(c@),
    ensures
        r@ == path3(a@, b@, c@),
{
    match OwnedSymbol::new_local(String::from_str(c), symbol2(a, b)) {
        Ok(symbol) => symbol,
        Err(_) => unreached(),
    }
}

impl CondDisplay {
    /// The symbol that stands for this way of showing.
    pub open spec fn symbol(self) -> SymbolView {
        match self {
            CondDisplay::If => path3("Ast"@, "CondDisplay"@, "If"@),
            CondDisplay::Ternary => path3("Ast"@, "CondDisplay"@, "Ternary"@),
        }
    }

    /// This way of showing as an owned value: the symbol
    /// `'Ast::CondDisplay::If` or `'Ast::CondDisplay::Ternary`.
    pub fn to_owned_value(self) -> (r: OwnedValue)
        ensures
            r@ == ValueView::Symbol(self.symbol()),
    {
        proof {
            reveal_strlit("Ast");
            reveal_strlit("CondDisplay");
            reveal_strlit("If");
            reveal_strlit("Ternary");
        }
        match self {
            CondDisplay::If => OwnedValue::Symbol(symbol3("Ast", "CondDisplay", "If")),
            CondDisplay::Ternary => OwnedValue::Symbol(symbol3("Ast", "CondDisplay", "Ternary")),
        }
    }
}

/// The key of an entry that holds a part of a node.
pub open spec fn part(symbol: SymbolView) -> ValueView {
    ValueView::Symbol(symbol)
}

impl Expression {
    /// Whether `v` is this expression written down: `'ast::nop` for the
    /// empty expression, and for a node with parts an object that holds
    /// each part, written down, under the symbol of the part, and nothing
    /// else.
    pub open spec fn written_as(self, v: ValueView) -> bool
        decreases self, 0nat,
    {
        match self {
            Expression::Nop => v == ValueView::Symbol(path2("ast"@, "nop"@)),
            Expression::IdeOption { id, options } => v matches ValueView::Object(entries)
                && entries.len() == 2 && id.written_under(
                entries,
                part(path3("Ast"@, "IdeOption"@, "Id"@)),
            ) && entries.contains(
                (part(path3("Ast"@, "IdeOption"@, "Options"@)), ValueView::Object(options@)),
            ),
            Expression::Cond { cond, if_true, if_false, display } => v matches ValueView::Object(
                entries,
            ) && entries.len() == 4 && cond.written_under(entries, part(path2("Ast"@, "Cond"@)))
                && if_false.written_under(entries, part(path3("Ast"@, "Cond"@, "IfFalse"@)))
                && if_true.written_under(entries, part(path3("Ast"@, "Cond"@, "IfTrue"@)))
                && entries.contains(
                (part(path3("Ast"@, "Cond"@, "Display"@)), ValueView::Symbol(display.symbol())),
            ),
        }
    }

    /// Whether `entries` holds this expression, written down, under `key`.
    pub open spec fn written_under(self, entries: Seq<(ValueView, ValueView)>, key: ValueView) -> bool
        decreases self, 1nat,
    {
        exists|i: int|
            0 <= i < entries.len() && (#[trigger] entries[i]).0 == key && self.written_as(
                entries[i].1,
            )
    }

    /// An entry that holds this expression, written down, holds it under
    /// its key.
    proof fn lemma_written_under(self, entries: Seq<(ValueView, ValueView)>, key: ValueView, v: ValueView)
        requires
            entries.contains((key, v)),
            self.written_as(v),
        ensures
            self.written_under(entries, key),
    {
        let i = choose|i: int| 0 <= i < entries.len() && entries[i] == (key, v);
        assert(entries[i].0 == key && self.written_as(entries[i].1));
    }

    /// The expression written down as an owned value.
    pub fn into_owned_value(self) -> (r: OwnedValue)
        ensures
            self.written_as(r@),
        decreases self,
    {
        proof {
            reveal_strlit("ast");
            reveal_strlit("nop");
            reveal_strlit("Ast");
            reveal_strlit("IdeOption");
            reveal_strlit("Id");
            reveal_strlit("Options");
            reveal_strlit("Cond");
            reveal_strlit("IfFalse");
            reveal_strlit("IfTrue");
            reveal_strlit("Display");
        }
        match self {
            Expression::Nop => {
                let r = OwnedValue::Symbol(symbol2("ast", "nop"));
                assert(self.written_as(r@));
                r
            },
            Expression::IdeOption { id, options } => {
                let mut o = OwnedObject::empty();
                let id_value = (*id).into_owned_value();
                o.set_mut(OwnedValue::Symbol(symbol3("Ast", "IdeOption", "Id")), id_value);
                let ghost one = o@;
                o.set_mut(
                    OwnedValue::Symbol(symbol3("Ast", "IdeOption", "Options")),
                    OwnedValue::Object(options),
                );
                proof {
                    let id_entry = (part(path3("Ast"@, "IdeOption"@, "Id"@)), id_value@);
                    assert("Id"@.len() != "Options"@.len());
                    assert(one.contains(id_entry));
                    assert(o@.contains(id_entry));
                    lemma_two_entries(
                        o@,
                        id_entry,
                        (part(path3("Ast"@, "IdeOption"@, "Options"@)), ValueView::Object(options@)),
                    );
                    id.lemma_written_under(o@, part(path3("Ast"@, "IdeOption"@, "Id"@)), id_value@);
                    assert(self.written_as(ValueView::Object(o@)));
                }
                OwnedValue::Object(o)
            },
            Expression::Cond { cond, if_true, if_false, display } => {
                let cond_value = (*cond).into_owned_value();
                let false_value = (*if_false).into_owned_value();
                let true_value = (*if_true).into_owned_value();
                let o = cond_object(cond_value, false_value, true_value, display);
                proof {
                    let entries = o@;
                    cond.lemma_written_under(entries, part(path2("Ast"@, "Cond"@)), cond_value@);
                    if_false.lemma_written_under(
                        entries,
                        part(path3("Ast"@, "Cond"@, "IfFalse"@)),
                        false_value@,
                    );
                    if_true.lemma_written_under(
                        entries,
                        part(path3("Ast"@, "Cond"@, "IfTrue"@)),
                        true_value@,
                    );
                    assert(self.written_as(ValueView::Object(entries)));
                }
                OwnedValue::Object(o)
            },
        }
    }
}

/// The object that holds the parts of a conditional, each under the symbol
/// of the part.
fn cond_object(
    cond_value: OwnedValue,
    false_value: OwnedValue,
    true_value: OwnedValue,
    display: CondDisplay,
) -> (o: OwnedObject)
    ensures
        o@.len() == 4,
        o@.contains((part(path2("Ast"@, "Cond"@)), cond_value@)),
        o@.contains((part(path3("Ast"@, "Cond"@, "IfFalse"@)), false_value@)),
        o@.contains((part(path3("Ast"@, "Cond"@, "IfTrue"@)), true_value@)),
        o@.contains((part(path3("Ast"@, "Cond"@, "Display"@)), ValueView::Symbol(display.symbol()))),
{
    proof {
        reveal_strlit("Ast");
        reveal_strlit("Cond");
        reveal_strlit("IfFalse");
        reveal_strlit("IfTrue");
        reveal_strlit("Display");
    }
    let mut o = OwnedObject::empty();
    o.set_mut(OwnedValue::Symbol(symbol2("Ast", "Cond")), cond_value);
    let ghost one = o@;
    o.set_mut(OwnedValue::Symbol(symbol3("Ast", "Cond", "IfFalse")), false_value);
    let ghost two = o@;
    o.set_mut(OwnedValue::Symbol(symbol3("Ast", "Cond", "IfTrue")), true_value);
    let ghost three = o@;
    o.set_mut(OwnedValue::Symbol(symbol3("Ast", "Cond", "Display")), display.to_owned_value());
    proof {
        let e1 = (part(path2("Ast"@, "Cond"@)), cond_value@);
        let e2 = (part(path3("Ast"@, "Cond"@, "IfFalse"@)), false_value@);
        let e3 = (part(path3("Ast"@, "Cond"@, "IfTrue"@)), true_value@);
        let e4 = (part(path3("Ast"@, "Cond"@, "Display"@)), ValueView::Symbol(display.symbol()));
        assert("IfFalse"@.len() != "IfTrue"@.len());
        assert("IfFalse"@[0] != "Display"@[0]);
        assert("IfTrue"@.len() != "Display"@.len());
        assert("Cond"@.len() != "IfFalse"@.len());
        assert("Cond"@.len() != "IfTrue"@.len());
        assert("Cond"@.len() != "Display"@.len());
        assert(one.contains(e1));
        assert(two.contains(e1) && two.contains(e2));
        assert(three.contains(e1) && three.contains(e2) && three.contains(e3));
        assert(o@.contains(e1) && o@.contains(e2) && o@.contains(e3) && o@.contains(e4));
        lemma_four_entries(o@, e1, e2, e3, e4);
    }
    o
}

/// Entries that hold two different entries are at least two.
proof fn lemma_two_entries(
    entries: Seq<(ValueView, ValueView)>,
    a: (ValueView, ValueView),
    b: (ValueView, ValueView),
)
    requires
        entries.contains(a),
        entries.contains(b),
        a != b,
    ensures
        entries.len() >= 2,
{
    let i = choose|i: int| 0 <= i < entries.len() && entries[i] == a;
    let j = choose|j: int| 0 <= j < entries.len() && entries[j] == b;
    assert(i != j);
}

/// Entries that hold four different entries are at least four.
proof fn lemma_four_entries(
    entries: Seq<(ValueView, ValueView)>,
    a: (ValueView, ValueView),
    b: (ValueView, ValueView),
    c: (ValueView, ValueView),
    d: (ValueView, ValueView),
)
    requires
        entries.contains(a),
        entries.contains(b),
        entries.contains(c),
        entries.contains(d),
        a != b,
        a != c,
        a != d,
        b != c,
        b != d,
        c != d,
    ensures
        entries.len() >= 4,
{
    let i = choose|i: int| 0 <= i < entries.len() && entries[i] == a;
    let j = choose|j: int| 0 <= j < entries.len() && entries[j] == b;
    let k = choose|k: int| 0 <= k < entries.len() && entries[k] == c;
    let l = choose|l: int| 0 <= l < entries.len() && entries[l] == d;
    assert(i != j && i != k && i != l && j != k && j != l && k != l);
}

impl From<CondDisplay> for OwnedValue {
    fn from(d: CondDisplay) -> (r: OwnedValue)
        ensures
            r@ == ValueView::Symbol(d.symbol()),
    {
        d.to_owned_value()
    }
}

impl FromSpecImpl<CondDisplay> for OwnedValue {
    open spec fn obeys_from_spec() -> bool {
        false
    }

    open spec fn from_spec(d: CondDisplay) -> OwnedValue {
        arbitrary()
    }
}

impl From<Expression> for OwnedValue {
    fn from(expr: Expression) -> (r: OwnedValue)
        ensures
            expr.written_as(r@),
    {
        expr.into_owned_value()
    }
}

impl FromSpecImpl<Expression> for OwnedValue {
    open spec fn obeys_from_spec() -> bool {
        false
    }

    open spec fn from_spec(expr: Expression) -> OwnedValue {
        arbitrary()
    }
}

} // verus!
