//! Symbols: interned names, global or local to a namespace.
//!
//! A symbol is used where other languages have an identifier. Its name is
//! interned in the symbol table of the interpreter that made it, and the
//! symbol keeps a link to that table: two symbols are equal when they are
//! the same chain of names and both links still lead to one and the same
//! table.

pub mod format;
pub mod name;

use self::format::SymbolFormat;
use self::name::compare_text;
use self::name::contains_space;
use self::name::lemma_order_equal;
use self::name::lemma_text_order_equal;
use self::name::valid_name;
use self::name::SymbolError;
use self::name::SymbolView;
use crate::interpreter::linked_lock;
use crate::interpreter::Interpreter;
use crate::interpreter::TableLink;
use crate::table::SymbolTable;
use crate::value::owned::symbol::GlobalOwnedSymbol;
use crate::value::owned::symbol::LocalOwnedSymbol;
use crate::value::owned::symbol::OwnedSymbol;
use core::cmp::Ordering;
use core::hash::Hash;
use core::hash::Hasher;
use std::sync::Arc;
use std::sync::RwLock;
use vstd::prelude::*;
use vstd::std_specs::cmp::PartialEqSpecImpl;
use vstd::std_specs::cmp::PartialOrdSpecImpl;

verus! {

/// An interned name, bound to the interpreter that interned it.
#[derive(Debug)]
pub enum Symbol {
    Local(LocalSymbol),
    Global(GlobalSymbol),
}

/// A symbol scoped to a namespace.
#[derive(Debug)]
pub struct LocalSymbol {
    pub(crate) name: Arc<String>,
    pub(crate) namespace: Box<Symbol>,
    pub(crate) symbol_table: TableLink,
}

/// A symbol in the global namespace.
#[derive(Debug)]
pub struct GlobalSymbol {
    pub(crate) name: Arc<String>,
    pub(crate) symbol_table: TableLink,
}

impl GlobalSymbol {
    #[verifier::type_invariant]
    pub(crate) open spec fn named_validly(self) -> bool {
        valid_name(self.name@)
    }
}

impl LocalSymbol {
    #[verifier::type_invariant]
    pub(crate) open spec fn named_validly(self) -> bool {
        valid_name(self.name@)
    }
}

impl View for Symbol {
    type V = SymbolView;

    open spec fn view(&self) -> SymbolView {
        self.chain()
    }
}

/// `Hash::hash` of std for `String`: feeds the string to the hasher.
pub assume_specification<H: Hasher>[ <std::string::String as Hash>::hash ](
    value: &std::string::String,
    state: &mut H,
);

impl Symbol {
    /// The chain of names of this symbol.
    pub closed spec fn chain(self) -> SymbolView
        decreases self,
    {
        match self {
            Symbol::Global(global) => SymbolView::Global(global.name@),
            Symbol::Local(local) => SymbolView::Local(
                local.name@,
                Box::new(local.namespace.chain()),
            ),
        }
    }

    /// The lock of the symbol table that this symbol is linked to.
    pub closed spec fn table(self) -> RwLock<SymbolTable> {
        match self {
            Symbol::Global(global) => linked_lock(global.symbol_table),
            Symbol::Local(local) => linked_lock(local.symbol_table),
        }
    }

    /// A symbol in the global namespace of `interpreter`, its name interned
    /// there. Fails if `name` holds a space, before the table is touched.
    pub fn new_global(name: String, interpreter: &mut Interpreter) -> (r: Result<
        Symbol,
        SymbolError,
    >)
        ensures
            !valid_name(name@) ==> r == Err::<Symbol, SymbolError>(SymbolError::SpaceInName),
            valid_name(name@) ==> match r {
                Ok(symbol) => symbol@ == SymbolView::Global(name@) && symbol.table() == old(
                    interpreter,
                ).lock() && symbol.tables() == seq![old(interpreter).lock()],
                Err(e) => e == SymbolError::TableCorrupted,
            },
            final(interpreter).lock() == old(interpreter).lock(),
    {
        if contains_space(name.as_str()) {
            return Err(SymbolError::SpaceInName);
        }
        match interpreter.intern_global(name) {
            Ok(handle) => Ok(
                Symbol::Global(GlobalSymbol { name: handle, symbol_table: interpreter.link() }),
            ),
            Err(e) => Err(e),
        }
    }

    /// A symbol local to `namespace`, its name interned in the table of
    /// `interpreter` under that namespace. Fails if `name` holds a space,
    /// before the table is touched.
    pub fn new_local(name: String, namespace: Symbol, interpreter: &mut Interpreter) -> (r: Result<
        Symbol,
        SymbolError,
    >)
        ensures
            !valid_name(name@) ==> r == Err::<Symbol, SymbolError>(SymbolError::SpaceInName),
            valid_name(name@) ==> match r {
                Ok(symbol) => symbol@ == SymbolView::Local(name@, Box::new(namespace@))
                    && symbol.table() == old(interpreter).lock() && symbol.tables() == seq![
                    old(interpreter).lock(),
                ] + namespace.tables(),
                Err(e) => e == SymbolError::TableCorrupted,
            },
            final(interpreter).lock() == old(interpreter).lock(),
    {
        if contains_space(name.as_str()) {
            return Err(SymbolError::SpaceInName);
        }
        let scope = namespace.owned();
        match interpreter.intern_local(&scope, name) {
            Ok(handle) => Ok(
                Symbol::Local(
                    LocalSymbol {
                        name: handle,
                        namespace: Box::new(namespace),
                        symbol_table: interpreter.link(),
                    },
                ),
            ),
            Err(e) => Err(e),
        }
    }

    /// The symbol of `interpreter` with the names of `owned`: every level of
    /// the chain is interned, the outermost namespace first, and every
    /// level is linked to the table of `interpreter`.
    pub fn from_owned(owned: &OwnedSymbol, interpreter: &mut Interpreter) -> (r: Result<
        Symbol,
        SymbolError,
    >)
        ensures
            match r {
                Ok(symbol) => symbol@ == owned@ && symbol.table() == old(interpreter).lock()
                    && symbol.linked_throughout(old(interpreter).lock()),
                Err(e) => e == SymbolError::TableCorrupted,
            },
            final(interpreter).lock() == old(interpreter).lock(),
        decreases owned,
    {
        match owned {
            OwnedSymbol::Global(global) => {
                let name = owned.get_name().clone();
                Symbol::new_global(name, interpreter)
            },
            OwnedSymbol::Local(local) => {
                let name = owned.get_name().clone();
                match Symbol::from_owned(&local.namespace, interpreter) {
                    Ok(namespace) => Symbol::new_local(name, namespace, interpreter),
                    Err(e) => Err(e),
                }
            },
        }
    }

    /// The symbol's own name, without its namespaces.
    pub fn get_name(&self) -> (r: &String)
        ensures
            r@ == self@.name(),
            valid_name(r@),
    {
        match self {
            Symbol::Global(global) => {
                proof {
                    use_type_invariant(global);
                }
                &global.name
            },
            Symbol::Local(local) => {
                proof {
                    use_type_invariant(local);
                }
                &local.name
            },
        }
    }

    /// The layout in which the symbol is written.
    pub fn format(&self) -> (r: SymbolFormat<'_>)
        ensures
            r@ == self@.format(),
        decreases self,
    {
        match self {
            Symbol::Global(global) => SymbolFormat::Global(global.name.as_str()),
            Symbol::Local(local) => SymbolFormat::Local(
                local.name.as_str(),
                Box::new(local.namespace.format()),
            ),
        }
    }

    /// The text of the symbol, such as `'foo::bar`.
    pub fn to_text(&self) -> (r: String)
        ensures
            r@ == self@.text(),
    {
        self.format().to_text()
    }

    /// Whether the two symbols are the same chain of names, whatever they
    /// are linked to.
    pub fn same_chain(&self, other: &Symbol) -> (r: bool)
        ensures
            r == (self@ == other@),
        decreases self,
    {
        match (self, other) {
            (Symbol::Global(a), Symbol::Global(b)) => *a.name == *b.name,
            (Symbol::Local(a), Symbol::Local(b)) => {
                *a.name == *b.name && a.namespace.same_chain(&b.namespace)
            },
            _ => false,
        }
    }

    /// Whether the two symbols are equal: level by level the same name, with
    /// both links leading to one table that is still there. A symbol whose
    /// interpreter is gone equals nothing, not even itself.
    pub fn equals(&self, other: &Symbol) -> (r: bool)
        ensures
            r ==> self@ == other@ && self.table() == other.table(),
            r ==> self.tables() == other.tables(),
            self@ != other@ ==> !r,
    {
        // The links are asked first, level by level from the outermost
        // namespace in, and no further once two of them disagree.
        // Whether an interpreter is still there is no function of the two
        // symbols, so no more is promised here: symbols of one chain and
        // one table are equal only while the interpreter is there.
        // `equals_given` says the result for whatever the links say.
        let agree = self.links_agree(other);
        let r = self.equals_given(other, agree);
        r
    }

    /// How this symbol stands to `other`. Their chains of names decide it
    /// wherever they differ: a local symbol comes before every global one,
    /// two local ones go by their names and then by their namespaces, two
    /// global ones by their names. Between symbols of one chain the links
    /// decide, level by level from the outermost namespace in, so that
    /// only symbols of one chain stand equal.
    pub fn compare(&self, other: &Symbol) -> (r: Ordering)
        ensures
            self@.order(other@) != Ordering::Equal ==> r == self@.order(other@),
            r == Ordering::Equal ==> self@ == other@,
        decreases self,
    {
        match self {
            Symbol::Local(a) => match other {
                Symbol::Local(b) => {
                    let by_name = compare_text(a.name.as_str(), b.name.as_str());
                    match by_name {
                        Ordering::Equal => {
                            let by_namespace = a.namespace.compare(&b.namespace);
                            match by_namespace {
                                Ordering::Equal => {
                                    proof {
                                        lemma_text_order_equal(a.name@, b.name@);
                                    }
                                    a.symbol_table.position(&b.symbol_table)
                                },
                                Ordering::Less => Ordering::Less,
                                Ordering::Greater => Ordering::Greater,
                            }
                        },
                        Ordering::Less => Ordering::Less,
                        Ordering::Greater => Ordering::Greater,
                    }
                },
                Symbol::Global(_) => Ordering::Less,
            },
            Symbol::Global(a) => match other {
                Symbol::Local(_) => Ordering::Greater,
                Symbol::Global(b) => {
                    let by_name = compare_text(a.name.as_str(), b.name.as_str());
                    match by_name {
                        Ordering::Equal => {
                            proof {
                                lemma_text_order_equal(a.name@, b.name@);
                            }
                            a.symbol_table.position(&b.symbol_table)
                        },
                        Ordering::Less => Ordering::Less,
                        Ordering::Greater => Ordering::Greater,
                    }
                },
            },
        }
    }

    /// How the chain of names of this symbol stands to that of `other`,
    /// whatever the two are linked to.
    pub fn compare_chain(&self, other: &Symbol) -> (r: Ordering)
        ensures
            r == self@.order(other@),
        decreases self,
    {
        match self {
            Symbol::Local(a) => match other {
                Symbol::Local(b) => {
                    let by_name = compare_text(a.name.as_str(), b.name.as_str());
                    match by_name {
                        Ordering::Equal => a.namespace.compare_chain(&b.namespace),
                        Ordering::Less => Ordering::Less,
                        Ordering::Greater => Ordering::Greater,
                    }
                },
                Symbol::Global(_) => Ordering::Less,
            },
            Symbol::Global(a) => match other {
                Symbol::Local(_) => Ordering::Greater,
                Symbol::Global(b) => compare_text(a.name.as_str(), b.name.as_str()),
            },
        }
    }

    /// Feeds the names of the chain to `state`, the symbol's own first.
    fn hash_chain<H: Hasher>(&self, state: &mut H)
        decreases self,
    {
        match self {
            Symbol::Global(global) => {
                (*global.name).hash(state);
            },
            Symbol::Local(local) => {
                (*local.name).hash(state);
                local.namespace.hash_chain(state);
            },
        }
    }

    /// A copy of the symbol, linked as this one is.
    pub fn duplicate(&self) -> (r: Symbol)
        ensures
            r@ == self@,
            r.table() == self.table(),
        decreases self,
    {
        match self {
            Symbol::Global(global) => {
                proof {
                    use_type_invariant(global);
                }
                Symbol::Global(
                    GlobalSymbol {
                        name: global.name.clone(),
                        symbol_table: global.symbol_table.clone(),
                    },
                )
            },
            Symbol::Local(local) => {
                proof {
                    use_type_invariant(local);
                }
                Symbol::Local(
                    LocalSymbol {
                        name: local.name.clone(),
                        namespace: Box::new(local.namespace.duplicate()),
                        symbol_table: local.symbol_table.clone(),
                    },
                )
            },
        }
    }

    /// The same chain of names, without the links.
    pub fn owned(&self) -> (r: OwnedSymbol)
        ensures
            r@ == self@,
        decreases self,
    {
        match self {
            Symbol::Global(global) => {
                proof {
                    use_type_invariant(global);
                }
                OwnedSymbol::Global(GlobalOwnedSymbol { name: (*global.name).clone() })
            },
            Symbol::Local(local) => {
                proof {
                    use_type_invariant(local);
                }
                OwnedSymbol::Local(
                    LocalOwnedSymbol {
                        name: (*local.name).clone(),
                        namespace: Box::new(local.namespace.owned()),
                    },
                )
            },
        }
    }
}

impl Symbol {
    /// The locks of the symbol tables that the symbol is linked to, level by
    /// level: its own first, then that of its namespace, and so on outward.
    pub closed spec fn tables(self) -> Seq<RwLock<SymbolTable>>
        decreases self,
    {
        match self {
            Symbol::Global(global) => seq![linked_lock(global.symbol_table)],
            Symbol::Local(local) => seq![linked_lock(local.symbol_table)]
                + local.namespace.tables(),
        }
    }

    /// Whether the symbol is linked to the table behind `lock` at every
    /// level, its namespaces too.
    pub open spec fn linked_throughout(self, lock: RwLock<SymbolTable>) -> bool {
        forall|i: int| 0 <= i < self.tables().len() ==> #[trigger] self.tables()[i] == lock
    }

    /// Whether the links of the two symbols agree: the symbols have as many
    /// levels, and level by level both links lead to one table that is
    /// still there. The links are asked from the outermost namespace in, and
    /// no further once two of them disagree.
    pub fn links_agree(&self, other: &Symbol) -> (r: bool)
        ensures
            r ==> self.tables() == other.tables() && self.table() == other.table(),
        decreases self,
    {
        match (self, other) {
            (Symbol::Global(a), Symbol::Global(b)) => a.symbol_table.same_live_table(
                &b.symbol_table,
            ),
            (Symbol::Local(a), Symbol::Local(b)) => {
                a.namespace.links_agree(&b.namespace) && a.symbol_table.same_live_table(
                    &b.symbol_table,
                )
            },
            _ => false,
        }
    }

    /// Whether the two symbols are equal, given whether their links agree:
    /// they are exactly if the links agree and the two are one chain of
    /// names.
    pub fn equals_given(&self, other: &Symbol, links_agree: bool) -> (r: bool)
        ensures
            r == (links_agree && self@ == other@),
    {
        links_agree && self.same_chain(other)
    }
}

impl Clone for Symbol {
    fn clone(&self) -> (r: Symbol)
        ensures
            r@ == self@,
            r.table() == self.table(),
    {
        self.duplicate()
    }
}

impl PartialEq for Symbol {
    fn eq(&self, other: &Symbol) -> (r: bool)
        ensures
            r ==> self@ == other@ && self.table() == other.table(),
            r ==> self.tables() == other.tables(),
            self@ != other@ ==> !r,
    {
        self.equals(other)
    }
}

impl Eq for Symbol {

}

impl PartialEqSpecImpl for Symbol {
    /// What `==` gives depends on whether the interpreters are still there,
    /// which no function of the two symbols can tell.
    open spec fn obeys_eq_spec() -> bool {
        false
    }

    open spec fn eq_spec(&self, other: &Symbol) -> bool {
        self@ == other@ && self.table() == other.table()
    }
}

impl PartialOrd for Symbol {
    fn partial_cmp(&self, other: &Symbol) -> (r: Option<Ordering>)
        ensures
            r is Some,
            self@.order(other@) != Ordering::Equal ==> r == Some(self@.order(other@)),
            r == Some(Ordering::Equal) ==> self@ == other@,
    {
        Some(self.compare(other))
    }
}

impl PartialOrdSpecImpl for Symbol {
    /// Where the chains of names are the same the links decide, and what
    /// they say is no function of the two symbols.
    open spec fn obeys_partial_cmp_spec() -> bool {
        false
    }

    open spec fn partial_cmp_spec(&self, other: &Symbol) -> Option<Ordering> {
        Some(self@.order(other@))
    }
}

impl Hash for Symbol {
    /// Hashes the chain of names, so that equal symbols hash alike.
    fn hash<H: Hasher>(&self, state: &mut H) {
        self.hash_chain(state)
    }
}

} // verus!
