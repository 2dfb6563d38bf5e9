//! A symbol that owns its names and needs no interpreter.

use crate::value::symbol::format::SymbolFormat;
use crate::value::symbol::name::compare_text;
use crate::value::symbol::name::contains_space;
use crate::value::symbol::name::valid_name;
use crate::value::symbol::name::SymbolError;
use crate::value::symbol::name::SymbolView;
use core::cmp::Ordering;
use vstd::prelude::*;
use vstd::std_specs::cmp::PartialEqSpecImpl;

verus! {

/// A symbol that can be made, kept and compared without an interpreter.
///
/// Two owned symbols are equal when their chains of names are.
#[derive(Debug, PartialOrd, Ord, Hash)]
pub enum OwnedSymbol {
    Local(LocalOwnedSymbol),
    Global(GlobalOwnedSymbol),
}

/// A symbol scoped to a namespace.
#[derive(Debug, PartialEq, Eq, PartialOrd, Ord, Hash)]
pub struct LocalOwnedSymbol {
    pub(crate) name: String,
    pub(crate) namespace: Box<OwnedSymbol>,
}

/// A symbol in the global namespace.
#[derive(Debug, PartialEq, Eq, PartialOrd, Ord, Hash)]
pub struct GlobalOwnedSymbol {
    pub(crate) name: String,
}

impl GlobalOwnedSymbol {
    #[verifier::type_invariant]
    pub(crate) open spec fn named_validly(self) -> bool {
        valid_name(self.name@)
    }
}

impl LocalOwnedSymbol {
    #[verifier::type_invariant]
    pub(crate) open spec fn named_validly(self) -> bool {
        valid_name(self.name@)
    }

    /// The chain of names of this symbol.
    pub open(crate) spec fn chain(self) -> SymbolView {
        SymbolView::Local(self.name@, Box::new(self.namespace.chain()))
    }

    /// The namespace that this symbol is local to.
    pub fn get_parent_namespace(&self) -> (r: &OwnedSymbol)
        ensures
            self.chain() == SymbolView::Local(self.chain().name(), Box::new(r@)),
    {
        &self.namespace
    }
}

impl View for OwnedSymbol {
    type V = SymbolView;

    open spec fn view(&self) -> SymbolView {
        self.chain()
    }
}

impl OwnedSymbol {
    /// The chain of names of this symbol.
    pub open(crate) spec fn chain(self) -> SymbolView
        decreases self,
    {
        match self {
            OwnedSymbol::Global(global) => SymbolView::Global(global.name@),
            OwnedSymbol::Local(local) => SymbolView::Local(
                local.name@,
                Box::new(local.namespace.chain()),
            ),
        }
    }

    /// A symbol in the global namespace, unless `name` holds a space.
    pub fn new_global(name: String) -> (r: Result<OwnedSymbol, SymbolError>)
        ensures
            valid_name(name@) ==> r is Ok && r->Ok_0@ == SymbolView::Global(name@),
            !valid_name(name@) ==> r == Err::<OwnedSymbol, SymbolError>(SymbolError::SpaceInName),
    {
        if contains_space(name.as_str()) {
            return Err(SymbolError::SpaceInName);
        }
        Ok(OwnedSymbol::Global(GlobalOwnedSymbol { name }))
    }

    /// A symbol local to `namespace`, unless `name` holds a space.
    pub fn new_local(name: String, namespace: OwnedSymbol) -> (r: Result<OwnedSymbol, SymbolError>)
        ensures
            valid_name(name@) ==> r is Ok && r->Ok_0@ == SymbolView::Local(
                name@,
                Box::new(namespace@),
            ),
            !valid_name(name@) ==> r == Err::<OwnedSymbol, SymbolError>(SymbolError::SpaceInName),
    {
        if contains_space(name.as_str()) {
            return Err(SymbolError::SpaceInName);
        }
        Ok(OwnedSymbol::Local(LocalOwnedSymbol { name, namespace: Box::new(namespace) }))
    }

    /// The symbol's own name, without its namespaces.
    pub fn get_name(&self) -> (r: &String)
        ensures
            r@ == self@.name(),
            valid_name(r@),
    {
        match self {
            OwnedSymbol::Local(local) => {
                proof {
                    use_type_invariant(local);
                }
                &local.name
            },
            OwnedSymbol::Global(global) => {
                proof {
                    use_type_invariant(global);
                }
                &global.name
            },
        }
    }

    /// The layout in which the symbol is written.
    pub fn format(&self) -> (r: SymbolFormat<'_>)
        ensures
            r@ == self@.format(),
        decreases self,
    {
        match self {
            OwnedSymbol::Local(local) => SymbolFormat::Local(
                local.name.as_str(),
                Box::new(local.namespace.format()),
            ),
            OwnedSymbol::Global(global) => SymbolFormat::Global(global.name.as_str()),
        }
    }

    /// The text of the symbol, such as `'foo::bar`.
    pub fn to_text(&self) -> (r: String)
        ensures
            r@ == self@.text(),
    {
        self.format().to_text()
    }

    /// Whether the two symbols are the same chain of names.
    pub fn same(&self, other: &OwnedSymbol) -> (r: bool)
        ensures
            r == (self@ == other@),
        decreases self,
    {
        match (self, other) {
            (OwnedSymbol::Global(a), OwnedSymbol::Global(b)) => a.name == b.name,
            (OwnedSymbol::Local(a), OwnedSymbol::Local(b)) => {
                a.name == b.name && a.namespace.same(&b.namespace)
            },
            _ => false,
        }
    }

    /// How this symbol stands to `other`: a local symbol before every
    /// global one, two local ones by their names and then by their
    /// namespaces, two global ones by their names.
    pub fn compare(&self, other: &OwnedSymbol) -> (r: Ordering)
        ensures
            r == self@.order(other@),
        decreases self,
    {
        match self {
            OwnedSymbol::Local(a) => match other {
                OwnedSymbol::Local(b) => {
                    let by_name = compare_text(a.name.as_str(), b.name.as_str());
                    match by_name {
                        Ordering::Equal => a.namespace.compare(&b.namespace),
                        Ordering::Less => Ordering::Less,
                        Ordering::Greater => Ordering::Greater,
                    }
                },
                OwnedSymbol::Global(_) => Ordering::Less,
            },
            OwnedSymbol::Global(a) => match other {
                OwnedSymbol::Local(_) => Ordering::Greater,
                OwnedSymbol::Global(b) => compare_text(a.name.as_str(), b.name.as_str()),
            },
        }
    }

    /// A copy of the symbol.
    pub fn duplicate(&self) -> (r: OwnedSymbol)
        ensures
            r@ == self@,
        decreases self,
    {
        match self {
            OwnedSymbol::Global(global) => {
                proof {
                    use_type_invariant(global);
                }
                OwnedSymbol::Global(GlobalOwnedSymbol { name: global.name.clone() })
            },
            OwnedSymbol::Local(local) => {
                proof {
                    use_type_invariant(local);
                }
                OwnedSymbol::Local(
                    LocalOwnedSymbol {
                        name: local.name.clone(),
                        namespace: Box::new(local.namespace.duplicate()),
                    },
                )
            },
        }
    }
}

impl Clone for OwnedSymbol {
    fn clone(&self) -> (r: OwnedSymbol)
        ensures
            r@ == self@,
    {
        self.duplicate()
    }
}

impl PartialEq for OwnedSymbol {
    fn eq(&self, other: &OwnedSymbol) -> (r: bool) {
        self.same(other)
    }
}

impl Eq for OwnedSymbol {

}

impl PartialEqSpecImpl for OwnedSymbol {
    open spec fn obeys_eq_spec() -> bool {
        true
    }

    open spec fn eq_spec(&self, other: &OwnedSymbol) -> bool {
        self@ == other@
    }
}

} // verus!
