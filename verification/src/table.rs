//! The table in which an interpreter interns the names of its symbols.
//!
//! Names are kept apart by scope: one list for the global namespace, and one
//! list for each namespace that a local symbol was made in. Asking for a name
//! that its scope already holds hands out the entry that is there; a new name
//! is added at the end of its list. Nothing is ever taken out.

use crate::value::owned::symbol::OwnedSymbol;
use crate::value::symbol::name::SymbolView;
use std::sync::Arc;
use vstd::prelude::*;

verus! {

/// The names that a list of handles holds, in order.
pub open spec fn names_of(handles: Seq<Arc<String>>) -> Seq<Seq<char>> {
    Seq::new(handles.len(), |i: int| handles[i]@)
}

/// Whether no name occurs twice in `names`.
pub open spec fn distinct(names: Seq<Seq<char>>) -> bool {
    forall|i: int, j: int| 0 <= i < j < names.len() ==> names[i] != names[j]
}

/// `names` with `name` interned: as it was if it holds `name`, else with
/// `name` added at the end.
pub open spec fn interned(names: Seq<Seq<char>>, name: Seq<char>) -> Seq<Seq<char>> {
    if names.contains(name) {
        names
    } else {
        names.push(name)
    }
}

/// Interning a name a second time changes nothing.
pub proof fn law_interning_idempotent(names: Seq<Seq<char>>, name: Seq<char>)
    ensures
        interned(interned(names, name), name) == interned(names, name),
{
    if !names.contains(name) {
        assert(names.push(name)[names.len() as int] == name);
    }
}

/// Interning only ever adds: the names that were there stay where they
/// were, and the list does not get shorter.
pub proof fn law_interning_grows(names: Seq<Seq<char>>, name: Seq<char>)
    ensures
        names.len() <= interned(names, name).len() <= names.len() + 1,
        interned(names, name).subrange(0, names.len() as int) == names,
        interned(names, name).contains(name),
{
    let after = interned(names, name);
    assert(after.subrange(0, names.len() as int) =~= names);
    if !names.contains(name) {
        assert(after[names.len() as int] == name);
    }
}

/// Interning keeps a list free of doubles.
pub proof fn law_interning_keeps_distinct(names: Seq<Seq<char>>, name: Seq<char>)
    requires
        distinct(names),
    ensures
        distinct(interned(names, name)),
{
}

/// The handle in `handles` whose name is `name`, if there is one.
fn find(handles: &Vec<Arc<String>>, name: &String) -> (r: Option<Arc<String>>)
    ensures
        r is Some == names_of(handles@).contains(name@),
        r is Some ==> r->Some_0@ == name@,
{
    let mut i: usize = 0;
    while i < handles.len()
        invariant
            i <= handles.len(),
            forall|j: int| 0 <= j < i ==> names_of(handles@)[j] != name@,
        decreases handles.len() - i,
    {
        if *handles[i] == *name {
            assert(names_of(handles@)[i as int] == name@);
            return Some(handles[i].clone());
        }
        i += 1;
    }
    None
}

/// The names interned in one namespace.
#[derive(Debug)]
struct Scope {
    namespace: OwnedSymbol,
    names: Vec<Arc<String>>,
}

/// The names that an interpreter has interned.
#[derive(Debug)]
pub struct SymbolTable {
    global_symbols: Vec<Arc<String>>,
    symbols: Vec<Scope>,
}

impl SymbolTable {
    #[verifier::type_invariant]
    spec fn well_formed(self) -> bool {
        &&& distinct(names_of(self.global_symbols@))
        &&& forall|i: int, j: int|
            0 <= i < j < self.symbols@.len() ==> self.symbols@[i].namespace@
                != self.symbols@[j].namespace@
        &&& forall|i: int|
            0 <= i < self.symbols@.len() ==> distinct(
                names_of(#[trigger] self.symbols@[i].names@),
            )
    }

    /// The names interned in the global namespace, oldest first.
    pub closed spec fn global_names(self) -> Seq<Seq<char>> {
        names_of(self.global_symbols@)
    }

    /// Whether a scope is kept for `namespace`.
    spec fn has_scope(self, namespace: SymbolView) -> bool {
        exists|i: int| 0 <= i < self.symbols@.len() && self.symbols@[i].namespace@ == namespace
    }

    /// The place of the scope kept for `namespace`.
    spec fn scope_index(self, namespace: SymbolView) -> int {
        choose|i: int| 0 <= i < self.symbols@.len() && self.symbols@[i].namespace@ == namespace
    }

    /// The names interned in `namespace`, oldest first; none if no local
    /// symbol was made there yet.
    pub closed spec fn local_names(self, namespace: SymbolView) -> Seq<Seq<char>> {
        if self.has_scope(namespace) {
            names_of(self.symbols@[self.scope_index(namespace)].names@)
        } else {
            Seq::empty()
        }
    }

    /// A table that holds no name.
    pub fn new() -> (r: SymbolTable)
        ensures
            r.global_names() == Seq::<Seq<char>>::empty(),
            forall|namespace: SymbolView|
                #[trigger] r.local_names(namespace) == Seq::<Seq<char>>::empty(),
    {
        let r = SymbolTable { global_symbols: Vec::new(), symbols: Vec::new() };
        assert(r.global_names() =~= Seq::<Seq<char>>::empty());
        r
    }

    /// The handle of `name` in the global namespace, if it is interned.
    pub fn find_global(&self, name: &String) -> (r: Option<Arc<String>>)
        ensures
            r is Some == self.global_names().contains(name@),
            r is Some ==> r->Some_0@ == name@,
    {
        find(&self.global_symbols, name)
    }

    /// Interns `name` in the global namespace and hands out its handle. No
    /// name is ever interned twice.
    pub fn intern_global(&mut self, name: String) -> (r: Arc<String>)
        ensures
            r@ == name@,
            final(self).global_names() == interned(old(self).global_names(), name@),
            distinct(final(self).global_names()),
            forall|namespace: SymbolView|
                #[trigger] final(self).local_names(namespace) == old(self).local_names(namespace),
    {
        proof {
            use_type_invariant(&*self);
        }
        match find(&self.global_symbols, &name) {
            Some(handle) => handle,
            None => {
                let ghost before = self.global_symbols@;
                let handle = Arc::new(name);
                let mut globals: Vec<Arc<String>> = Vec::new();
                core::mem::swap(&mut self.global_symbols, &mut globals);
                globals.push(handle.clone());
                proof {
                    assert(names_of(globals@) =~= names_of(before).push(name@));
                    assert(distinct(names_of(globals@)));
                }
                core::mem::swap(&mut self.global_symbols, &mut globals);
                proof {
                    assert forall|namespace: SymbolView|
                        #[trigger] self.local_names(namespace) == old(self).local_names(
                            namespace,
                        ) by {
                        assert(self.has_scope(namespace) == old(self).has_scope(namespace));
                        assert(self.scope_index(namespace) == old(self).scope_index(namespace));
                    }
                }
                handle
            },
        }
    }

    /// The place of the scope kept for `namespace`, if there is one.
    fn find_scope(&self, namespace: &OwnedSymbol) -> (r: Option<usize>)
        ensures
            r is Some == self.has_scope(namespace@),
            r is Some ==> r->Some_0 < self.symbols@.len() && self.symbols@[r->Some_0 as int].namespace@
                == namespace@,
    {
        let mut i: usize = 0;
        while i < self.symbols.len()
            invariant
                i <= self.symbols@.len(),
                forall|j: int| 0 <= j < i ==> self.symbols@[j].namespace@ != namespace@,
            decreases self.symbols@.len() - i,
        {
            if self.symbols[i].namespace.same(namespace) {
                return Some(i);
            }
            i += 1;
        }
        None
    }

    /// Interns `name` in the scope of `namespace`, which is made on its first
    /// use, and hands out the name's handle. No name is ever interned twice
    /// in one scope.
    pub fn intern_local(&mut self, namespace: &OwnedSymbol, name: String) -> (r: Arc<String>)
        ensures
            r@ == name@,
            final(self).global_names() == old(self).global_names(),
            final(self).local_names(namespace@) == interned(
                old(self).local_names(namespace@),
                name@,
            ),
            distinct(final(self).local_names(namespace@)),
            forall|other: SymbolView|
                other != namespace@ ==> #[trigger] final(self).local_names(other) == old(
                    self,
                ).local_names(other),
    {
        proof {
            use_type_invariant(&*self);
        }
        let ghost before = *self;
        match self.find_scope(namespace) {
            Some(at) => {
                proof {
                    before.lemma_names_at(at as int);
                }
                match find(&self.symbols[at].names, &name) {
                    Some(handle) => handle,
                    None => {
                        let handle = Arc::new(name);
                        let mut scopes: Vec<Scope> = Vec::new();
                        core::mem::swap(&mut self.symbols, &mut scopes);
                        scopes[at].names.push(handle.clone());
                        proof {
                            assert(scopes@.len() == before.symbols@.len());
                            assert forall|i: int| 0 <= i < scopes@.len() implies (
                            #[trigger] scopes@[i]).namespace@ == before.symbols@[i].namespace@ by {}
                            assert(names_of(scopes@[at as int].names@) =~= names_of(
                                before.symbols@[at as int].names@,
                            ).push(name@));
                            assert forall|i: int| 0 <= i < scopes@.len() implies distinct(
                                names_of(#[trigger] scopes@[i].names@),
                            ) by {
                                if i != at {
                                    assert(scopes@[i] == before.symbols@[i]);
                                }
                            }
                        }
                        core::mem::swap(&mut self.symbols, &mut scopes);
                        proof {
                            self.lemma_names_at(at as int);
                            assert forall|other: SymbolView| other != namespace@ implies (
                            #[trigger] self.local_names(other)) == before.local_names(other) by {
                                lemma_same_elsewhere(before, *self, at as int, other);
                            }
                        }
                        handle
                    },
                }
            },
            None => {
                let handle = Arc::new(name);
                let mut names: Vec<Arc<String>> = Vec::new();
                names.push(handle.clone());
                proof {
                    assert(names_of(names@) =~= Seq::<Seq<char>>::empty().push(name@));
                }
                let mut scopes: Vec<Scope> = Vec::new();
                core::mem::swap(&mut self.symbols, &mut scopes);
                scopes.push(Scope { namespace: namespace.duplicate(), names });
                core::mem::swap(&mut self.symbols, &mut scopes);
                proof {
                    let last = self.symbols@.len() - 1;
                    assert forall|i: int| 0 <= i < last implies (#[trigger] self.symbols@[i])
                        == before.symbols@[i] by {}
                    self.lemma_names_at(last);
                    assert(!before.has_scope(namespace@));
                    assert forall|other: SymbolView| other != namespace@ implies (
                    #[trigger] self.local_names(other)) == before.local_names(other) by {
                        lemma_same_elsewhere(before, *self, last, other);
                    }
                }
                handle
            },
        }
    }

    /// Whether no namespace is kept twice.
    spec fn scopes_distinct(self) -> bool {
        forall|i: int, j: int|
            0 <= i < j < self.symbols@.len() ==> self.symbols@[i].namespace@
                != self.symbols@[j].namespace@
    }

    /// The names of the namespace kept at `at` are those of the scope there.
    proof fn lemma_names_at(self, at: int)
        requires
            self.scopes_distinct(),
            0 <= at < self.symbols@.len(),
        ensures
            self.has_scope(self.symbols@[at].namespace@),
            self.scope_index(self.symbols@[at].namespace@) == at,
            self.local_names(self.symbols@[at].namespace@) == names_of(self.symbols@[at].names@),
    {
        let namespace = self.symbols@[at].namespace@;
        let found = self.scope_index(namespace);
        if found < at {
            assert(self.symbols@[found].namespace@ != self.symbols@[at].namespace@);
        } else if at < found {
            assert(self.symbols@[at].namespace@ != self.symbols@[found].namespace@);
        }
    }
}

/// A table that differs from another only in the scope at `at`, which it may
/// have added, holds the same names in every other namespace.
proof fn lemma_same_elsewhere(before: SymbolTable, after: SymbolTable, at: int, other: SymbolView)
    requires
        before.scopes_distinct(),
        after.scopes_distinct(),
        0 <= at < after.symbols@.len(),
        after.symbols@[at].namespace@ != other,
        before.symbols@.len() == after.symbols@.len() || (before.symbols@.len() == at
            && after.symbols@.len() == at + 1),
        forall|i: int|
            0 <= i < before.symbols@.len() && i != at ==> #[trigger] after.symbols@[i]
                == before.symbols@[i],
        at < before.symbols@.len() ==> before.symbols@[at].namespace@ != other,
    ensures
        after.local_names(other) == before.local_names(other),
{
    if before.has_scope(other) {
        let i = before.scope_index(other);
        assert(after.symbols@[i] == before.symbols@[i]);
        before.lemma_names_at(i);
        after.lemma_names_at(i);
    } else if after.has_scope(other) {
        let i = after.scope_index(other);
        assert(after.symbols@[i] == before.symbols@[i]);
        assert(before.symbols@[i].namespace@ == other);
    }
}

} // verus!
