//! The interpreter, which owns the symbol table, and the link by which a
//! symbol points back at the table it was interned in.
//!
//! The table sits behind a reader/writer lock in a shared allocation. The
//! interpreter holds the only strong handle to it; every symbol holds a weak
//! one. A symbol therefore stays readable after its interpreter is gone, but
//! can then no longer show which table it came from.

use crate::table::SymbolTable;
use crate::value::owned::symbol::OwnedSymbol;
use crate::value::symbol::name::SymbolError;
use core::cmp::Ordering;
use std::sync::Arc;
use std::sync::RwLock;
use std::sync::RwLockReadGuard;
use std::sync::RwLockWriteGuard;
use std::sync::Weak;
use vstd::prelude::*;

verus! {

/// The reader/writer lock of std. Nothing inside it is visible to proofs.
#[verifier::external_type_specification]
#[verifier::external_body]
#[verifier::reject_recursive_types(T)]
pub struct ExRwLock<T: ?Sized>(RwLock<T>);

/// The guard that std hands out for shared access to what a lock holds.
#[verifier::external_type_specification]
#[verifier::external_body]
#[verifier::reject_recursive_types(T)]
pub struct ExRwLockReadGuard<'a, T: ?Sized>(RwLockReadGuard<'a, T>);

/// The guard that std hands out for exclusive access to what a lock holds.
#[verifier::external_type_specification]
#[verifier::external_body]
#[verifier::reject_recursive_types(T)]
pub struct ExRwLockWriteGuard<'a, T: ?Sized + 'a>(RwLockWriteGuard<'a, T>);

/// `RwLock::new` of std: a new lock around `table`, which is what the lock
/// holds at first.
#[verifier::external_body]
fn lock_around(table: SymbolTable) -> (r: RwLock<SymbolTable>)
    ensures
        made_around(r) == table,
{
    RwLock::new(table)
}

/// `RwLock::read` of std: waits for shared access. `None` if the lock is
/// poisoned.
#[verifier::external_body]
fn lock_to_read<'a>(lock: &'a RwLock<SymbolTable>) -> (r: Option<RwLockReadGuard<'a, SymbolTable>>) {
    match lock.read() {
        Ok(guard) => Some(guard),
        Err(_) => None,
    }
}

/// `RwLock::write` of std: waits for exclusive access. `None` if the lock is
/// poisoned.
#[verifier::external_body]
fn lock_to_write<'a>(lock: &'a RwLock<SymbolTable>) -> (r: Option<RwLockWriteGuard<'a, SymbolTable>>) {
    match lock.write() {
        Ok(guard) => Some(guard),
        Err(_) => None,
    }
}

/// `Deref::deref` of std's read guard: the table behind the lock.
#[verifier::external_body]
fn guarded<'a, 'b>(guard: &'a RwLockReadGuard<'b, SymbolTable>) -> (r: &'a SymbolTable) {
    &**guard
}

/// `DerefMut::deref_mut` of std's write guard: the table behind the lock.
#[verifier::external_body]
fn guarded_mut<'a, 'b>(guard: &'a mut RwLockWriteGuard<'b, SymbolTable>) -> (r: &'a mut SymbolTable) {
    &mut **guard
}

/// A weak handle to the lock that holds an interpreter's symbol table.
/// The weak handle of std cannot be made known to the verifier, so proofs
/// see a link only through [`linked_lock`].
#[verifier::external_body]
#[derive(Debug)]
pub struct TableLink {
    table: Weak<RwLock<SymbolTable>>,
}

/// The lock that a link points at.
pub uninterp spec fn linked_lock(link: TableLink) -> RwLock<SymbolTable>;

/// `Arc::downgrade` of std: a weak handle to the allocation of `table`.
#[verifier::external_body]
fn link_to(table: &Arc<RwLock<SymbolTable>>) -> (r: TableLink)
    ensures
        linked_lock(r) == **table,
{
    TableLink { table: Arc::downgrade(table) }
}

/// `Weak::upgrade` of std: a strong handle to the lock that `link` points
/// at, or `None` once every strong handle to it is gone.
#[verifier::external_body]
fn upgrade(link: &TableLink) -> (r: Option<Arc<RwLock<SymbolTable>>>)
    ensures
        r matches Some(table) ==> *table == linked_lock(*link),
{
    link.table.upgrade()
}

/// `Arc::ptr_eq` of std: whether the two handles are to one allocation. A
/// lock lies in one allocation only: they are, exactly if they hold one lock.
#[verifier::external_body]
fn same_allocation(a: &Arc<RwLock<SymbolTable>>, b: &Arc<RwLock<SymbolTable>>) -> (r: bool)
    ensures
        r == (**a == **b),
{
    Arc::ptr_eq(a, b)
}

/// `Arc::as_ptr` of std: where the allocation of `table` lies, as a number.
#[verifier::external_body]
fn address(table: &Arc<RwLock<SymbolTable>>) -> (r: usize) {
    Arc::as_ptr(table) as usize
}

impl Clone for TableLink {
    /// `Weak::clone` of std: one more weak handle to the same lock.
    #[verifier::external_body]
    fn clone(&self) -> (r: TableLink)
        ensures
            linked_lock(r) == linked_lock(*self),
    {
        TableLink { table: Weak::clone(&self.table) }
    }
}

impl TableLink {
    /// Whether both links point at one table whose interpreter is still
    /// there. Never true of a link whose interpreter is gone, not even
    /// against itself.
    pub fn same_live_table(&self, other: &TableLink) -> (r: bool)
        ensures
            r ==> linked_lock(*self) == linked_lock(*other),
    {
        // Each link is asked for its table. Whether an interpreter is
        // still there is no function of the link, so nothing more is
        // promised here; `same_table` says the result for every pair of
        // answers.
        let mine = upgrade(self);
        let theirs = upgrade(other);
        TableLink::same_table(&mine, &theirs)
    }

    /// How this link stands to `other`: a link whose interpreter is gone
    /// before every link whose interpreter is there, and two of the latter
    /// by where their tables lie in memory. It serves to keep symbols of
    /// different interpreters apart in an order; which of two tables comes
    /// first says nothing about them.
    pub fn position(&self, other: &TableLink) -> (r: Ordering) {
        // Each link is asked where its table lies, which it can tell only
        // while its interpreter is there. Neither answer is a function of
        // the link: an interpreter may go at any time, and a table lies
        // where the allocator has put it. So nothing is promised of the
        // result here; `places_order` says what it is for every pair of
        // answers.
        let mine = self.whereabouts();
        let theirs = other.whereabouts();
        TableLink::places_order(mine, theirs)
    }

    /// Where the table of this link lies, as a number that is the same
    /// for two links exactly while both lead to one table; `None` once
    /// the interpreter of the link is gone. The number itself means
    /// nothing, and nothing is promised of it.
    fn whereabouts(&self) -> (r: Option<usize>) {
        match upgrade(self) {
            Some(table) => Some(address(&table)),
            None => None,
        }
    }
}

/// The central value of the interpreter. Any number of interpreters may
/// be made in one process; each has a symbol table of its own.
#[derive(Debug)]
pub struct Interpreter {
    symbol_table: Arc<RwLock<SymbolTable>>,
}

impl Interpreter {
    /// The lock that holds this interpreter's symbol table.
    pub closed spec fn lock(&self) -> RwLock<SymbolTable> {
        *self.symbol_table
    }

    /// A new interpreter, with an empty symbol table.
    pub fn new() -> (r: Interpreter)
        ensures
            r.first_table().global_names() == Seq::<Seq<char>>::empty(),
            forall|namespace: crate::value::symbol::name::SymbolView|
                #[trigger] r.first_table().local_names(namespace) == Seq::<Seq<char>>::empty(),
    {
        Interpreter { symbol_table: Arc::new(lock_around(SymbolTable::new())) }
    }

    /// The symbol table that this interpreter had when it was new: the one
    /// that its lock was made around.
    pub closed spec fn first_table(&self) -> SymbolTable {
        made_around(self.lock())
    }

    /// A link to this interpreter's symbol table.
    pub fn link(&self) -> (r: TableLink)
        ensures
            linked_lock(r) == self.lock(),
    {
        link_to(&self.symbol_table)
    }

    /// Interns `name` in the global namespace of this interpreter's table:
    /// looks it up under the read lock, and takes the write lock only if it
    /// is not there yet.
    pub fn intern_global(&mut self, name: String) -> (r: Result<Arc<String>, SymbolError>)
        ensures
            r matches Ok(handle) ==> handle@ == name@,
            r matches Err(e) ==> e == SymbolError::TableCorrupted,
            final(self).lock() == old(self).lock(),
    {
        let found = match lock_to_read(&self.symbol_table) {
            Some(guard) => guarded(&guard).find_global(&name),
            None => {
                return Err(SymbolError::TableCorrupted);
            },
        };
        match found {
            Some(handle) => Ok(handle),
            None => match lock_to_write(&self.symbol_table) {
                Some(mut guard) => Ok(guarded_mut(&mut guard).intern_global(name)),
                None => Err(SymbolError::TableCorrupted),
            },
        }
    }

    /// Interns `name` in the scope of `namespace` in this interpreter's
    /// table, under the write lock.
    pub fn intern_local(&mut self, namespace: &OwnedSymbol, name: String) -> (r: Result<
        Arc<String>,
        SymbolError,
    >)
        ensures
            r matches Ok(handle) ==> handle@ == name@,
            r matches Err(e) ==> e == SymbolError::TableCorrupted,
            final(self).lock() == old(self).lock(),
    {
        match lock_to_write(&self.symbol_table) {
            Some(mut guard) => Ok(guarded_mut(&mut guard).intern_local(namespace, name)),
            None => Err(SymbolError::TableCorrupted),
        }
    }
}

/// The symbol table that a lock was made around: what it held when it was
/// new.
pub uninterp spec fn made_around(lock: RwLock<SymbolTable>) -> SymbolTable;

impl TableLink {
    /// Whether two links lead to one table that is still there, given what
    /// each of them gave when it was asked for its table: a handle to the
    /// lock, or nothing once its interpreter was gone. They do exactly if
    /// both gave a handle and the two handles hold one lock.
    pub fn same_table(
        mine: &Option<Arc<RwLock<SymbolTable>>>,
        theirs: &Option<Arc<RwLock<SymbolTable>>>,
    ) -> (r: bool)
        ensures
            r == (mine is Some && theirs is Some && *mine->Some_0 == *theirs->Some_0),
    {
        match mine {
            Some(here) => match theirs {
                Some(there) => same_allocation(here, there),
                None => false,
            },
            None => false,
        }
    }

    /// How a link stands to another, given where the table of each lies, or
    /// that its interpreter is gone: a link whose interpreter is gone comes
    /// before every link whose interpreter is there, two such links stand
    /// equal, and two links whose interpreters are there go by the places of
    /// their tables.
    pub fn places_order(mine: Option<usize>, theirs: Option<usize>) -> (r: Ordering)
        ensures
            r == match mine {
                None => match theirs {
                    None => Ordering::Equal,
                    Some(_) => Ordering::Less,
                },
                Some(here) => match theirs {
                    None => Ordering::Greater,
                    Some(there) => crate::value::number::order_of(
                        crate::value::view::place(here),
                        crate::value::view::place(there),
                    ),
                },
            },
    {
        match mine {
            None => match theirs {
                None => Ordering::Equal,
                Some(_) => Ordering::Less,
            },
            Some(here) => match theirs {
                None => Ordering::Greater,
                Some(there) => {
                    if here < there {
                        Ordering::Less
                    } else if here == there {
                        Ordering::Equal
                    } else {
                        Ordering::Greater
                    }
                },
            },
        }
    }
}

} // verus!
