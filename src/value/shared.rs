//! Shared handles: reference-counted cells that many owners alias, and an
//! identity key that compares handles by allocation, never by contents.

use vstd::prelude::*;
use std::any::Any;
use std::cell::RefCell;
use std::cmp::Ordering;
use std::hash::{Hash, Hasher};
use std::marker::PhantomData;
use std::rc::Rc;

verus! {

/// The storage of a shared allocation, with the type of its contents
/// erased, so that values may hold handles to storage that holds values.
/// Its contents are not modelled. As a value in specifications it stands
/// for the allocation itself: two handles own the same allocation exactly
/// when their cells are equal.
#[verifier::external_body]
#[derive(Debug)]
pub struct SharedCell {
    cell: RefCell<Box<dyn Any>>,
}

/// A reference-counted, mutably aliased cell. Clones are further owners of
/// the same storage; the storage is released with the last owner.
#[derive(Debug)]
pub struct Shared<T> {
    inner: Rc<SharedCell>,
    contents: PhantomData<T>,
}

/// Relies on `Rc::clone`: another owner of the same allocation, which holds
/// the same contents.
#[verifier::external_body]
pub(crate) fn share_rc<T>(rc: &Rc<T>) -> (r: Rc<T>)
    ensures
        r == *rc,
{
    Rc::clone(rc)
}

/// Relies on `Rc::ptr_eq`: whether the two owners own the same allocation.
#[verifier::external_body]
fn same_allocation(a: &Rc<SharedCell>, b: &Rc<SharedCell>) -> (r: bool)
    ensures
        r == (*a == *b),
{
    Rc::ptr_eq(a, b)
}

/// Relies on `Rc::as_ptr`: the address of the allocation, which stays the
/// same, and is no other live allocation's, while an owner lives.
#[verifier::external_body]
fn allocation_address(a: &Rc<SharedCell>) -> (r: usize) {
    Rc::as_ptr(a).addr()
}

/// Relies on `RefCell::new`: a cell holding the value.
#[verifier::external_body]
fn new_cell<T: 'static>(value: T) -> (r: SharedCell) {
    SharedCell { cell: RefCell::new(Box::new(value)) }
}

/// Relies on `RefCell::replace`: puts the value in the cell and returns the
/// one it held. It panics only while the cell is borrowed, and no borrow of
/// the cell outlives a call of this module. The cell of a `Shared<T>` always
/// holds a `T`, so the old contents are a `T`.
#[verifier::external_body]
fn replace_cell<T: 'static>(cell: &SharedCell, value: T) -> (r: T) {
    *cell.cell.replace(Box::new(value)).downcast::<T>().unwrap()
}

impl<T> Shared<T> {
    /// The allocation this handle owns.
    pub closed spec fn allocation(&self) -> SharedCell {
        *self.inner
    }
}

impl<T: 'static> Shared<T> {
    /// Allocates a cell holding `value`; the handle is its first owner.
    pub fn new(value: T) -> (r: Self) {
        Shared { inner: Rc::new(new_cell(value)), contents: PhantomData }
    }

    /// Stores `value` in the shared storage, where every owner sees it, and
    /// returns what it held.
    pub fn replace(&self, value: T) -> T {
        replace_cell(&self.inner, value)
    }
}

impl<T> Clone for Shared<T> {
    /// Another owner of the same storage.
    fn clone(&self) -> (r: Self)
        ensures
            r == *self,
            r.allocation() == self.allocation(),
    {
        Shared { inner: share_rc(&self.inner), contents: self.contents }
    }
}

/// The identity of a shared allocation, whatever the type it holds. Two keys
/// are equal exactly when they come from owners of the same allocation,
/// whatever it holds; they are ordered, and hashed, by the allocation's
/// address. A key is itself an owner, so the address is no other
/// allocation's while the key lives.
#[derive(Debug)]
pub struct SharedRef {
    cell: Rc<SharedCell>,
}

/// The identity key of the allocation `handle` owns.
pub closed spec fn shared_ref<T>(handle: Shared<T>) -> SharedRef {
    SharedRef { cell: handle.inner }
}

/// Two handles give equal identity keys exactly when they own the same
/// allocation, whatever they hold and whatever their types; clones of one
/// handle own its allocation (see `clone`).
pub proof fn lemma_identity<T, U>(a: Shared<T>, b: Shared<U>)
    ensures
        (shared_ref(a) == shared_ref(b)) <==> (a.allocation() == b.allocation()),
        shared_ref(a).allocation() == a.allocation(),
{
}

impl SharedRef {
    /// The allocation this key names.
    pub closed spec fn allocation(&self) -> SharedCell {
        *self.cell
    }

    /// The identity of the allocation `handle` owns.
    pub fn from<T>(handle: &Shared<T>) -> (r: SharedRef)
        ensures
            r == shared_ref(*handle),
            r.allocation() == handle.allocation(),
    {
        SharedRef { cell: share_rc(&handle.inner) }
    }

    /// Whether the two keys name the same allocation.
    pub fn same(&self, other: &SharedRef) -> (r: bool)
        ensures
            r == (self.allocation() == other.allocation()),
    {
        same_allocation(&self.cell, &other.cell)
    }
}

impl Clone for SharedRef {
    fn clone(&self) -> (r: Self)
        ensures
            r == *self,
    {
        SharedRef { cell: share_rc(&self.cell) }
    }
}

impl PartialEq for SharedRef {
    fn eq(&self, other: &SharedRef) -> (r: bool) {
        same_allocation(&self.cell, &other.cell)
    }
}

impl vstd::std_specs::cmp::PartialEqSpecImpl for SharedRef {
    open spec fn obeys_eq_spec() -> bool {
        true
    }

    open spec fn eq_spec(&self, other: &SharedRef) -> bool {
        self.allocation() == other.allocation()
    }
}

impl Eq for SharedRef {}

impl PartialOrd for SharedRef {
    /// Orders by the allocation's address, as `cmp` does.
    #[verifier::external_body]
    fn partial_cmp(&self, other: &SharedRef) -> Option<Ordering> {
        Some(self.cmp(other))
    }
}

impl Ord for SharedRef {
    /// Orders by the allocation's address.
    #[verifier::external_body]
    fn cmp(&self, other: &SharedRef) -> Ordering {
        allocation_address(&self.cell).cmp(&allocation_address(&other.cell))
    }
}

impl Hash for SharedRef {
    /// Hashes the allocation's address.
    #[verifier::external_body]
    fn hash<H: Hasher>(&self, state: &mut H) {
        allocation_address(&self.cell).hash(state)
    }
}

} // verus!
