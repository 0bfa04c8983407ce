//! A table: an address-family-scoped namespace that chains live in.

use vstd::prelude::*;

use crate::Error;
use crate::ProtoFamily;
use crate::handle::Allocator;
use crate::wire::clone_bytes;
use crate::wire::name_ok;

verus! {

/// A firewall table, owning one native allocation.
#[derive(Debug)]
pub struct Table {
    pub(crate) id: u64,
    pub(crate) family: ProtoFamily,
    pub(crate) name: Vec<u8>,
}

/// The mathematical state of a [`Table`]. `id` is the identity of its native
/// allocation; cloning a table shares the identity, as cloning a shared
/// reference would.
#[verifier::ext_equal]
pub ghost struct TableView {
    pub id: u64,
    pub family: ProtoFamily,
    pub name: Seq<u8>,
}

impl TableView {
    /// A well-formed table carries a valid name.
    pub open spec fn wf(self) -> bool {
        name_ok(self.name)
    }
}

impl View for Table {
    type V = TableView;

    closed spec fn view(&self) -> TableView {
        TableView { id: self.id, family: self.family, name: self.name@ }
    }
}

impl Clone for Table {
    /// A clone shares the table's identity and state, keeping the underlying
    /// object alive for as long as any holder needs it.
    fn clone(&self) -> (r: Self)
        ensures
            r@ == self@,
    {
        Table { id: self.id, family: self.family, name: clone_bytes(&self.name) }
    }
}

impl Table {
    /// Creates a new table scoped to `family`, or fails with
    /// [`Error::AllocationFailed`] when the allocator has nothing left.
    pub fn new(family: ProtoFamily, name: Vec<u8>, heap: &mut Allocator) -> (r: Result<
        Table,
        Error,
    >)
        requires
            name_ok(name@),
        ensures
            match r {
                Ok(t) => {
                    &&& t@ == (TableView { id: old(heap)@.next_id, family, name: name@ })
                    &&& t@.wf()
                    &&& old(heap)@.can_alloc()
                    &&& final(heap)@ == old(heap)@.after_alloc()
                },
                Err(e) => {
                    &&& e == Error::AllocationFailed
                    &&& !old(heap)@.can_alloc()
                    &&& final(heap)@ == old(heap)@
                },
            },
    {
        match heap.allocate() {
            Some(id) => Ok(Table { id, family, name }),
            None => Err(Error::AllocationFailed),
        }
    }

    /// Returns the table's name.
    pub fn get_name(&self) -> (r: &Vec<u8>)
        ensures
            r@ == self@.name,
    {
        &self.name
    }

    /// Returns the address family the table is scoped to.
    pub fn get_family(&self) -> (r: ProtoFamily)
        ensures
            r == self@.family,
    {
        self.family
    }
}

} // verus!
