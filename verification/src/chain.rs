//! A chain: an ordered attachment point inside a table, the parent of rules.

use vstd::prelude::*;

use crate::Error;
use crate::handle::Allocator;
use crate::table::Table;
use crate::table::TableView;
use crate::wire::clone_bytes;
use crate::wire::name_ok;

verus! {

/// A firewall chain. It owns one native allocation and holds a shared
/// reference to its table, keeping the table alive for at least as long as
/// the chain exists.
#[derive(Debug)]
pub struct Chain {
    pub(crate) id: u64,
    pub(crate) table: Table,
    pub(crate) name: Vec<u8>,
    pub(crate) attach: Option<(u32, i32)>,
    pub(crate) policy: Option<u32>,
}

/// The mathematical state of a [`Chain`]. `id` is the identity of its native
/// allocation: rule equality goes by it. `attach` pairs a netfilter attachment
/// point with a priority.
#[verifier::ext_equal]
pub ghost struct ChainView {
    pub id: u64,
    pub table: TableView,
    pub name: Seq<u8>,
    pub attach: Option<(u32, i32)>,
    pub policy: Option<u32>,
}

impl ChainView {
    /// A well-formed chain carries a valid name and a well-formed table.
    pub open spec fn wf(self) -> bool {
        self.table.wf() && name_ok(self.name)
    }
}

impl View for Chain {
    type V = ChainView;

    closed spec fn view(&self) -> ChainView {
        ChainView {
            id: self.id,
            table: self.table@,
            name: self.name@,
            attach: self.attach,
            policy: self.policy,
        }
    }
}

impl Clone for Chain {
    /// A clone shares the chain's identity and state, keeping the underlying
    /// object alive for as long as any holder needs it.
    fn clone(&self) -> (r: Self)
        ensures
            r@ == self@,
    {
        Chain {
            id: self.id,
            table: self.table.clone(),
            name: clone_bytes(&self.name),
            attach: self.attach,
            policy: self.policy,
        }
    }
}

impl Chain {
    /// Creates a new chain named `name` in `table`, with no attachment or policy
    /// metadata, or fails with [`Error::AllocationFailed`] when the allocator
    /// has nothing left. The chain takes a shared reference to the table.
    pub fn new(table: &Table, name: Vec<u8>, heap: &mut Allocator) -> (r: Result<Chain, Error>)
        requires
            table@.wf(),
            name_ok(name@),
        ensures
            match r {
                Ok(c) => {
                    &&& c@ == (ChainView {
                        id: old(heap)@.next_id,
                        table: table@,
                        name: name@,
                        attach: None,
                        policy: None,
                    })
                    &&& c@.wf()
                    &&& old(heap)@.can_alloc()
                    &&& final(heap)@ == old(heap)@.after_alloc()
                },
                Err(e) => {
                    &&& e == Error::AllocationFailed
                    &&& !old(heap)@.can_alloc()
                    &&& final(heap)@ == old(heap)@
                },
            },
    {
        match heap.allocate() {
            Some(id) => Ok(
                Chain { id, table: table.clone(), name, attach: None, policy: None },
            ),
            None => Err(Error::AllocationFailed),
        }
    }

    /// The identity of the chain's native allocation.
    pub(crate) fn id(&self) -> (r: u64)
        ensures
            r == self@.id,
    {
        self.id
    }

    /// Returns the chain's name.
    pub fn get_name(&self) -> (r: &Vec<u8>)
        ensures
            r@ == self@.name,
    {
        &self.name
    }

    /// Returns a shared reference to the table the chain lives in.
    pub fn get_table(&self) -> (r: &Table)
        ensures
            r@ == self@.table,
    {
        &self.table
    }

    /// Sets the attachment point and priority of the chain. Only that
    /// metadata changes; name and table stay as they are.
    pub fn set_attach_point(&mut self, attach_num: u32, priority: i32)
        ensures
            final(self)@ == (ChainView { attach: Some((attach_num, priority)), ..old(self)@ }),
    {
        self.attach = Some((attach_num, priority));
    }

    /// Sets the default policy verdict of the chain. Only the policy metadata
    /// changes; name and table stay as they are.
    pub fn set_policy(&mut self, policy: u32)
        ensures
            final(self)@ == (ChainView { policy: Some(policy), ..old(self)@ }),
    {
        self.policy = Some(policy);
    }
}

} // verus!
