//! The structures that the procedures take and return, and how each is laid
//! out on the wire.

use vstd::prelude::*;

pub mod port_mapper;
pub mod rpcbind;

verus! {

/// A singly linked list as it stands on the wire: a value, and the next node
/// where there is one.
pub trait CreateList: Sized {
    /// What a node holds.
    type Value;

    /// Whether every node of the chain has at most one next node.
    spec fn well_formed(&self) -> bool;

    /// The values of the chain, the first node's first.
    spec fn elements(&self) -> Seq<Self::Value>;

    /// Chains `elements` in their order. Without elements there is no chain.
    fn create_list(elements: Vec<Self::Value>) -> (r: Option<Self>)
        ensures
            elements@.len() == 0 <==> r is None,
            r matches Some(list) ==> list.well_formed() && list.elements() == elements@,
    ;
}

} // verus!
