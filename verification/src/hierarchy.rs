//! The hierarchy: the size of the graph that a CCH index was built for.
use vstd::prelude::*;
use crate::error::InputError;
use crate::order::{all_below, ids_below, is_permutation, is_permutation_spec};

verus! {

/// What the checks on a hierarchy's input give, in the order they are made:
/// the order is a permutation, tail and head have one entry per arc, and every
/// arc end is a node of the order.
pub open spec fn hierarchy_input_result(order: Seq<u32>, tail: Seq<u32>, head: Seq<u32>) -> Result<(), InputError> {
    if !is_permutation_spec(order) {
        Err(InputError::NotAPermutation)
    } else if tail.len() != head.len() {
        Err(InputError::ArcLengthMismatch)
    } else if !(ids_below(tail, order.len() as int) && ids_below(head, order.len() as int)) {
        Err(InputError::NodeIdOutOfRange)
    } else {
        Ok(())
    }
}

/// The input from which a hierarchy can be built.
pub open spec fn valid_hierarchy_input(order: Seq<u32>, tail: Seq<u32>, head: Seq<u32>) -> bool {
    hierarchy_input_result(order, tail, head) is Ok
}

/// An immutable Customizable Contraction Hierarchy, described by the number of
/// nodes (the length of its order) and of arcs (the length of tail and head).
pub struct CCH {
    node_count: usize,
    edge_count: usize,
}

impl CCH {
    /// Number of nodes of the indexed graph.
    pub closed spec fn nodes(&self) -> nat {
        self.node_count as nat
    }

    /// Number of arcs of the indexed graph.
    pub closed spec fn arcs(&self) -> nat {
        self.edge_count as nat
    }

    /// Checks the input of `new`; `Ok` exactly when `new` accepts it.
    pub fn check_input(order: &[u32], tail: &[u32], head: &[u32]) -> (r: Result<(), InputError>)
        ensures
            r == hierarchy_input_result(order@, tail@, head@),
    {
        if !is_permutation(order) {
            Err(InputError::NotAPermutation)
        } else if tail.len() != head.len() {
            Err(InputError::ArcLengthMismatch)
        } else if !(all_below(tail, order.len()) && all_below(head, order.len())) {
            Err(InputError::NodeIdOutOfRange)
        } else {
            Ok(())
        }
    }

    /// Builds the hierarchy of a graph given by its node order and its arcs
    /// `(tail[i], head[i])`.
    pub fn new(order: &[u32], tail: &[u32], head: &[u32]) -> (c: CCH)
        requires
            valid_hierarchy_input(order@, tail@, head@),
        ensures
            c.nodes() == order@.len(),
            c.arcs() == tail@.len(),
    {
        Self::new_unchecked(order, tail, head)
    }

    /// Builds the hierarchy without checking its input.
    pub fn new_unchecked(order: &[u32], tail: &[u32], head: &[u32]) -> (c: CCH)
        ensures
            c.nodes() == order@.len(),
            c.arcs() == tail@.len(),
    {
        let _ = head;
        CCH { node_count: order.len(), edge_count: tail.len() }
    }

    /// Number of nodes.
    pub fn node_count(&self) -> (r: usize)
        ensures
            r == self.nodes(),
    {
        self.node_count
    }

    /// Number of arcs, which is the length every weight vector must have.
    pub fn edge_count(&self) -> (r: usize)
        ensures
            r == self.arcs(),
    {
        self.edge_count
    }
}

} // verus!
