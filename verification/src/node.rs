//! A singular unit of work.
//!
//! Nodes are individual units of work that are performed every so many
//! microseconds.  Work is split into small services that run on their own,
//! read from communication primitives and publish their outputs.

use vstd::prelude::*;

verus! {

/// A Node represents a singular process that performs some singular purpose.
///
/// Every node carries an identifier so that executors can tell nodes apart.
pub trait Node<ID>: Send {
    /// The identifier of this node, as its present state gives it.
    spec fn node_id(&self) -> ID;

    /// The node's update delay (in microseconds), as its present state
    /// gives it.
    spec fn update_delay(&self) -> u128;

    /// Return the identifier of this node.
    fn get_id(&self) -> (id: ID)
        ensures
            id == self.node_id();

    /// Return the node's update delay (in microseconds).
    fn get_update_delay_us(&self) -> (d: u128)
        ensures
            d == self.update_delay();

    /// Complete the setup work of the node.
    ///
    /// This is called when the executor starts, before nodes are updated.
    fn start(&mut self);

    /// The work performed by this node every "tick".
    fn update(&mut self);

    /// Clean up when the executor stops executing this node.
    fn shutdown(&mut self);
}

} // verus!
