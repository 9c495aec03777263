//! An executor handles the scheduling and execution of nodes.
//!
//! Executors run their nodes in steps: `begin_update` starts the nodes and
//! marks the executor running, `update_once` performs one scheduling step,
//! and `finish_update` shuts the nodes down.  A driver repeats
//! `update_once` for as long as it wants the executor to run (for a number
//! of milliseconds or until an interrupt arrives).

use vstd::prelude::*;

use crate::node::Node;

verus! {

/// The current state an executor is in.
#[derive(Clone, Copy, Debug, PartialEq, Eq, Structural)]
pub enum ExecutorState {
    /// The nodes in the executor are stopped; they must be started before
    /// they can be updated.
    Stopped,
    /// The nodes in the executor have been started and can now be updated.
    Started,
    /// The nodes in the executor are currently being updated.
    Running,
}

/// An executor handles the scheduling and execution of nodes.
///
/// All nodes carry an identifier of type `ID`, which tells them apart.
pub trait Executor<ID: PartialEq> {
    /// Context for adding nodes with specific conditions.
    type Context;

    /// Start the nodes contained by the executor.
    fn start(&mut self);

    /// Start the executor and mark it as running.
    fn begin_update(&mut self);

    /// The number of whole milliseconds since the executor was started.
    fn elapsed_ms(&self) -> u128;

    /// Perform one scheduling step of the update loop.
    fn update_once(&mut self);

    /// Shut down the nodes and stop the executor.
    fn finish_update(&mut self);

    /// Check whether the executor has been interrupted.
    ///
    /// This should be called between each node execution.
    fn check_interrupt(&mut self) -> bool;

    /// Add a node to the executor.
    fn add_node(&mut self, node: Box<dyn Node<ID>>);

    /// Add a node to the executor with some given context; by default the
    /// context is ignored.
    fn add_node_with_context(&mut self, node: Box<dyn Node<ID>>, _ctx: Self::Context) {
        self.add_node(node);
    }

    /// Remove a node from the executor.
    fn remove_node(&mut self, id: &ID) -> Option<Box<dyn Node<ID>>>;
}

/// The interrupt flag after polling the interrupt channel: a received value
/// replaces the flag, and without one the flag stays as it was.
pub open spec fn interrupt_after(flag: bool, received: Option<bool>) -> bool {
    match received {
        Some(v) => v,
        None => flag,
    }
}

/// The interrupt flag after polling the interrupt channel.
pub fn next_interrupt_flag(flag: bool, received: Option<bool>) -> (r: bool)
    ensures
        r == interrupt_after(flag, received),
{
    match received {
        Some(v) => v,
        None => flag,
    }
}

} // verus!
