//! The simple executor.
//!
//! A single thread that keeps every node in a sorted vector, takes the node
//! whose update is due, updates it and puts it back with its next update
//! time.  Between node updates it busy-waits.

use vstd::prelude::*;
use vstd::std_specs::cmp::PartialEqSpec;

use crossbeam::channel::Receiver;
use quanta::{Clock, Instant};

use crate::channel::try_receive;
use crate::clock::{clock_now, micros_since, millis_since, new_clock};
use crate::executor::{next_interrupt_flag, Executor, ExecutorState};
use crate::node::Node;
use crate::scheduling::{
    advance, all_zero, count_at_least, entries, has_id, ids_of, insert_into, is_due,
    lemma_count_at_most_len, lemma_step_keeps_nodes, next_priority, node_ids_of, nodes_of,
    place_wrapper, placed, pop_due, priorities_of, remove_wrapper, reset_all, scheduled_ids,
    sorted_by_priority, stepped, stepped_by_delay, without_id, wrap_all, zeroed, NodeWrapper,
};

verus! {

/// Simple Executor
///
/// Stores nodes in a sorted vector where the node whose next update is the
/// closest to the current time is at the end.  Sending `true` over the
/// interrupt channel interrupts the executor.
#[verifier::reject_recursive_types(ID)]
pub struct SimpleExecutor<ID: PartialEq> {
    /// The sorted backing vector for the executor.
    backing: Vec<NodeWrapper<ID>>,
    /// The quanta high-precision clock.
    clock: Clock,
    /// The current state of the executor.
    state: ExecutorState,
    /// The instant the executor was started.
    start_instant: Instant,
    /// The interrupt receiver channel.
    interrupt: Receiver<bool>,
    /// Whether or not the executor has been interrupted.
    interrupted: bool,
}

impl<ID: PartialEq> SimpleExecutor<ID> {
    #[verifier::type_invariant]
    spec fn well_formed(self) -> bool {
        &&& sorted_by_priority(entries(self.backing@))
        &&& self.state == ExecutorState::Stopped ==> all_zero(entries(self.backing@))
    }

    /// The `(priority, id)` pairs of the nodes, earliest update last.
    pub closed spec fn schedule(&self) -> Seq<(u128, ID)> {
        entries(self.backing@)
    }

    /// The nodes, in the order of the schedule.
    pub closed spec fn nodes(&self) -> Seq<Box<dyn Node<ID>>> {
        nodes_of(self.backing@)
    }

    /// The instant the executor was last started.
    pub closed spec fn started_at(&self) -> Instant {
        self.start_instant
    }

    /// The state the executor is in.
    pub closed spec fn current_state(&self) -> ExecutorState {
        self.state
    }

    /// Whether the executor has been interrupted.
    pub closed spec fn interrupt_flag(&self) -> bool {
        self.interrupted
    }

    /// Create a new simple executor without any nodes.
    pub fn new(interrupt: Receiver<bool>) -> (e: Self)
        ensures
            e.schedule() == Seq::<(u128, ID)>::empty(),
            e.current_state() == ExecutorState::Stopped,
            !e.interrupt_flag(),
    {
        let clock = new_clock();
        let now = clock_now(&clock);
        SimpleExecutor {
            backing: Vec::new(),
            clock,
            start_instant: now,
            state: ExecutorState::Stopped,
            interrupt,
            interrupted: false,
        }
    }

    /// Create a new simple executor holding the given nodes, in order, each
    /// with priority zero.
    pub fn new_with(interrupt: Receiver<bool>, nodes: Vec<Box<dyn Node<ID>>>) -> (e: Self)
        ensures
            e.schedule().len() == nodes.len(),
            ids_of(e.schedule()) == node_ids_of(nodes@),
            all_zero(e.schedule()),
            e.current_state() == ExecutorState::Stopped,
            !e.interrupt_flag(),
    {
        let backing = wrap_all(nodes);
        let clock = new_clock();
        let now = clock_now(&clock);
        SimpleExecutor {
            backing,
            clock,
            start_instant: now,
            state: ExecutorState::Stopped,
            interrupt,
            interrupted: false,
        }
    }

    /// The number of nodes held by the executor.
    pub fn node_count(&self) -> (n: usize)
        ensures
            n == self.schedule().len(),
    {
        self.backing.len()
    }

    /// The priorities of the nodes, earliest update last.
    pub fn priorities(&self) -> (p: Vec<u128>)
        ensures
            p@.len() == self.schedule().len(),
            forall|i: int| 0 <= i < p@.len() ==> p@[i] == self.schedule()[i].0,
    {
        priorities_of(&self.backing)
    }

    /// The identifier of the node at position `i`.
    pub fn id_at(&self, i: usize) -> (id: &ID)
        requires
            i < self.schedule().len(),
        ensures
            *id == self.schedule()[i as int].1,
    {
        &self.backing[i].id
    }

    /// The node at position `i`.
    pub fn node_at(&self, i: usize) -> (n: &Box<dyn Node<ID>>)
        requires
            i < self.schedule().len(),
        ensures
            *n == self.nodes()[i as int],
    {
        &self.backing[i].node
    }

    /// The state the executor is in.
    pub fn state(&self) -> (s: ExecutorState)
        ensures
            s == self.current_state(),
    {
        self.state
    }

    /// Whether the executor has been interrupted.
    pub fn interrupted(&self) -> (b: bool)
        ensures
            b == self.interrupt_flag(),
    {
        self.interrupted
    }

    /// The instant at which the executor was last started.
    pub fn start_instant(&self) -> (t: Instant)
        ensures
            t == self.started_at(),
    {
        self.start_instant
    }

    /// The number of whole microseconds since the executor was started.
    pub fn elapsed_us(&self) -> u128 {
        micros_since(clock_now(&self.clock), self.start_instant)
    }

    /// Add a node that reported the identifier `id`, replacing the first
    /// node with that identifier.  A stopped executor appends the node with
    /// priority zero, a started one places it at the current time, and a
    /// running one takes no new node.
    pub fn add_identified(&mut self, id: ID, node: Box<dyn Node<ID>>)
        ensures
            sorted_by_priority(final(self).schedule()),
            final(self).current_state() == old(self).current_state(),
            final(self).interrupt_flag() == old(self).interrupt_flag(),
            ID::obeys_eq_spec() ==> exists|now_us: u128|
                final(self).schedule() == placed(old(self).schedule(), old(self).current_state(), id, now_us),
    {
        let wrapper = NodeWrapper::new(0, id, node);
        let now = if self.state == ExecutorState::Started {
            self.elapsed_us()
        } else {
            0
        };
        let ghost gid = wrapper.id;
        self.place_node(wrapper, now);
        assert(ID::obeys_eq_spec() ==> self.schedule() == placed(old(self).schedule(), old(self).current_state(), gid, now));
    }

    /// Place a wrapped node into the executor at time `now_us`, replacing
    /// the first node with the same identifier.
    ///
    /// A stopped executor appends the node with priority zero, a started
    /// one inserts it at its ordered position with priority `now_us`, and
    /// a running one takes no new node.
    pub fn place_node(&mut self, wrapper: NodeWrapper<ID>, now_us: u128)
        ensures
            sorted_by_priority(final(self).schedule()),
            final(self).current_state() == old(self).current_state(),
            final(self).interrupt_flag() == old(self).interrupt_flag(),
            ID::obeys_eq_spec() ==> final(self).schedule() == placed(
                old(self).schedule(),
                old(self).current_state(),
                wrapper.id,
                now_us,
            ),
    {
        proof {
            use_type_invariant(&*self);
        }
        let mut backing = self.take_backing();
        place_wrapper(&mut backing, self.state, wrapper, now_us);
        self.backing = backing;
    }

    /// Remove the first node whose identifier equals `id`, unless the
    /// executor is running.
    pub fn take_node(&mut self, id: &ID) -> (r: Option<Box<dyn Node<ID>>>)
        ensures
            sorted_by_priority(final(self).schedule()),
            final(self).current_state() == old(self).current_state(),
            final(self).interrupt_flag() == old(self).interrupt_flag(),
            old(self).current_state() == ExecutorState::Running ==> r is None && final(self).schedule() == old(self).schedule(),
            ID::obeys_eq_spec() && old(self).current_state() != ExecutorState::Running ==> {
                &&& (r is Some <==> has_id(old(self).schedule(), *id))
                &&& final(self).schedule() == without_id(old(self).schedule(), *id)
            },
    {
        proof {
            use_type_invariant(&*self);
        }
        if self.state != ExecutorState::Running {
            let mut backing = self.take_backing();
            let r = remove_wrapper(&mut backing, id);
            self.backing = backing;
            match r {
                Some(w) => Some(w.destroy()),
                None => None,
            }
        } else {
            None
        }
    }

    /// One scheduling step at time `now_us`: when the executor is running
    /// and its earliest node is due, update that node and place it back
    /// with its next update time (its priority plus its update delay,
    /// saturating).
    pub fn run_due(&mut self, now_us: u128)
        ensures
            sorted_by_priority(final(self).schedule()),
            final(self).current_state() == old(self).current_state(),
            final(self).interrupt_flag() == old(self).interrupt_flag(),
            old(self).current_state() == ExecutorState::Running && is_due(old(self).schedule(), now_us)
                ==> stepped_by_delay(old(self).schedule(), final(self).schedule(), final(self).nodes()),
            !(old(self).current_state() == ExecutorState::Running && is_due(old(self).schedule(), now_us))
                ==> final(self).schedule() == old(self).schedule(),
    {
        proof {
            use_type_invariant(&*self);
        }
        if self.state == ExecutorState::Running {
            let ghost s = entries(self.backing@);
            let mut backing = self.take_backing();
            match pop_due(&mut backing, now_us) {
                Some(w) => {
                    let w = advance(w);
                    let ghost before = backing@;
                    insert_into(&mut backing, w);
                    assert(entries(backing@) == stepped(s, w.priority));
                    proof {
                        let c = count_at_least(entries(before), w.priority) as int;
                        lemma_count_at_most_len(entries(before), w.priority);
                        assert(nodes_of(backing@)[c] == w.node);
                        assert(next_priority(s, nodes_of(backing@), w.priority));
                    }
                },
                None => {},
            }
            self.backing = backing;
        }
    }

    /// Take the backing vector out, leaving an empty one in its place.
    fn take_backing(&mut self) -> (v: Vec<NodeWrapper<ID>>)
        ensures
            v@ == old(self).backing@,
            final(self).backing@ == Seq::<NodeWrapper<ID>>::empty(),
            final(self).state == old(self).state,
            final(self).interrupted == old(self).interrupted,
    {
        let mut v: Vec<NodeWrapper<ID>> = Vec::new();
        std::mem::swap(&mut v, &mut self.backing);
        v
    }

    /// Reset every priority to zero and start every node.
    fn start_nodes(&mut self)
        ensures
            final(self).schedule() == zeroed(old(self).schedule()),
            final(self).current_state() == old(self).current_state(),
            final(self).interrupt_flag() == old(self).interrupt_flag(),
    {
        let backing = self.take_backing();
        let backing = reset_all(backing, true);
        self.backing = backing;
    }

    /// Reset every priority to zero and shut every node down.
    fn shutdown_nodes(&mut self)
        ensures
            final(self).schedule() == zeroed(old(self).schedule()),
            final(self).current_state() == old(self).current_state(),
            final(self).interrupt_flag() == old(self).interrupt_flag(),
    {
        let backing = self.take_backing();
        let backing = reset_all(backing, false);
        self.backing = backing;
    }
}

impl<ID: PartialEq> Executor<ID> for SimpleExecutor<ID> {
    /// Context does not apply to simple executors.
    type Context = ();

    /// Reset every priority to zero, start every node, clear the interrupt
    /// flag, enter the started state and record the start instant.
    fn start(&mut self)
        ensures
            final(self).schedule() == zeroed(old(self).schedule()),
            final(self).current_state() == ExecutorState::Started,
            !final(self).interrupt_flag(),
    {
        self.start_nodes();
        self.interrupted = false;
        self.state = ExecutorState::Started;
        self.start_instant = clock_now(&self.clock);
    }

    /// Start the executor and mark it as running.
    fn begin_update(&mut self)
        ensures
            final(self).schedule() == zeroed(old(self).schedule()),
            final(self).current_state() == ExecutorState::Running,
            !final(self).interrupt_flag(),
    {
        self.start();
        self.state = ExecutorState::Running;
    }

    fn elapsed_ms(&self) -> u128 {
        millis_since(clock_now(&self.clock), self.start_instant)
    }

    /// Read the clock and run the node that is due, if any.
    fn update_once(&mut self)
        ensures
            sorted_by_priority(final(self).schedule()),
            final(self).current_state() == old(self).current_state(),
            final(self).interrupt_flag() == old(self).interrupt_flag(),
            old(self).current_state() != ExecutorState::Running
                ==> final(self).schedule() == old(self).schedule(),
            final(self).schedule().len() == old(self).schedule().len(),
            scheduled_ids(final(self).schedule()) == scheduled_ids(old(self).schedule()),
            old(self).current_state() == ExecutorState::Running ==> (final(self).schedule() == old(self).schedule()
                || (old(self).schedule().len() > 0
                    && stepped_by_delay(old(self).schedule(), final(self).schedule(), final(self).nodes()))),
    {
        let now = self.elapsed_us();
        self.run_due(now);
        proof {
            if self.state == ExecutorState::Running && is_due(old(self).schedule(), now) {
                let next = choose|next: u128| #[trigger] stepped(old(self).schedule(), next) == self.schedule()
                    && next_priority(old(self).schedule(), self.nodes(), next);
                lemma_step_keeps_nodes(old(self).schedule(), next);
            }
        }
    }

    /// Reset every priority to zero, shut every node down and stop.
    fn finish_update(&mut self)
        ensures
            final(self).schedule() == zeroed(old(self).schedule()),
            final(self).current_state() == ExecutorState::Stopped,
            final(self).interrupt_flag() == old(self).interrupt_flag(),
    {
        self.shutdown_nodes();
        self.state = ExecutorState::Stopped;
    }

    /// Poll the interrupt channel: a received value becomes the interrupt
    /// flag, which is returned.
    fn check_interrupt(&mut self) -> (r: bool)
        ensures
            r == final(self).interrupt_flag(),
            final(self).schedule() == old(self).schedule(),
            final(self).current_state() == old(self).current_state(),
    {
        proof {
            use_type_invariant(&*self);
        }
        let received = try_receive(&self.interrupt);
        self.interrupted = next_interrupt_flag(self.interrupted, received);
        self.interrupted
    }

    /// Add a node, replacing the first node with the same identifier.
    ///
    /// A stopped executor appends the node with priority zero, a started
    /// one places it at the current time, and a running one takes no new
    /// node.
    fn add_node(&mut self, node: Box<dyn Node<ID>>)
        ensures
            sorted_by_priority(final(self).schedule()),
            final(self).current_state() == old(self).current_state(),
            final(self).interrupt_flag() == old(self).interrupt_flag(),
            ID::obeys_eq_spec() ==> exists|now_us: u128|
                final(self).schedule() == placed(old(self).schedule(), old(self).current_state(), node.node_id(), now_us),
    {
        let id = node.get_id();
        self.add_identified(id, node);
    }

    /// Remove the first node with the given identifier, unless the executor
    /// is running.
    fn remove_node(&mut self, id: &ID) -> (r: Option<Box<dyn Node<ID>>>)
        ensures
            sorted_by_priority(final(self).schedule()),
            final(self).current_state() == old(self).current_state(),
            old(self).current_state() == ExecutorState::Running ==> r is None && final(self).schedule() == old(self).schedule(),
            ID::obeys_eq_spec() && old(self).current_state() != ExecutorState::Running ==> {
                &&& (r is Some <==> has_id(old(self).schedule(), *id))
                &&& final(self).schedule() == without_id(old(self).schedule(), *id)
            },
    {
        self.take_node(id)
    }
}

} // verus!
