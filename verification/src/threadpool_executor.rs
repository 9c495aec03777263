//! The thread-pool executor.
//!
//! The executor's own thread schedules the nodes; each due node is handed
//! to a pool of worker threads, updated there, and sent back over a channel
//! to be placed back into the schedule.

use vstd::prelude::*;
use vstd::std_specs::cmp::PartialEqSpec;

use crossbeam::channel::{Receiver, Sender};
use quanta::{Clock, Instant};
use threadpool::ThreadPool;

use crate::channel::{send_message, try_receive, unbounded_channel};
use crate::clock::{clock_now, micros_since, millis_since, new_clock};
use crate::executor::{next_interrupt_flag, Executor, ExecutorState};
use crate::node::Node;
use crate::scheduling::{
    advance, all_zero, entries, has_id, ids_of, insert_into, insert_ordered, is_due, node_ids_of,
    nodes_of, place_wrapper, placed, pop_due, priorities_of, remove_wrapper, reset_all,
    sorted_by_priority, without_id, wrap_all, zeroed, NodeWrapper,
};

verus! {

#[verifier::external_type_specification]
#[verifier::external_body]
pub struct ExThreadPool(threadpool::ThreadPool);

/// `after` is `mid`, or `mid` with one node that came back from the pool
/// placed at its ordered position.
pub open spec fn took_back<ID>(mid: Seq<(u128, ID)>, after: Seq<(u128, ID)>) -> bool {
    after == mid || exists|e: (u128, ID)| after == #[trigger] insert_ordered(mid, e)
}

/// One step of a running thread-pool executor: either no node was due and
/// none was handed to the pool, or the earliest node (the last entry) left
/// the schedule and was handed to the pool; then at most one node that came
/// back from the pool was placed back.
pub open spec fn pool_step<ID>(
    before: Seq<(u128, ID)>,
    handed_before: Seq<(u128, ID)>,
    after: Seq<(u128, ID)>,
    handed_after: Seq<(u128, ID)>,
) -> bool {
    ||| (handed_after == handed_before && took_back(before, after))
    ||| (before.len() > 0 && handed_after == handed_before.push(before.last())
        && took_back(before.drop_last(), after))
}

/// The number of worker threads for an executor given `threads` threads in
/// total: one thread schedules, the rest work, and there is at least one
/// worker.
pub open spec fn worker_count(threads: usize) -> usize {
    if threads <= 2 { 1 } else { (threads - 1) as usize }
}

/// The number of worker threads for an executor given `threads` threads.
pub fn pool_size(threads: usize) -> (n: usize)
    ensures
        n == worker_count(threads),
        n >= 1,
{
    let workers = threads.saturating_sub(1);
    if workers < 1 {
        1
    } else {
        workers
    }
}

/// Calls `threadpool::ThreadPool::new`, which spawns `workers` worker
/// threads.  The pool panics when asked for no worker, which `requires`
/// rules out.
#[verifier::external_body]
fn new_pool(workers: usize) -> ThreadPool
    requires
        workers > 0,
{
    ThreadPool::new(workers)
}

/// Calls `threadpool::ThreadPool::execute` with a job that advances the
/// node and sends it back over `done`.
#[verifier::external_body]
fn execute_on_pool<ID: Send + 'static>(pool: &ThreadPool, w: NodeWrapper<ID>, done: Sender<NodeWrapper<ID>>) {
    pool.execute(move || advance_and_return(w, done));
}

/// Calls `crossbeam::channel::Sender::clone`.
#[verifier::external_body]
fn clone_sender<T>(tx: &Sender<T>) -> Sender<T> {
    tx.clone()
}

/// The work done on a worker thread: update the node, move its priority
/// forward by its update delay and send it back to the scheduler.  A node
/// sent to a scheduler that stopped listening is dropped.
pub fn advance_and_return<ID>(w: NodeWrapper<ID>, done: Sender<NodeWrapper<ID>>) {
    let w = advance(w);
    let _ = send_message(&done, w);
}

/// ThreadPool Executor
///
/// Stores nodes in a sorted vector and sends due nodes to be updated on a
/// thread pool.  Sending `true` over the interrupt channel interrupts the
/// executor.  The scheduling thread counts as one of the executor's
/// threads, so the pool has one worker fewer (and at least one).
#[verifier::reject_recursive_types(ID)]
pub struct ThreadPoolExecutor<ID: PartialEq> {
    /// The sorted backing vector for the executor.
    backing: Vec<NodeWrapper<ID>>,
    /// The quanta high-precision clock.
    clock: Clock,
    /// The pool that updates nodes.
    pool: ThreadPool,
    /// The current state of the executor.
    state: ExecutorState,
    /// The instant the executor was started.
    start_instant: Instant,
    /// The interrupt receiver channel.
    interrupt: Receiver<bool>,
    /// Whether or not the executor has been interrupted.
    interrupted: bool,
    /// While running: the channel over which workers return updated nodes.
    finished: Option<(Sender<NodeWrapper<ID>>, Receiver<NodeWrapper<ID>>)>,
    /// The number of worker threads of the pool.
    workers: usize,
    /// The `(priority, id)` pairs of the nodes handed to the pool, in order.
    dispatched: Ghost<Seq<(u128, ID)>>,
}

impl<ID: PartialEq> ThreadPoolExecutor<ID> {
    #[verifier::type_invariant]
    spec fn well_formed(self) -> bool {
        &&& sorted_by_priority(entries(self.backing@))
        &&& self.state == ExecutorState::Stopped ==> all_zero(entries(self.backing@))
        &&& self.state == ExecutorState::Running ==> self.finished is Some
    }

    /// The `(priority, id)` pairs of the scheduled nodes, earliest update
    /// last.  Nodes that are being updated on the pool are not scheduled.
    pub closed spec fn schedule(&self) -> Seq<(u128, ID)> {
        entries(self.backing@)
    }

    /// The `(priority, id)` pairs of the nodes handed to the pool to be
    /// updated, in the order they were handed over.
    pub closed spec fn handed_to_pool(&self) -> Seq<(u128, ID)> {
        self.dispatched@
    }

    /// The scheduled nodes, in the order of the schedule.
    pub closed spec fn nodes(&self) -> Seq<Box<dyn Node<ID>>> {
        nodes_of(self.backing@)
    }

    /// The instant the executor was last started.
    pub closed spec fn started_at(&self) -> Instant {
        self.start_instant
    }

    /// The state the executor is in.
    pub closed spec fn current_state(&self) -> ExecutorState {
        self.state
    }

    /// Whether the executor has been interrupted.
    pub closed spec fn interrupt_flag(&self) -> bool {
        self.interrupted
    }

    /// The number of worker threads of the pool.
    pub closed spec fn worker_threads(&self) -> usize {
        self.workers
    }

    /// Create a new thread-pool executor without any nodes, using `threads`
    /// threads in total.
    pub fn new(threads: usize, interrupt: Receiver<bool>) -> (e: Self)
        ensures
            e.schedule() == Seq::<(u128, ID)>::empty(),
            e.current_state() == ExecutorState::Stopped,
            !e.interrupt_flag(),
            e.worker_threads() == worker_count(threads),
    {
        Self::new_with(threads, interrupt, Vec::new())
    }

    /// Create a new thread-pool executor holding the given nodes, in order,
    /// each with priority zero.
    pub fn new_with(threads: usize, interrupt: Receiver<bool>, nodes: Vec<Box<dyn Node<ID>>>) -> (e: Self)
        ensures
            e.schedule().len() == nodes.len(),
            ids_of(e.schedule()) == node_ids_of(nodes@),
            all_zero(e.schedule()),
            e.current_state() == ExecutorState::Stopped,
            !e.interrupt_flag(),
            e.worker_threads() == worker_count(threads),
    {
        let backing = wrap_all(nodes);
        let clock = new_clock();
        let now = clock_now(&clock);
        let workers = pool_size(threads);
        let pool = new_pool(workers);
        ThreadPoolExecutor {
            backing,
            clock,
            pool,
            state: ExecutorState::Stopped,
            start_instant: now,
            interrupt,
            interrupted: false,
            finished: None,
            workers,
            dispatched: Ghost(Seq::empty()),
        }
    }

    /// The priorities of the scheduled nodes, earliest update last.
    pub fn priorities(&self) -> (p: Vec<u128>)
        ensures
            p@.len() == self.schedule().len(),
            forall|i: int| 0 <= i < p@.len() ==> p@[i] == self.schedule()[i].0,
    {
        priorities_of(&self.backing)
    }

    /// The number of scheduled nodes.
    pub fn node_count(&self) -> (n: usize)
        ensures
            n == self.schedule().len(),
    {
        self.backing.len()
    }

    /// The identifier of the scheduled node at position `i`.
    pub fn id_at(&self, i: usize) -> (id: &ID)
        requires
            i < self.schedule().len(),
        ensures
            *id == self.schedule()[i as int].1,
    {
        &self.backing[i].id
    }

    /// The scheduled node at position `i`.
    pub fn node_at(&self, i: usize) -> (n: &Box<dyn Node<ID>>)
        requires
            i < self.schedule().len(),
        ensures
            *n == self.nodes()[i as int],
    {
        &self.backing[i].node
    }

    /// The state the executor is in.
    pub fn state(&self) -> (s: ExecutorState)
        ensures
            s == self.current_state(),
    {
        self.state
    }

    /// Whether the executor has been interrupted.
    pub fn interrupted(&self) -> (b: bool)
        ensures
            b == self.interrupt_flag(),
    {
        self.interrupted
    }

    /// The number of worker threads of the pool.
    pub fn workers(&self) -> (n: usize)
        ensures
            n == self.worker_threads(),
    {
        self.workers
    }

    /// The instant at which the executor was last started.
    pub fn start_instant(&self) -> (t: Instant)
        ensures
            t == self.started_at(),
    {
        self.start_instant
    }

    /// The number of whole microseconds since the executor was started.
    pub fn elapsed_us(&self) -> u128 {
        micros_since(clock_now(&self.clock), self.start_instant)
    }

    /// Take the backing vector out, leaving an empty one in its place.
    fn take_backing(&mut self) -> (v: Vec<NodeWrapper<ID>>)
        ensures
            v@ == old(self).backing@,
            final(self).backing@ == Seq::<NodeWrapper<ID>>::empty(),
            final(self).state == old(self).state,
            final(self).interrupted == old(self).interrupted,
            final(self).workers == old(self).workers,
            final(self).finished == old(self).finished,
            final(self).dispatched == old(self).dispatched,
    {
        proof {
            use_type_invariant(&*self);
        }
        let mut v: Vec<NodeWrapper<ID>> = Vec::new();
        std::mem::swap(&mut v, &mut self.backing);
        v
    }

    /// Place a wrapped node into the executor at time `now_us`, replacing
    /// the first node with the same identifier (see `placed`).
    pub fn place_node(&mut self, wrapper: NodeWrapper<ID>, now_us: u128)
        ensures
            sorted_by_priority(final(self).schedule()),
            final(self).current_state() == old(self).current_state(),
            final(self).interrupt_flag() == old(self).interrupt_flag(),
            ID::obeys_eq_spec() ==> final(self).schedule() == placed(
                old(self).schedule(),
                old(self).current_state(),
                wrapper.id,
                now_us,
            ),
    {
        proof {
            use_type_invariant(&*self);
        }
        let mut backing = self.take_backing();
        place_wrapper(&mut backing, self.state, wrapper, now_us);
        self.backing = backing;
    }

    /// Take the earliest scheduled node when the executor is running and
    /// the node's update is due at time `now_us`.
    pub fn take_due(&mut self, now_us: u128) -> (r: Option<NodeWrapper<ID>>)
        ensures
            sorted_by_priority(final(self).schedule()),
            final(self).current_state() == old(self).current_state(),
            final(self).interrupt_flag() == old(self).interrupt_flag(),
            old(self).current_state() == ExecutorState::Running && is_due(old(self).schedule(), now_us) ==> (
                r matches Some(w) && (w.priority, w.id) == old(self).schedule().last()
                && final(self).schedule() == old(self).schedule().drop_last()),
            !(old(self).current_state() == ExecutorState::Running && is_due(old(self).schedule(), now_us)) ==> (
                r is None && final(self).schedule() == old(self).schedule()),
            final(self).handed_to_pool() == old(self).handed_to_pool(),
    {
        proof {
            use_type_invariant(&*self);
        }
        if self.state == ExecutorState::Running {
            let mut backing = self.take_backing();
            let r = pop_due(&mut backing, now_us);
            self.backing = backing;
            r
        } else {
            None
        }
    }

    /// Place a node that came back from the pool into the schedule at its
    /// ordered position, while the executor is running.
    pub fn return_node(&mut self, w: NodeWrapper<ID>)
        ensures
            sorted_by_priority(final(self).schedule()),
            final(self).current_state() == old(self).current_state(),
            final(self).interrupt_flag() == old(self).interrupt_flag(),
            old(self).current_state() == ExecutorState::Running ==> final(self).schedule() == insert_ordered(
                old(self).schedule(),
                (w.priority, w.id),
            ),
            old(self).current_state() != ExecutorState::Running ==> final(self).schedule() == old(self).schedule(),
            final(self).handed_to_pool() == old(self).handed_to_pool(),
    {
        proof {
            use_type_invariant(&*self);
        }
        if self.state == ExecutorState::Running {
            let mut backing = self.take_backing();
            insert_into(&mut backing, w);
            self.backing = backing;
        }
    }

    /// Reset every priority to zero and start or shut down every node.
    fn reset_nodes(&mut self, starting: bool)
        ensures
            final(self).schedule() == zeroed(old(self).schedule()),
            final(self).current_state() == old(self).current_state(),
            final(self).interrupt_flag() == old(self).interrupt_flag(),
            final(self).finished == old(self).finished,
            final(self).handed_to_pool() == old(self).handed_to_pool(),
    {
        proof {
            use_type_invariant(&*self);
        }
        let backing = self.take_backing();
        let backing = reset_all(backing, starting);
        self.backing = backing;
    }
}

impl<ID: PartialEq + Send + 'static> Executor<ID> for ThreadPoolExecutor<ID> {
    /// Context does not apply to thread-pool executors.
    type Context = ();

    /// Reset every priority to zero, start every node, clear the interrupt
    /// flag, enter the started state and record the start instant.
    fn start(&mut self)
        ensures
            final(self).schedule() == zeroed(old(self).schedule()),
            final(self).current_state() == ExecutorState::Started,
            !final(self).interrupt_flag(),
    {
        proof {
            use_type_invariant(&*self);
        }
        self.reset_nodes(true);
        self.interrupted = false;
        self.state = ExecutorState::Started;
        self.start_instant = clock_now(&self.clock);
    }

    /// Start the executor, open the channel for returning nodes and mark
    /// the executor as running.
    fn begin_update(&mut self)
        ensures
            final(self).schedule() == zeroed(old(self).schedule()),
            final(self).current_state() == ExecutorState::Running,
            !final(self).interrupt_flag(),
    {
        self.start();
        self.finished = Some(unbounded_channel());
        self.state = ExecutorState::Running;
    }

    fn elapsed_ms(&self) -> u128 {
        millis_since(clock_now(&self.clock), self.start_instant)
    }

    /// Hand the due node, if any, to the pool, then place one node that
    /// came back from the pool, if any, back into the schedule.
    fn update_once(&mut self)
        ensures
            sorted_by_priority(final(self).schedule()),
            final(self).current_state() == old(self).current_state(),
            final(self).interrupt_flag() == old(self).interrupt_flag(),
            old(self).current_state() != ExecutorState::Running
                ==> final(self).schedule() == old(self).schedule(),
            old(self).current_state() != ExecutorState::Running
                ==> final(self).handed_to_pool() == old(self).handed_to_pool(),
            old(self).current_state() == ExecutorState::Running ==> pool_step(
                old(self).schedule(),
                old(self).handed_to_pool(),
                final(self).schedule(),
                final(self).handed_to_pool(),
            ),
    {
        proof {
            use_type_invariant(&*self);
        }
        let now = self.elapsed_us();
        let ghost s0 = self.schedule();
        let ghost h0 = self.handed_to_pool();
        let taken = self.take_due(now);
        proof {
            use_type_invariant(&*self);
        }
        if let Some(w) = taken {
            match &self.finished {
                Some((done, _)) => {
                    let done = clone_sender(done);
                    let ghost e = (w.priority, w.id);
                    execute_on_pool(&self.pool, w, done);
                    proof {
                        self.dispatched = Ghost(self.dispatched@.push(e));
                    }
                },
                None => {},
            }
        }
        let ghost mid = self.schedule();
        let ghost h1 = self.handed_to_pool();
        assert(old(self).current_state() == ExecutorState::Running ==> (
            (mid == s0 && h1 == h0) || (s0.len() > 0 && mid == s0.drop_last() && h1 == h0.push(s0.last()))));
        let returned = match &self.finished {
            Some((_, rx)) => try_receive(rx),
            None => None,
        };
        if let Some(w) = returned {
            self.return_node(w);
            assert(old(self).current_state() == ExecutorState::Running ==> self.schedule() == insert_ordered(mid, (w.priority, w.id)));
        }
        assert(old(self).current_state() == ExecutorState::Running ==> took_back(mid, self.schedule()));
    }

    /// Close the channel for returning nodes, reset every priority to zero,
    /// shut every scheduled node down and stop.
    fn finish_update(&mut self)
        ensures
            final(self).schedule() == zeroed(old(self).schedule()),
            final(self).current_state() == ExecutorState::Stopped,
            final(self).interrupt_flag() == old(self).interrupt_flag(),
    {
        proof {
            use_type_invariant(&*self);
        }
        self.reset_nodes(false);
        self.state = ExecutorState::Stopped;
        self.finished = None;
    }

    /// Poll the interrupt channel: a received value becomes the interrupt
    /// flag, which is returned.
    fn check_interrupt(&mut self) -> (r: bool)
        ensures
            r == final(self).interrupt_flag(),
            final(self).schedule() == old(self).schedule(),
            final(self).current_state() == old(self).current_state(),
    {
        proof {
            use_type_invariant(&*self);
        }
        let received = try_receive(&self.interrupt);
        self.interrupted = next_interrupt_flag(self.interrupted, received);
        self.interrupted
    }

    /// Add a node, replacing the first node with the same identifier.
    ///
    /// A stopped executor appends the node with priority zero, a started
    /// one places it at the current time, and a running one takes no new
    /// node.
    fn add_node(&mut self, node: Box<dyn Node<ID>>)
        ensures
            sorted_by_priority(final(self).schedule()),
            final(self).current_state() == old(self).current_state(),
            final(self).interrupt_flag() == old(self).interrupt_flag(),
            ID::obeys_eq_spec() ==> exists|now_us: u128|
                final(self).schedule() == placed(old(self).schedule(), old(self).current_state(), node.node_id(), now_us),
    {
        let id = node.get_id();
        let wrapper = NodeWrapper::new(0, id, node);
        let now = if self.state == ExecutorState::Started {
            self.elapsed_us()
        } else {
            0
        };
        let ghost id = wrapper.id;
        self.place_node(wrapper, now);
        assert(ID::obeys_eq_spec() ==> self.schedule() == placed(old(self).schedule(), old(self).current_state(), id, now));
    }

    /// Remove the first scheduled node with the given identifier, unless
    /// the executor is running.
    fn remove_node(&mut self, id: &ID) -> (r: Option<Box<dyn Node<ID>>>)
        ensures
            sorted_by_priority(final(self).schedule()),
            final(self).current_state() == old(self).current_state(),
            old(self).current_state() == ExecutorState::Running ==> r is None && final(self).schedule() == old(self).schedule(),
            ID::obeys_eq_spec() && old(self).current_state() != ExecutorState::Running ==> {
                &&& (r is Some <==> has_id(old(self).schedule(), *id))
                &&& final(self).schedule() == without_id(old(self).schedule(), *id)
            },
    {
        proof {
            use_type_invariant(&*self);
        }
        if self.state != ExecutorState::Running {
            let mut backing = self.take_backing();
            let r = remove_wrapper(&mut backing, id);
            self.backing = backing;
            match r {
                Some(w) => Some(w.destroy()),
                None => None,
            }
        } else {
            None
        }
    }
}

} // verus!
