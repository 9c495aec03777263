//! The threaded executor.
//!
//! Nodes are grouped by thread: the executor runs one group on its own
//! thread and keeps a simple executor for each other thread.  A driver
//! runs each of those simple executors on its own thread while the
//! threaded executor runs its own group.

use vstd::prelude::*;
use vstd::std_specs::cmp::PartialEqSpec;

use crossbeam::channel::{Receiver, Sender};
use quanta::{Clock, Instant};

use crate::channel::{send_message, try_receive, unbounded_channel};
use crate::clock::{clock_now, micros_since, millis_since, new_clock};
use crate::executor::{interrupt_after, next_interrupt_flag, Executor, ExecutorState};
use crate::node::Node;
use crate::scheduling::{
    advance, all_zero, count_at_least, entries, has_id, ids_of, insert_into, is_due,
    lemma_count_at_most_len, lemma_step_keeps_nodes, next_priority, node_ids_of, nodes_of,
    place_wrapper, placed, pop_due, priorities_of, remove_wrapper, reset_all, same_id,
    scheduled_ids, sorted_by_priority, stepped, stepped_by_delay, without_id, wrap_all, zeroed,
    NodeWrapper,
};
use crate::simple_executor::SimpleExecutor;

verus! {

/// The interrupt value `v` sent on each of `count` channels, in order.
pub open spec fn broadcast(count: nat, v: bool) -> Seq<(int, bool)> {
    Seq::new(count, |i: int| (i, v))
}

/// The log of passed-on interrupts after a poll that received `received`:
/// a received value is sent on every one of `count` channels.
pub open spec fn forwarded_after(log: Seq<(int, bool)>, count: nat, received: Option<bool>) -> Seq<(int, bool)> {
    match received {
        Some(v) => log + broadcast(count, v),
        None => log,
    }
}

/// Some key of the sequence equals `k`.
pub open spec fn has_key<K: PartialEq>(s: Seq<K>, k: K) -> bool {
    exists|i: int| 0 <= i < s.len() && same_id(s[i], k)
}

/// `i` is the position of the first key equal to `k`.
pub open spec fn is_first_key<K: PartialEq>(s: Seq<K>, k: K, i: int) -> bool {
    &&& 0 <= i < s.len()
    &&& same_id(s[i], k)
    &&& forall|j: int| 0 <= j < i ==> !same_id(#[trigger] s[j], k)
}

/// The position of the first key equal to `k`.
pub open spec fn first_key<K: PartialEq>(s: Seq<K>, k: K) -> int {
    choose|i: int| is_first_key(s, k, i)
}

proof fn lemma_first_key<K: PartialEq>(s: Seq<K>, k: K, i: int)
    requires
        is_first_key(s, k, i),
    ensures
        has_key(s, k),
        first_key(s, k) == i,
{
    let c = first_key(s, k);
    assert(is_first_key(s, k, c));
    if c < i {
        assert(!same_id(s[c], k));
    } else if c > i {
        assert(!same_id(s[i], k));
    }
}

/// The thread identifiers of the sub-executors, in order.
pub open spec fn thread_ids_of<NID: PartialEq, TID>(s: Seq<(SimpleExecutor<NID>, TID)>) -> Seq<TID> {
    s.map_values(|p: (SimpleExecutor<NID>, TID)| p.1)
}

/// The schedules of the sub-executors, in order.
pub open spec fn schedules_of<NID: PartialEq, TID>(s: Seq<(SimpleExecutor<NID>, TID)>) -> Seq<Seq<(u128, NID)>> {
    s.map_values(|p: (SimpleExecutor<NID>, TID)| p.0.schedule())
}

/// A sub-executor's schedule after a removal of `id`: a running one keeps
/// all its nodes, another drops its first node with that identifier.
pub open spec fn after_removal<NID: PartialEq>(e: SimpleExecutor<NID>, id: NID) -> Seq<(u128, NID)> {
    if e.current_state() == ExecutorState::Running {
        e.schedule()
    } else {
        without_id(e.schedule(), id)
    }
}

/// A removal of `id` finds a node in the sub-executor.
pub open spec fn found_in<NID: PartialEq>(e: SimpleExecutor<NID>, id: NID) -> bool {
    e.current_state() != ExecutorState::Running && has_id(e.schedule(), id)
}

/// A removal of `id` finds a node in the sub-executor and leaves it empty.
pub open spec fn emptied_by<NID: PartialEq>(e: SimpleExecutor<NID>, id: NID) -> bool {
    found_in(e, id) && after_removal(e, id).len() == 0
}

/// `d` is the last sub-executor that a removal of `id` empties.
pub open spec fn is_last_emptied<NID: PartialEq, TID>(s: Seq<(SimpleExecutor<NID>, TID)>, id: NID, d: int) -> bool {
    &&& 0 <= d < s.len()
    &&& emptied_by(s[d].0, id)
    &&& forall|j: int| d < j < s.len() ==> !emptied_by(#[trigger] s[j].0, id)
}

/// The schedules of the sub-executors after a removal of `id` from each,
/// before an emptied sub-executor is dropped.
pub open spec fn schedules_after_removal<NID: PartialEq, TID>(
    s: Seq<(SimpleExecutor<NID>, TID)>,
    id: NID,
) -> Seq<Seq<(u128, NID)>> {
    s.map_values(|p: (SimpleExecutor<NID>, TID)| after_removal(p.0, id))
}

/// Threaded Executor
///
/// Keeps the nodes of the main thread in a sorted vector and a simple
/// executor for each other thread.  Sending `true` over the interrupt
/// channel interrupts the executor; the interrupt is passed on to every
/// sub-executor.
#[verifier::reject_recursive_types(NID)]
#[verifier::reject_recursive_types(TID)]
pub struct ThreadedExecutor<NID: PartialEq + Send, TID: PartialEq + Send> {
    /// The executors of the other threads, with their thread identifiers.
    executors: Vec<(SimpleExecutor<NID>, TID)>,
    /// The sorted backing vector for the main thread.
    backing: Vec<NodeWrapper<NID>>,
    /// The thread identifier of the main thread.
    thread_id: TID,
    /// The quanta high-precision clock.
    clock: Clock,
    /// The instant the executor was started.
    start_instant: Instant,
    /// The current state of the executor.
    state: ExecutorState,
    /// The interrupt receiver channel.
    interrupt: Receiver<bool>,
    /// The senders that pass an interrupt on to the sub-executors.
    interrupt_propagators: Vec<Sender<bool>>,
    /// Whether or not the executor has been interrupted.
    interrupted: bool,
    /// Every interrupt value passed on, with the position of the
    /// sub-executor channel it was sent on, in order.
    forwarded: Ghost<Seq<(int, bool)>>,
}

impl<NID: PartialEq + Send, TID: PartialEq + Send> ThreadedExecutor<NID, TID> {
    #[verifier::type_invariant]
    spec fn well_formed(self) -> bool {
        &&& sorted_by_priority(entries(self.backing@))
        &&& self.state == ExecutorState::Stopped ==> all_zero(entries(self.backing@))
    }

    /// The `(priority, id)` pairs of the main thread's nodes, earliest
    /// update last.
    pub closed spec fn schedule(&self) -> Seq<(u128, NID)> {
        entries(self.backing@)
    }

    /// The main thread's nodes, in the order of the schedule.
    pub closed spec fn nodes(&self) -> Seq<Box<dyn Node<NID>>> {
        nodes_of(self.backing@)
    }

    /// The instant the executor was last started.
    pub closed spec fn started_at(&self) -> Instant {
        self.start_instant
    }

    /// The sub-executors with their thread identifiers.
    pub closed spec fn sub_executors(&self) -> Seq<(SimpleExecutor<NID>, TID)> {
        self.executors@
    }

    /// The thread identifier of the main thread.
    pub closed spec fn main_thread(&self) -> TID {
        self.thread_id
    }

    /// Every interrupt value passed on to a sub-executor, with the position
    /// of the channel it was sent on, in order.
    pub closed spec fn passed_on(&self) -> Seq<(int, bool)> {
        self.forwarded@
    }

    /// The number of senders that pass interrupts on.
    pub closed spec fn propagator_count(&self) -> nat {
        self.interrupt_propagators@.len()
    }

    /// The state the executor is in.
    pub closed spec fn current_state(&self) -> ExecutorState {
        self.state
    }

    /// Whether the executor has been interrupted.
    pub closed spec fn interrupt_flag(&self) -> bool {
        self.interrupted
    }

    /// Create a new threaded executor without any nodes.
    pub fn new(interrupt: Receiver<bool>, main_thread_id: TID) -> (e: Self)
        ensures
            e.schedule() == Seq::<(u128, NID)>::empty(),
            e.sub_executors() == Seq::<(SimpleExecutor<NID>, TID)>::empty(),
            e.main_thread() == main_thread_id,
            e.propagator_count() == 0,
            e.current_state() == ExecutorState::Stopped,
            !e.interrupt_flag(),
    {
        let clock = new_clock();
        let now = clock_now(&clock);
        ThreadedExecutor {
            executors: Vec::new(),
            backing: Vec::new(),
            thread_id: main_thread_id,
            clock,
            start_instant: now,
            state: ExecutorState::Stopped,
            interrupt,
            interrupt_propagators: Vec::new(),
            interrupted: false,
            forwarded: Ghost(Seq::empty()),
        }
    }

    /// Create a new threaded executor from nodes grouped by thread.
    ///
    /// The first group for the main thread is run by the executor itself;
    /// every other group, in order, gets a simple executor of its own with
    /// an interrupt channel.
    pub fn new_with(
        interrupt: Receiver<bool>,
        main_thread_id: TID,
        nodes: Vec<(Vec<Box<dyn Node<NID>>>, TID)>,
    ) -> (e: Self)
        ensures
            e.main_thread() == main_thread_id,
            e.current_state() == ExecutorState::Stopped,
            !e.interrupt_flag(),
            all_zero(e.schedule()),
            e.propagator_count() == e.sub_executors().len(),
            forall|i: int| #![trigger e.sub_executors()[i]] 0 <= i < e.sub_executors().len() ==> {
                &&& all_zero(e.sub_executors()[i].0.schedule())
                &&& e.sub_executors()[i].0.current_state() == ExecutorState::Stopped
            },
            TID::obeys_eq_spec() ==> {
                let tids = nodes@.map_values(|g: (Vec<Box<dyn Node<NID>>>, TID)| g.1);
                if has_key(tids, main_thread_id) {
                    let k = first_key(tids, main_thread_id);
                    &&& thread_ids_of(e.sub_executors()) == tids.remove(k)
                    &&& e.schedule().len() == nodes@[k].0@.len()
                    &&& ids_of(e.schedule()) == node_ids_of(nodes@[k].0@)
                    &&& forall|i: int| #![trigger e.sub_executors()[i]] 0 <= i < e.sub_executors().len() ==> {
                        &&& e.sub_executors()[i].0.schedule().len() == nodes@.remove(k)[i].0@.len()
                        &&& ids_of(e.sub_executors()[i].0.schedule()) == node_ids_of(nodes@.remove(k)[i].0@)
                    }
                } else {
                    &&& thread_ids_of(e.sub_executors()) == tids
                    &&& e.schedule().len() == 0
                    &&& forall|i: int| #![trigger e.sub_executors()[i]] 0 <= i < e.sub_executors().len() ==> {
                        &&& e.sub_executors()[i].0.schedule().len() == nodes@[i].0@.len()
                        &&& ids_of(e.sub_executors()[i].0.schedule()) == node_ids_of(nodes@[i].0@)
                    }
                }
            },
    {
        let mut nodes = nodes;
        let ghost groups = nodes@;
        let ghost tids = groups.map_values(|g: (Vec<Box<dyn Node<NID>>>, TID)| g.1);
        let mut backing: Vec<NodeWrapper<NID>> = Vec::new();
        let n = nodes.len();
        let mut i: usize = 0;
        let mut found: Option<usize> = None;
        while i < n && found.is_none()
            invariant
                n == nodes.len(),
                nodes@ == groups,
                tids == groups.map_values(|g: (Vec<Box<dyn Node<NID>>>, TID)| g.1),
                0 <= i <= n,
                found is None ==> TID::obeys_eq_spec() ==> forall|j: int| 0 <= j < i ==> !same_id(#[trigger] tids[j], main_thread_id),
                found matches Some(k) ==> k < n && (TID::obeys_eq_spec() ==> is_first_key(tids, main_thread_id, k as int)),
            decreases n - i,
        {
            assert(tids[i as int] == nodes@[i as int].1);
            if nodes[i].1.eq(&main_thread_id) {
                found = Some(i);
            }
            i = i + 1;
        }
        let ghost rest = groups;
        if let Some(k) = found {
            proof {
                if TID::obeys_eq_spec() {
                    lemma_first_key(tids, main_thread_id, k as int);
                }
            }
            let (node_list, _) = nodes.remove(k);
            assert(node_list@ == groups[k as int].0@);
            backing = wrap_all(node_list);
            proof {
                rest = groups.remove(k as int);
            }
        } else {
            assert(TID::obeys_eq_spec() ==> !has_key(tids, main_thread_id));
        }
        assert(nodes@ == rest);
        let mut executors: Vec<(SimpleExecutor<NID>, TID)> = Vec::new();
        let mut interrupt_propagators: Vec<Sender<bool>> = Vec::new();
        let ghost m = rest.len();
        while nodes.len() > 0
            invariant
                m == rest.len(),
                executors@.len() + nodes@.len() == m,
                nodes@ == rest.subrange(executors@.len() as int, m as int),
                interrupt_propagators@.len() == executors@.len(),
                forall|j: int| #![trigger executors@[j]] 0 <= j < executors@.len() ==> {
                    &&& all_zero(executors@[j].0.schedule())
                    &&& executors@[j].0.current_state() == ExecutorState::Stopped
                    &&& executors@[j].0.schedule().len() == rest[j].0@.len()
                    &&& ids_of(executors@[j].0.schedule()) == node_ids_of(rest[j].0@)
                    &&& executors@[j].1 == rest[j].1
                },
            decreases nodes@.len(),
        {
            let ghost j = executors@.len() as int;
            let ghost before = executors@;
            assert(nodes@[0] == rest[j]);
            let (node_list, thread_id) = nodes.remove(0);
            let (tx, rx) = unbounded_channel();
            interrupt_propagators.push(tx);
            executors.push((SimpleExecutor::new_with(rx, node_list), thread_id));
            assert(nodes@ =~= rest.subrange(executors@.len() as int, m as int));
            assert(forall|jj: int| 0 <= jj < j ==> executors@[jj] == before[jj]);
        }
        assert(thread_ids_of(executors@) =~= rest.map_values(|g: (Vec<Box<dyn Node<NID>>>, TID)| g.1));
        proof {
            if let Some(k) = found {
                assert(rest.map_values(|g: (Vec<Box<dyn Node<NID>>>, TID)| g.1) =~= tids.remove(k as int));
            }
        }
        let clock = new_clock();
        let now = clock_now(&clock);
        ThreadedExecutor {
            executors,
            backing,
            thread_id: main_thread_id,
            clock,
            start_instant: now,
            state: ExecutorState::Stopped,
            interrupt,
            interrupt_propagators,
            interrupted: false,
            forwarded: Ghost(Seq::empty()),
        }
    }

    /// The priorities of the main thread's nodes, earliest update last.
    pub fn priorities(&self) -> (p: Vec<u128>)
        ensures
            p@.len() == self.schedule().len(),
            forall|i: int| 0 <= i < p@.len() ==> p@[i] == self.schedule()[i].0,
    {
        priorities_of(&self.backing)
    }

    /// The number of nodes on the main thread.
    pub fn node_count(&self) -> (n: usize)
        ensures
            n == self.schedule().len(),
    {
        self.backing.len()
    }

    /// The identifier of the main thread's node at position `i`.
    pub fn id_at(&self, i: usize) -> (id: &NID)
        requires
            i < self.schedule().len(),
        ensures
            *id == self.schedule()[i as int].1,
    {
        &self.backing[i].id
    }

    /// The main thread's node at position `i`.
    pub fn node_at(&self, i: usize) -> (n: &Box<dyn Node<NID>>)
        requires
            i < self.schedule().len(),
        ensures
            *n == self.nodes()[i as int],
    {
        &self.backing[i].node
    }

    /// The number of sub-executors.
    pub fn executor_count(&self) -> (n: usize)
        ensures
            n == self.sub_executors().len(),
    {
        self.executors.len()
    }

    /// The sub-executor at position `i`, with its thread identifier.
    pub fn executor_at(&self, i: usize) -> (e: &(SimpleExecutor<NID>, TID))
        requires
            i < self.sub_executors().len(),
        ensures
            *e == self.sub_executors()[i as int],
    {
        &self.executors[i]
    }

    /// The state the executor is in.
    pub fn state(&self) -> (s: ExecutorState)
        ensures
            s == self.current_state(),
    {
        self.state
    }

    /// Whether the executor has been interrupted.
    pub fn interrupted(&self) -> (b: bool)
        ensures
            b == self.interrupt_flag(),
    {
        self.interrupted
    }

    /// The instant at which the main thread was last started.
    pub fn start_instant(&self) -> (t: Instant)
        ensures
            t == self.started_at(),
    {
        self.start_instant
    }

    /// The number of whole microseconds since the main thread was started.
    pub fn elapsed_us(&self) -> u128 {
        micros_since(clock_now(&self.clock), self.start_instant)
    }

    /// Hand the sub-executors out so that each can run on a thread of its
    /// own; the executor keeps none.
    pub fn take_executors(&mut self) -> (v: Vec<(SimpleExecutor<NID>, TID)>)
        ensures
            v@ == old(self).sub_executors(),
            final(self).sub_executors() == Seq::<(SimpleExecutor<NID>, TID)>::empty(),
            final(self).schedule() == old(self).schedule(),
            final(self).main_thread() == old(self).main_thread(),
            final(self).propagator_count() == old(self).propagator_count(),
            final(self).current_state() == old(self).current_state(),
            final(self).interrupt_flag() == old(self).interrupt_flag(),
    {
        proof {
            use_type_invariant(&*self);
        }
        let mut v: Vec<(SimpleExecutor<NID>, TID)> = Vec::new();
        std::mem::swap(&mut v, &mut self.executors);
        v
    }

    /// Take sub-executors back after they ran, appending them in order.
    pub fn restore_executors(&mut self, v: Vec<(SimpleExecutor<NID>, TID)>)
        ensures
            final(self).sub_executors() == old(self).sub_executors() + v@,
            final(self).schedule() == old(self).schedule(),
            final(self).main_thread() == old(self).main_thread(),
            final(self).propagator_count() == old(self).propagator_count(),
            final(self).current_state() == old(self).current_state(),
            final(self).interrupt_flag() == old(self).interrupt_flag(),
    {
        let mut current = self.take_executors();
        proof {
            use_type_invariant(&*self);
        }
        let mut v = v;
        current.append(&mut v);
        self.executors = current;
    }

    /// Take the backing vector out, leaving an empty one in its place.
    fn take_backing(&mut self) -> (v: Vec<NodeWrapper<NID>>)
        ensures
            v@ == old(self).backing@,
            final(self).backing@ == Seq::<NodeWrapper<NID>>::empty(),
            final(self).executors@ == old(self).executors@,
            final(self).thread_id == old(self).thread_id,
            final(self).interrupt_propagators@ == old(self).interrupt_propagators@,
            final(self).state == old(self).state,
            final(self).interrupted == old(self).interrupted,
    {
        let mut v: Vec<NodeWrapper<NID>> = Vec::new();
        std::mem::swap(&mut v, &mut self.backing);
        v
    }

    /// Add a node that reported the identifier `id`, replacing the first
    /// node with that identifier.  A stopped executor appends the node with
    /// priority zero, a started one places it at the current time, and a
    /// running one takes no new node.
    pub fn add_identified(&mut self, id: NID, node: Box<dyn Node<NID>>)
        ensures
            sorted_by_priority(final(self).schedule()),
            final(self).main_thread() == old(self).main_thread(),
            final(self).sub_executors() == old(self).sub_executors(),
            final(self).propagator_count() == old(self).propagator_count(),
            final(self).current_state() == old(self).current_state(),
            final(self).interrupt_flag() == old(self).interrupt_flag(),
            NID::obeys_eq_spec() ==> exists|now_us: u128|
                final(self).schedule() == placed(old(self).schedule(), old(self).current_state(), id, now_us),
    {
        let wrapper = NodeWrapper::new(0, id, node);
        let now = if self.state == ExecutorState::Started {
            self.elapsed_us()
        } else {
            0
        };
        let ghost gid = wrapper.id;
        self.place_node(wrapper, now);
        assert(NID::obeys_eq_spec() ==> self.schedule() == placed(old(self).schedule(), old(self).current_state(), gid, now));
    }

    /// Place a wrapped node into the main thread's schedule at time
    /// `now_us`, replacing the first node with the same identifier (see
    /// `placed`).
    pub fn place_node(&mut self, wrapper: NodeWrapper<NID>, now_us: u128)
        ensures
            sorted_by_priority(final(self).schedule()),
            final(self).sub_executors() == old(self).sub_executors(),
            final(self).main_thread() == old(self).main_thread(),
            final(self).propagator_count() == old(self).propagator_count(),
            final(self).current_state() == old(self).current_state(),
            final(self).interrupt_flag() == old(self).interrupt_flag(),
            NID::obeys_eq_spec() ==> final(self).schedule() == placed(
                old(self).schedule(),
                old(self).current_state(),
                wrapper.id,
                now_us,
            ),
    {
        proof {
            use_type_invariant(&*self);
        }
        let mut backing = self.take_backing();
        place_wrapper(&mut backing, self.state, wrapper, now_us);
        self.backing = backing;
    }

    /// One scheduling step of the main thread at time `now_us` (see
    /// `SimpleExecutor::run_due`).
    pub fn run_due(&mut self, now_us: u128)
        ensures
            sorted_by_priority(final(self).schedule()),
            final(self).sub_executors() == old(self).sub_executors(),
            final(self).current_state() == old(self).current_state(),
            final(self).interrupt_flag() == old(self).interrupt_flag(),
            old(self).current_state() == ExecutorState::Running && is_due(old(self).schedule(), now_us)
                ==> stepped_by_delay(old(self).schedule(), final(self).schedule(), final(self).nodes()),
            !(old(self).current_state() == ExecutorState::Running && is_due(old(self).schedule(), now_us))
                ==> final(self).schedule() == old(self).schedule(),
    {
        proof {
            use_type_invariant(&*self);
        }
        if self.state == ExecutorState::Running {
            let ghost s = entries(self.backing@);
            let mut backing = self.take_backing();
            match pop_due(&mut backing, now_us) {
                Some(w) => {
                    let w = advance(w);
                    let ghost before = backing@;
                    insert_into(&mut backing, w);
                    assert(entries(backing@) == stepped(s, w.priority));
                    proof {
                        let c = count_at_least(entries(before), w.priority) as int;
                        lemma_count_at_most_len(entries(before), w.priority);
                        assert(nodes_of(backing@)[c] == w.node);
                        assert(next_priority(s, nodes_of(backing@), w.priority));
                    }
                },
                None => {},
            }
            self.backing = backing;
        }
    }

    /// Reset every priority of the main thread to zero and start or shut
    /// down its nodes.
    fn reset_nodes(&mut self, starting: bool)
        ensures
            final(self).schedule() == zeroed(old(self).schedule()),
            final(self).sub_executors() == old(self).sub_executors(),
            final(self).main_thread() == old(self).main_thread(),
            final(self).propagator_count() == old(self).propagator_count(),
            final(self).current_state() == old(self).current_state(),
            final(self).interrupt_flag() == old(self).interrupt_flag(),
    {
        let backing = self.take_backing();
        let backing = reset_all(backing, starting);
        self.backing = backing;
    }

    /// Take the interrupt senders out, leaving none in their place.
    fn take_propagators(&mut self) -> (v: Vec<Sender<bool>>)
        ensures
            v@ == old(self).interrupt_propagators@,
            final(self).interrupt_propagators@ == Seq::<Sender<bool>>::empty(),
            final(self).backing@ == old(self).backing@,
            final(self).executors@ == old(self).executors@,
            final(self).thread_id == old(self).thread_id,
            final(self).state == old(self).state,
            final(self).interrupted == old(self).interrupted,
    {
        proof {
            use_type_invariant(&*self);
        }
        let mut v: Vec<Sender<bool>> = Vec::new();
        std::mem::swap(&mut v, &mut self.interrupt_propagators);
        v
    }

    /// Start the main thread's nodes: reset their priorities to zero, clear
    /// the interrupt flag, enter the started state and record the start
    /// instant.
    pub fn start_self(&mut self)
        ensures
            final(self).schedule() == zeroed(old(self).schedule()),
            final(self).sub_executors() == old(self).sub_executors(),
            final(self).main_thread() == old(self).main_thread(),
            final(self).propagator_count() == old(self).propagator_count(),
            final(self).current_state() == ExecutorState::Started,
            !final(self).interrupt_flag(),
    {
        self.reset_nodes(true);
        self.interrupted = false;
        self.state = ExecutorState::Started;
        self.start_instant = clock_now(&self.clock);
    }
}

/// Find the first sub-executor whose thread identifier equals `tid`.
fn find_executor<NID: PartialEq, TID: PartialEq>(v: &Vec<(SimpleExecutor<NID>, TID)>, tid: &TID) -> (r: Option<usize>)
    ensures
        r matches Some(k) ==> k < v.len(),
        TID::obeys_eq_spec() ==> match r {
            Some(k) => is_first_key(thread_ids_of(v@), *tid, k as int),
            None => !has_key(thread_ids_of(v@), *tid),
        },
{
    let n = v.len();
    let mut i: usize = 0;
    while i < n
        invariant
            n == v.len(),
            0 <= i <= n,
            TID::obeys_eq_spec() ==> forall|j: int| 0 <= j < i ==> !same_id(#[trigger] thread_ids_of(v@)[j], *tid),
        decreases n - i,
    {
        if v[i].1.eq(tid) {
            return Some(i);
        }
        i = i + 1;
    }
    None
}

impl<NID: PartialEq + Send + 'static, TID: PartialEq + Send + 'static> Executor<NID> for ThreadedExecutor<NID, TID> {
    /// The thread on which an added node should run.
    type Context = TID;

    /// Start every sub-executor, then the main thread's nodes.
    fn start(&mut self)
        ensures
            final(self).schedule() == zeroed(old(self).schedule()),
            final(self).current_state() == ExecutorState::Started,
            !final(self).interrupt_flag(),
            final(self).main_thread() == old(self).main_thread(),
            final(self).propagator_count() == old(self).propagator_count(),
            final(self).sub_executors().len() == old(self).sub_executors().len(),
            forall|i: int| #![trigger final(self).sub_executors()[i]] 0 <= i < final(self).sub_executors().len() ==> {
                &&& final(self).sub_executors()[i].1 == old(self).sub_executors()[i].1
                &&& final(self).sub_executors()[i].0.schedule() == zeroed(old(self).sub_executors()[i].0.schedule())
                &&& final(self).sub_executors()[i].0.current_state() == ExecutorState::Started
            },
    {
        let mut execs = self.take_executors();
        let ghost before = execs@;
        let n = execs.len();
        let mut i: usize = 0;
        while i < n
            invariant
                n == execs.len(),
                before.len() == n,
                0 <= i <= n,
                forall|j: int| #![trigger execs@[j]] 0 <= j < i ==> {
                    &&& execs@[j].1 == before[j].1
                    &&& execs@[j].0.schedule() == zeroed(before[j].0.schedule())
                    &&& execs@[j].0.current_state() == ExecutorState::Started
                },
                forall|j: int| i <= j < n ==> execs@[j] == before[j],
            decreases n - i,
        {
            let (mut e, t) = execs.remove(i);
            e.start();
            execs.insert(i, (e, t));
            i = i + 1;
        }
        self.restore_executors(execs);
        self.start_self();
    }

    /// Start the main thread's nodes and mark the executor as running.
    fn begin_update(&mut self)
        ensures
            final(self).schedule() == zeroed(old(self).schedule()),
            final(self).current_state() == ExecutorState::Running,
            !final(self).interrupt_flag(),
            final(self).sub_executors() == old(self).sub_executors(),
    {
        self.start_self();
        self.state = ExecutorState::Running;
    }

    fn elapsed_ms(&self) -> u128 {
        millis_since(clock_now(&self.clock), self.start_instant)
    }

    /// Read the clock and run the main thread's node that is due, if any.
    fn update_once(&mut self)
        ensures
            sorted_by_priority(final(self).schedule()),
            final(self).sub_executors() == old(self).sub_executors(),
            final(self).current_state() == old(self).current_state(),
            final(self).interrupt_flag() == old(self).interrupt_flag(),
            old(self).current_state() != ExecutorState::Running
                ==> final(self).schedule() == old(self).schedule(),
            final(self).schedule().len() == old(self).schedule().len(),
            scheduled_ids(final(self).schedule()) == scheduled_ids(old(self).schedule()),
            old(self).current_state() == ExecutorState::Running ==> (final(self).schedule() == old(self).schedule()
                || (old(self).schedule().len() > 0
                    && stepped_by_delay(old(self).schedule(), final(self).schedule(), final(self).nodes()))),
    {
        let now = self.elapsed_us();
        self.run_due(now);
        proof {
            if self.state == ExecutorState::Running && is_due(old(self).schedule(), now) {
                let next = choose|next: u128| #[trigger] stepped(old(self).schedule(), next) == self.schedule()
                    && next_priority(old(self).schedule(), self.nodes(), next);
                lemma_step_keeps_nodes(old(self).schedule(), next);
            }
        }
    }

    /// Reset the main thread's priorities to zero, shut its nodes down and
    /// stop.
    fn finish_update(&mut self)
        ensures
            final(self).schedule() == zeroed(old(self).schedule()),
            final(self).current_state() == ExecutorState::Stopped,
            final(self).interrupt_flag() == old(self).interrupt_flag(),
            final(self).sub_executors() == old(self).sub_executors(),
    {
        self.reset_nodes(false);
        self.state = ExecutorState::Stopped;
    }

    /// Poll the interrupt channel: a received value becomes the interrupt
    /// flag and is passed on to every sub-executor's channel; the flag is
    /// returned.
    fn check_interrupt(&mut self) -> (r: bool)
        ensures
            r == final(self).interrupt_flag(),
            final(self).schedule() == old(self).schedule(),
            final(self).sub_executors() == old(self).sub_executors(),
            final(self).propagator_count() == old(self).propagator_count(),
            final(self).current_state() == old(self).current_state(),
            exists|received: Option<bool>| {
                &&& final(self).interrupt_flag() == interrupt_after(old(self).interrupt_flag(), received)
                &&& final(self).passed_on() == #[trigger] forwarded_after(old(self).passed_on(), old(self).propagator_count(), received)
            },
    {
        proof {
            use_type_invariant(&*self);
        }
        let received = try_receive(&self.interrupt);
        self.interrupted = next_interrupt_flag(self.interrupted, received);
        if let Some(v) = received {
            let n = self.interrupt_propagators.len();
            let mut i: usize = 0;
            while i < n
                invariant
                    n == self.interrupt_propagators.len(),
                    n == old(self).propagator_count(),
                    0 <= i <= n,
                    self.backing == old(self).backing,
                    self.executors == old(self).executors,
                    self.state == old(self).state,
                    self.interrupted == interrupt_after(old(self).interrupted, received),
                    self.forwarded@ == old(self).forwarded@ + broadcast(n as nat, v).take(i as int),
                    sorted_by_priority(entries(self.backing@)),
                    self.state == ExecutorState::Stopped ==> all_zero(entries(self.backing@)),
                decreases n - i,
            {
                let _ = send_message(&self.interrupt_propagators[i], v);
                proof {
                    assert(broadcast(n as nat, v).take(i as int + 1) =~= broadcast(n as nat, v).take(i as int).push((i as int, v)));
                    self.forwarded = Ghost(self.forwarded@.push((i as int, v)));
                }
                i = i + 1;
            }
            assert(broadcast(n as nat, v).take(n as int) =~= broadcast(n as nat, v));
        }
        assert(self.passed_on() == forwarded_after(old(self).passed_on(), old(self).propagator_count(), received));
        self.interrupted
    }

    /// Add a node to the main thread, replacing its first node with the
    /// same identifier (see `SimpleExecutor::add_node`).
    fn add_node(&mut self, node: Box<dyn Node<NID>>)
        ensures
            sorted_by_priority(final(self).schedule()),
            final(self).main_thread() == old(self).main_thread(),
            final(self).sub_executors() == old(self).sub_executors(),
            final(self).propagator_count() == old(self).propagator_count(),
            final(self).current_state() == old(self).current_state(),
            final(self).interrupt_flag() == old(self).interrupt_flag(),
            NID::obeys_eq_spec() ==> exists|now_us: u128|
                final(self).schedule() == placed(old(self).schedule(), old(self).current_state(), node.node_id(), now_us),
    {
        let id = node.get_id();
        self.add_identified(id, node);
    }

    /// Add a node to the thread `ctx`: the main thread, the first
    /// sub-executor of that thread, or a new sub-executor for that thread
    /// (with its own interrupt channel) when there is none.
    fn add_node_with_context(&mut self, node: Box<dyn Node<NID>>, ctx: TID)
        ensures
            final(self).main_thread() == old(self).main_thread(),
            final(self).current_state() == old(self).current_state(),
            final(self).interrupt_flag() == old(self).interrupt_flag(),
            TID::obeys_eq_spec() && same_id(ctx, old(self).main_thread()) ==> {
                &&& final(self).sub_executors() == old(self).sub_executors()
                &&& final(self).propagator_count() == old(self).propagator_count()
                &&& NID::obeys_eq_spec() ==> exists|now_us: u128|
                    final(self).schedule() == placed(old(self).schedule(), old(self).current_state(), node.node_id(), now_us)
            },
            TID::obeys_eq_spec() && !same_id(ctx, old(self).main_thread()) ==> {
                let tids = thread_ids_of(old(self).sub_executors());
                &&& final(self).schedule() == old(self).schedule()
                &&& has_key(tids, ctx) ==> {
                    let k = first_key(tids, ctx);
                    &&& final(self).propagator_count() == old(self).propagator_count()
                    &&& final(self).sub_executors().len() == old(self).sub_executors().len()
                    &&& thread_ids_of(final(self).sub_executors()) == tids
                    &&& forall|j: int| 0 <= j < tids.len() && j != k ==>
                        #[trigger] final(self).sub_executors()[j] == old(self).sub_executors()[j]
                    &&& final(self).sub_executors()[k].0.current_state() == old(self).sub_executors()[k].0.current_state()
                    &&& NID::obeys_eq_spec() ==> exists|now_us: u128|
                        final(self).sub_executors()[k].0.schedule() == placed(
                            old(self).sub_executors()[k].0.schedule(),
                            old(self).sub_executors()[k].0.current_state(),
                            node.node_id(),
                            now_us,
                        )
                }
                &&& !has_key(tids, ctx) ==> {
                    &&& final(self).propagator_count() == old(self).propagator_count() + 1
                    &&& final(self).sub_executors().len() == old(self).sub_executors().len() + 1
                    &&& final(self).sub_executors().drop_last() == old(self).sub_executors()
                    &&& final(self).sub_executors().last().1 == ctx
                    &&& final(self).sub_executors().last().0.schedule().len() == 1
                    &&& ids_of(final(self).sub_executors().last().0.schedule()) == seq![node.node_id()]
                    &&& all_zero(final(self).sub_executors().last().0.schedule())
                    &&& final(self).sub_executors().last().0.current_state() == ExecutorState::Stopped
                }
            },
    {
        let id = node.get_id();
        if ctx.eq(&self.thread_id) {
            self.add_identified(id, node);
        } else {
            let mut execs = self.take_executors();
            let ghost before = execs@;
            match find_executor(&execs, &ctx) {
                Some(k) => {
                    proof {
                        if TID::obeys_eq_spec() {
                            lemma_first_key(thread_ids_of(before), ctx, k as int);
                        }
                    }
                    let (mut e, t) = execs.remove(k);
                    let ghost e0 = e;
                    assert(e0 == before[k as int].0);
                    e.add_identified(id, node);
                    execs.insert(k, (e, t));
                    assert(thread_ids_of(execs@) =~= thread_ids_of(before));
                    assert(forall|j: int| 0 <= j < before.len() && j != k ==> execs@[j] == before[j]);
                    assert(execs@[k as int].0 == e);
                },
                None => {
                    let (tx, rx) = unbounded_channel();
                    let mut propagators = self.take_propagators();
                    propagators.push(tx);
                    proof {
                        use_type_invariant(&*self);
                    }
                    self.interrupt_propagators = propagators;
                    let mut nodes = Vec::new();
                    nodes.push(node);
                    assert(nodes@.len() == 1);
                    assert(node_ids_of(nodes@) =~= seq![id]);
                    let e = SimpleExecutor::new_with(rx, nodes);
                    assert(e.schedule().len() == 1);
                    execs.push((e, ctx));
                    assert(execs@.drop_last() =~= before);
                },
            }
            self.restore_executors(execs);
        }
    }

    /// Remove a node with the given identifier: from the main thread when
    /// it has one; otherwise from every sub-executor that has one, dropping
    /// the last sub-executor that the removal leaves without nodes.  The
    /// node removed last is returned.
    fn remove_node(&mut self, id: &NID) -> (r: Option<Box<dyn Node<NID>>>)
        ensures
            sorted_by_priority(final(self).schedule()),
            final(self).main_thread() == old(self).main_thread(),
            final(self).propagator_count() == old(self).propagator_count(),
            final(self).current_state() == old(self).current_state(),
            final(self).interrupt_flag() == old(self).interrupt_flag(),
            NID::obeys_eq_spec() && has_id(old(self).schedule(), *id) ==> {
                &&& r is Some
                &&& final(self).schedule() == without_id(old(self).schedule(), *id)
                &&& final(self).sub_executors() == old(self).sub_executors()
            },
            NID::obeys_eq_spec() && !has_id(old(self).schedule(), *id) ==> {
                let subs = old(self).sub_executors();
                let after = schedules_after_removal(subs, *id);
                &&& final(self).schedule() == old(self).schedule()
                &&& (r is Some <==> exists|i: int| 0 <= i < subs.len() && found_in(#[trigger] subs[i].0, *id))
                &&& (exists|d: int| is_last_emptied(subs, *id, d)) ==> {
                    let d = choose|d: int| is_last_emptied(subs, *id, d);
                    &&& schedules_of(final(self).sub_executors()) == after.remove(d)
                    &&& thread_ids_of(final(self).sub_executors()) == thread_ids_of(subs).remove(d)
                }
                &&& !(exists|d: int| is_last_emptied(subs, *id, d)) ==> {
                    &&& schedules_of(final(self).sub_executors()) == after
                    &&& thread_ids_of(final(self).sub_executors()) == thread_ids_of(subs)
                }
            },
    {
        proof {
            use_type_invariant(&*self);
        }
        let mut backing = self.take_backing();
        let main_removed = remove_wrapper(&mut backing, id);
        self.backing = backing;
        if let Some(w) = main_removed {
            return Some(w.destroy());
        }
        let mut execs = self.take_executors();
        let ghost subs = execs@;
        let n = execs.len();
        let mut found: Option<Box<dyn Node<NID>>> = None;
        let mut delete: Option<usize> = None;
        let mut i: usize = 0;
        while i < n
            invariant
                n == execs.len(),
                subs.len() == n,
                0 <= i <= n,
                forall|j: int| #![trigger execs@[j]] 0 <= j < i ==> {
                    &&& execs@[j].1 == subs[j].1
                    &&& NID::obeys_eq_spec() ==> execs@[j].0.schedule() == after_removal(subs[j].0, *id)
                },
                forall|j: int| i <= j < n ==> execs@[j] == subs[j],
                delete matches Some(d) ==> d < i,
                NID::obeys_eq_spec() ==> (found is Some <==> exists|j: int| 0 <= j < i && found_in(#[trigger] subs[j].0, *id)),
                NID::obeys_eq_spec() ==> match delete {
                    Some(d) => d < i && emptied_by(subs[d as int].0, *id)
                        && forall|j: int| d < j < i ==> !emptied_by(#[trigger] subs[j].0, *id),
                    None => forall|j: int| 0 <= j < i ==> !emptied_by(#[trigger] subs[j].0, *id),
                },
            decreases n - i,
        {
            let ghost before = execs@;
            let (mut e, t) = execs.remove(i);
            assert(e == subs[i as int].0);
            let removed = e.remove_node(id);
            assert(NID::obeys_eq_spec() ==> (removed is Some <==> found_in(subs[i as int].0, *id)));
            assert(NID::obeys_eq_spec() ==> e.schedule() == after_removal(subs[i as int].0, *id));
            if removed.is_some() {
                found = removed;
                if e.node_count() == 0 {
                    delete = Some(i);
                }
            }
            execs.insert(i, (e, t));
            assert(forall|j: int| 0 <= j < n && j != i ==> execs@[j] == before[j]);
            i = i + 1;
        }
        let ghost processed = execs@;
        assert(NID::obeys_eq_spec() ==> schedules_of(processed) =~= schedules_after_removal(subs, *id));
        assert(thread_ids_of(processed) =~= thread_ids_of(subs));
        let ghost had_main = has_id(old(self).schedule(), *id);
        assert(NID::obeys_eq_spec() ==> !had_main);
        if let Some(d) = delete {
            execs.remove(d);
            proof {
                if NID::obeys_eq_spec() {
                    assert(is_last_emptied(subs, *id, d as int));
                    let c = choose|c: int| is_last_emptied(subs, *id, c);
                    if c < d {
                        assert(!emptied_by(subs[d as int].0, *id));
                    } else if c > d {
                        assert(!emptied_by(subs[c].0, *id));
                    }
                    assert(schedules_of(execs@) =~= schedules_of(processed).remove(d as int));
                }
                assert(thread_ids_of(execs@) =~= thread_ids_of(processed).remove(d as int));
            }
        } else {
            assert(NID::obeys_eq_spec() ==> !(exists|c: int| is_last_emptied(subs, *id, c)));
        }
        self.restore_executors(execs);
        assert(self.sub_executors() == execs@);
        assert(subs == old(self).sub_executors());
        found
    }
}

} // verus!
