//! Ordering of nodes by the time of their next update.
//!
//! Executors keep their nodes in a vector sorted so that the node whose
//! next update is the earliest sits at the end of the vector.  A schedule
//! is the sequence of `(priority, id)` pairs of such a vector.

use vstd::prelude::*;
use vstd::multiset::Multiset;
use vstd::std_specs::cmp::PartialEqSpec;

use crate::executor::ExecutorState;
use crate::node::Node;

verus! {

/// Wraps a node, giving it a priority: the timestamp (in microseconds since
/// the executor started) of the node's next update.
#[verifier::reject_recursive_types(ID)]
pub struct NodeWrapper<ID> {
    /// The timestamp of the node's next update.
    pub priority: u128,
    /// The identifier the node reported when it was wrapped.
    pub id: ID,
    /// The node this wrapper is wrapping.
    pub node: Box<dyn Node<ID>>,
}

impl<ID> NodeWrapper<ID> {
    /// Wrap a node with a given priority, recording the identifier `id`
    /// that the node reported.
    pub fn new(priority: u128, id: ID, node: Box<dyn Node<ID>>) -> (w: NodeWrapper<ID>)
        ensures
            w.priority == priority,
            w.id == id,
    {
        NodeWrapper { priority, id, node }
    }

    /// Destroy the node wrapper, returning the node it was wrapping.
    pub fn destroy(self) -> Box<dyn Node<ID>> {
        self.node
    }
}

/// The `(priority, id)` pairs of a sequence of wrapped nodes, in order.
pub open spec fn entries<ID>(s: Seq<NodeWrapper<ID>>) -> Seq<(u128, ID)> {
    s.map_values(|w: NodeWrapper<ID>| (w.priority, w.id))
}

/// The nodes of a sequence of wrapped nodes, in order.
pub open spec fn nodes_of<ID>(s: Seq<NodeWrapper<ID>>) -> Seq<Box<dyn Node<ID>>> {
    s.map_values(|w: NodeWrapper<ID>| w.node)
}

/// The identifiers of a sequence of nodes, in order, as the nodes give them.
pub open spec fn node_ids_of<ID>(nodes: Seq<Box<dyn Node<ID>>>) -> Seq<ID> {
    nodes.map_values(|n: Box<dyn Node<ID>>| n.node_id())
}

/// The update delays of a sequence of nodes, in order.
pub open spec fn delays_of<ID>(nodes: Seq<Box<dyn Node<ID>>>) -> Seq<u128> {
    nodes.map_values(|n: Box<dyn Node<ID>>| n.update_delay())
}

/// A priority moved forward by `delay`, saturating at the largest one.
pub open spec fn advanced(priority: u128, delay: u128) -> u128 {
    if priority + delay > u128::MAX { u128::MAX } else { (priority + delay) as u128 }
}

/// A schedule is ordered when priorities never increase from front to back,
/// so the earliest update is at the end.
pub open spec fn sorted_by_priority<ID>(s: Seq<(u128, ID)>) -> bool {
    forall|i: int, j: int| 0 <= i < j < s.len() ==> s[i].0 >= s[j].0
}

/// Every priority in the schedule is zero.
pub open spec fn all_zero<ID>(s: Seq<(u128, ID)>) -> bool {
    forall|i: int| 0 <= i < s.len() ==> s[i].0 == 0
}

/// The schedule with every priority reset to zero.
pub open spec fn zeroed<ID>(s: Seq<(u128, ID)>) -> Seq<(u128, ID)> {
    s.map_values(|e: (u128, ID)| (0u128, e.1))
}

/// The number of entries whose priority is at least `p`; in an ordered
/// schedule these are exactly the ones at the front.
pub open spec fn count_at_least<ID>(s: Seq<(u128, ID)>, p: u128) -> nat
    decreases s.len(),
{
    if s.len() == 0 {
        0
    } else {
        count_at_least(s.drop_last(), p) + if s.last().0 >= p { 1nat } else { 0nat }
    }
}

/// The schedule after placing an entry behind every entry whose priority is
/// at least as large.
pub open spec fn insert_ordered<ID>(s: Seq<(u128, ID)>, e: (u128, ID)) -> Seq<(u128, ID)> {
    s.insert(count_at_least(s, e.0) as int, e)
}

/// Identifiers are compared with their `PartialEq` implementation.
pub open spec fn same_id<ID: PartialEq>(a: ID, b: ID) -> bool {
    a.eq_spec(&b)
}

/// Some entry of the schedule carries an identifier equal to `id`.
pub open spec fn has_id<ID: PartialEq>(s: Seq<(u128, ID)>, id: ID) -> bool {
    exists|i: int| 0 <= i < s.len() && same_id(s[i].1, id)
}

/// `k` is the position of the first entry whose identifier equals `id`.
pub open spec fn is_first_with_id<ID: PartialEq>(s: Seq<(u128, ID)>, id: ID, k: int) -> bool {
    &&& 0 <= k < s.len()
    &&& same_id(s[k].1, id)
    &&& forall|j: int| 0 <= j < k ==> !same_id(#[trigger] s[j].1, id)
}

/// The position of the first entry whose identifier equals `id`.
pub open spec fn first_with_id<ID: PartialEq>(s: Seq<(u128, ID)>, id: ID) -> int {
    choose|k: int| is_first_with_id(s, id, k)
}

/// The schedule without the first entry whose identifier equals `id`
/// (unchanged when there is none).
pub open spec fn without_id<ID: PartialEq>(s: Seq<(u128, ID)>, id: ID) -> Seq<(u128, ID)> {
    if has_id(s, id) {
        s.remove(first_with_id(s, id))
    } else {
        s
    }
}

/// The priorities of a vector of wrapped nodes, in order.
pub fn priorities_of<ID>(v: &Vec<NodeWrapper<ID>>) -> (p: Vec<u128>)
    ensures
        p@.len() == v@.len(),
        forall|i: int| 0 <= i < p@.len() ==> p@[i] == entries(v@)[i].0,
{
    let mut p: Vec<u128> = Vec::new();
    let n = v.len();
    let mut i: usize = 0;
    while i < n
        invariant
            n == v.len(),
            0 <= i <= n,
            p@.len() == i,
            forall|j: int| 0 <= j < i ==> p@[j] == entries(v@)[j].0,
        decreases n - i,
    {
        p.push(v[i].priority);
        i = i + 1;
    }
    p
}

/// Find the position of the first wrapped node whose identifier equals `id`.
pub fn find_id<ID: PartialEq>(v: &Vec<NodeWrapper<ID>>, id: &ID) -> (r: Option<usize>)
    ensures
        r matches Some(k) ==> k < v.len(),
        ID::obeys_eq_spec() ==> match r {
            Some(k) => is_first_with_id(entries(v@), *id, k as int),
            None => !has_id(entries(v@), *id),
        },
{
    let n = v.len();
    let mut i: usize = 0;
    while i < n
        invariant
            n == v.len(),
            0 <= i <= n,
            ID::obeys_eq_spec() ==> forall|j: int| 0 <= j < i ==> !same_id(#[trigger] entries(v@)[j].1, *id),
        decreases n - i,
    {
        if v[i].id.eq(id) {
            return Some(i);
        }
        i = i + 1;
    }
    None
}

/// When a first entry with `id` exists, `first_with_id` names it.
pub proof fn lemma_first_with_id<ID: PartialEq>(s: Seq<(u128, ID)>, id: ID, k: int)
    requires
        is_first_with_id(s, id, k),
    ensures
        has_id(s, id),
        first_with_id(s, id) == k,
{
    assert(same_id(s[k].1, id));
    let c = first_with_id(s, id);
    assert(is_first_with_id(s, id, c));
    if c < k {
        assert(!same_id(s[c].1, id));
    } else if c > k {
        assert(!same_id(s[k].1, id));
    }
}

/// Removing an entry keeps a schedule ordered and keeps zero priorities zero.
pub proof fn lemma_remove_keeps_order<ID>(s: Seq<(u128, ID)>, k: int)
    requires
        0 <= k < s.len(),
    ensures
        sorted_by_priority(s) ==> sorted_by_priority(s.remove(k)),
        all_zero(s) ==> all_zero(s.remove(k)),
{
}

/// Insert `node` into the ordered vector `vec`, after every node whose
/// priority is at least the new node's priority.
pub fn insert_into<ID>(vec: &mut Vec<NodeWrapper<ID>>, node: NodeWrapper<ID>)
    requires
        sorted_by_priority(entries(old(vec)@)),
    ensures
        sorted_by_priority(entries(final(vec)@)),
        final(vec)@ == old(vec)@.insert(count_at_least(entries(old(vec)@), node.priority) as int, node),
        entries(final(vec)@) == insert_ordered(entries(old(vec)@), (node.priority, node.id)),
{
    let ghost s = entries(vec@);
    let mut lo: usize = 0;
    let mut hi: usize = vec.len();
    while lo < hi
        invariant
            0 <= lo <= hi <= vec.len(),
            vec@ == old(vec)@,
            s == entries(vec@),
            sorted_by_priority(s),
            forall|i: int| 0 <= i < lo ==> s[i].0 >= node.priority,
            forall|i: int| hi <= i < vec.len() ==> s[i].0 < node.priority,
        decreases hi - lo,
    {
        let mid = lo + (hi - lo) / 2;
        assert(s[mid as int].0 == vec@[mid as int].priority);
        if vec[mid].priority >= node.priority {
            lo = mid + 1;
        } else {
            hi = mid;
        }
    }
    proof {
        lemma_count_at_least_prefix(s, node.priority, lo as int);
    }
    vec.insert(lo, node);
    assert(entries(vec@) =~= s.insert(lo as int, (node.priority, node.id)));
}

/// In an ordered schedule split at `k` into priorities `>= p` and `< p`,
/// `k` counts the priorities that are at least `p`.
proof fn lemma_count_at_least_prefix<ID>(s: Seq<(u128, ID)>, p: u128, k: int)
    requires
        0 <= k <= s.len(),
        forall|i: int| 0 <= i < k ==> s[i].0 >= p,
        forall|i: int| k <= i < s.len() ==> s[i].0 < p,
    ensures
        count_at_least(s, p) == k,
    decreases s.len(),
{
    if s.len() > 0 {
        if k == s.len() {
            lemma_count_at_least_prefix(s.drop_last(), p, k - 1);
        } else {
            lemma_count_at_least_prefix(s.drop_last(), p, k);
        }
    }
}

/// In an ordered schedule, the entries at least `p` are the front ones.
pub proof fn lemma_count_splits<ID>(s: Seq<(u128, ID)>, p: u128)
    requires
        sorted_by_priority(s),
    ensures
        count_at_least(s, p) <= s.len(),
        forall|i: int| 0 <= i < count_at_least(s, p) ==> s[i].0 >= p,
        forall|i: int| count_at_least(s, p) <= i < s.len() ==> s[i].0 < p,
    decreases s.len(),
{
    if s.len() > 0 {
        let t = s.drop_last();
        assert(sorted_by_priority(t));
        lemma_count_splits(t, p);
        let c = count_at_least(t, p);
        assert forall|i: int| 0 <= i < t.len() implies t[i] == s[i] by {}
        if s.last().0 >= p {
            assert forall|i: int| 0 <= i < t.len() implies t[i].0 >= p by {
                assert(s[i].0 >= s[s.len() - 1].0);
            }
            if c < t.len() {
                assert(t[c as int].0 < p);
            }
        }
    }
}

/// At most every entry has a priority of at least `p`.
pub proof fn lemma_count_at_most_len<ID>(s: Seq<(u128, ID)>, p: u128)
    ensures
        count_at_least(s, p) <= s.len(),
    decreases s.len(),
{
    if s.len() > 0 {
        lemma_count_at_most_len(s.drop_last(), p);
    }
}

/// Placing an entry at its ordered position keeps a schedule ordered.
pub proof fn lemma_insert_ordered_sorted<ID>(s: Seq<(u128, ID)>, e: (u128, ID))
    requires
        sorted_by_priority(s),
    ensures
        sorted_by_priority(insert_ordered(s, e)),
        insert_ordered(s, e).len() == s.len() + 1,
{
    lemma_count_splits(s, e.0);
}

/// The schedule after placing a wrapped node into an executor in the given
/// state at time `now_us`: a node with the same identifier is dropped first;
/// a stopped executor appends the node with priority zero, a started one
/// places it at its ordered position with priority `now_us`, and a running
/// one takes no new node.
pub open spec fn placed<ID: PartialEq>(
    s: Seq<(u128, ID)>,
    state: ExecutorState,
    id: ID,
    now_us: u128,
) -> Seq<(u128, ID)> {
    let rest = without_id(s, id);
    match state {
        ExecutorState::Stopped => rest.push((0u128, id)),
        ExecutorState::Started => insert_ordered(rest, (now_us, id)),
        ExecutorState::Running => rest,
    }
}

/// The schedule after one scheduling step at time `now_us`: when the last
/// (earliest) node is due, it comes back with priority `next` placed at its
/// ordered position.
pub open spec fn stepped<ID>(s: Seq<(u128, ID)>, next: u128) -> Seq<(u128, ID)> {
    insert_ordered(s.drop_last(), (next, s.last().1))
}

/// `next` is the priority that the earliest node of `s` comes back with:
/// its old priority moved forward by the update delay of the node placed
/// back at its ordered position in `nodes`.
pub open spec fn next_priority<ID>(s: Seq<(u128, ID)>, nodes: Seq<Box<dyn Node<ID>>>, next: u128) -> bool {
    next == advanced(s.last().0, nodes[count_at_least(s.drop_last(), next) as int].update_delay())
}

/// The schedule `after`, with its nodes `nodes`, is one scheduling step of
/// `s`: the earliest node was updated and came back with its old priority
/// moved forward by its update delay.
pub open spec fn stepped_by_delay<ID>(s: Seq<(u128, ID)>, after: Seq<(u128, ID)>, nodes: Seq<Box<dyn Node<ID>>>) -> bool {
    exists|next: u128| #[trigger] stepped(s, next) == after && next_priority(s, nodes, next)
}

/// A node is due when the earliest scheduled update is not after `now_us`.
pub open spec fn is_due<ID>(s: Seq<(u128, ID)>, now_us: u128) -> bool {
    s.len() > 0 && now_us >= s.last().0
}

/// Wrap every node with priority zero, in order.
pub fn wrap_all<ID>(nodes: Vec<Box<dyn Node<ID>>>) -> (v: Vec<NodeWrapper<ID>>)
    ensures
        v@.len() == nodes@.len(),
        all_zero(entries(v@)),
        ids_of(entries(v@)) == node_ids_of(nodes@),
{
    let mut nodes = nodes;
    let ghost all = nodes@;
    let ghost ids = node_ids_of(all);
    let ghost n = nodes@.len();
    let mut v: Vec<NodeWrapper<ID>> = Vec::new();
    while nodes.len() > 0
        invariant
            n == all.len(),
            ids == node_ids_of(all),
            v@.len() + nodes@.len() == n,
            nodes@ == all.subrange(v@.len() as int, n as int),
            all_zero(entries(v@)),
            ids_of(entries(v@)) == ids.subrange(0, v@.len() as int),
        decreases nodes@.len(),
    {
        let ghost k = v@.len() as int;
        let node = nodes.remove(0);
        assert(node.node_id() == all[k].node_id());
        assert(ids[k] == all[k].node_id());
        let id = node.get_id();
        let w = NodeWrapper::new(0, id, node);
        let ghost before = v@;
        v.push(w);
        assert(entries(v@) =~= entries(before).push((w.priority, w.id)));
        assert(ids_of(entries(v@)) =~= ids_of(entries(before)).push(w.id));
        assert(ids_of(entries(v@)) =~= ids.subrange(0, k + 1));
        assert(nodes@ =~= all.subrange(v@.len() as int, n as int));
    }
    assert(ids.subrange(0, n as int) =~= ids);
    v
}

/// Reset every priority to zero and either start or shut down every node.
pub fn reset_all<ID>(v: Vec<NodeWrapper<ID>>, starting: bool) -> (r: Vec<NodeWrapper<ID>>)
    ensures
        entries(r@) == zeroed(entries(v@)),
{
    let mut v = v;
    let ghost s = entries(v@);
    let n = v.len();
    let mut i: usize = 0;
    while i < n
        invariant
            n == v.len(),
            s.len() == n,
            0 <= i <= n,
            forall|j: int| 0 <= j < i ==> #[trigger] entries(v@)[j] == (0u128, s[j].1),
            forall|j: int| i <= j < n ==> #[trigger] entries(v@)[j] == s[j],
        decreases n - i,
    {
        let ghost before = entries(v@);
        let mut w = v.remove(i);
        assert(w.id == before[i as int].1);
        w.priority = 0;
        if starting {
            w.node.start();
        } else {
            w.node.shutdown();
        }
        v.insert(i, w);
        assert(entries(v@) =~= before.update(i as int, (0u128, before[i as int].1)));
        i = i + 1;
    }
    assert(entries(v@) =~= zeroed(s));
    v
}


/// Place a wrapped node into an ordered vector for an executor in state
/// `state` at time `now_us`: the first node with the same identifier is
/// dropped; a stopped executor appends the node with priority zero, a
/// started one places it at its ordered position with priority `now_us`,
/// and a running one takes no new node.
pub fn place_wrapper<ID: PartialEq>(
    backing: &mut Vec<NodeWrapper<ID>>,
    state: ExecutorState,
    wrapper: NodeWrapper<ID>,
    now_us: u128,
)
    requires
        sorted_by_priority(entries(old(backing)@)),
    ensures
        sorted_by_priority(entries(final(backing)@)),
        state == ExecutorState::Stopped && all_zero(entries(old(backing)@)) ==> all_zero(entries(final(backing)@)),
        ID::obeys_eq_spec() ==> entries(final(backing)@) == placed(entries(old(backing)@), state, wrapper.id, now_us),
{
    let mut wrapper = wrapper;
    let ghost s = entries(backing@);
    let ghost id = wrapper.id;
    if let Some(idx) = find_id(backing, &wrapper.id) {
        proof {
            lemma_remove_keeps_order(s, idx as int);
            if ID::obeys_eq_spec() {
                lemma_first_with_id(s, id, idx as int);
            }
        }
        backing.remove(idx);
        assert(entries(backing@) =~= s.remove(idx as int));
    }
    let ghost rest = entries(backing@);
    assert(ID::obeys_eq_spec() ==> rest == without_id(s, id));
    match state {
        ExecutorState::Stopped => {
            wrapper.priority = 0;
            backing.push(wrapper);
            assert(entries(backing@) =~= rest.push((0u128, id)));
        },
        ExecutorState::Started => {
            wrapper.priority = now_us;
            insert_into(backing, wrapper);
        },
        ExecutorState::Running => {},
    }
}

/// Remove the first wrapped node whose identifier equals `id`.
pub fn remove_wrapper<ID: PartialEq>(backing: &mut Vec<NodeWrapper<ID>>, id: &ID) -> (r: Option<NodeWrapper<ID>>)
    ensures
        sorted_by_priority(entries(old(backing)@)) ==> sorted_by_priority(entries(final(backing)@)),
        all_zero(entries(old(backing)@)) ==> all_zero(entries(final(backing)@)),
        r is None ==> final(backing)@ == old(backing)@,
        r matches Some(w) ==> final(backing)@.len() + 1 == old(backing)@.len(),
        ID::obeys_eq_spec() ==> {
            &&& (r is Some <==> has_id(entries(old(backing)@), *id))
            &&& entries(final(backing)@) == without_id(entries(old(backing)@), *id)
        },
{
    let ghost s = entries(backing@);
    match find_id(backing, id) {
        Some(idx) => {
            proof {
                lemma_remove_keeps_order(s, idx as int);
                if ID::obeys_eq_spec() {
                    lemma_first_with_id(s, *id, idx as int);
                }
            }
            let w = backing.remove(idx);
            assert(entries(backing@) =~= s.remove(idx as int));
            Some(w)
        },
        None => None,
    }
}

/// Take the earliest wrapped node off the end of an ordered vector when its
/// update is due at time `now_us`.
pub fn pop_due<ID>(backing: &mut Vec<NodeWrapper<ID>>, now_us: u128) -> (r: Option<NodeWrapper<ID>>)
    ensures
        is_due(entries(old(backing)@), now_us) ==> (r matches Some(w) && (w.priority, w.id) == entries(old(backing)@).last()
            && entries(final(backing)@) == entries(old(backing)@).drop_last()),
        !is_due(entries(old(backing)@), now_us) ==> r is None && final(backing)@ == old(backing)@,
        sorted_by_priority(entries(old(backing)@)) ==> sorted_by_priority(entries(final(backing)@)),
{
    let n = backing.len();
    if n > 0 && now_us >= backing[n - 1].priority {
        let ghost s = entries(backing@);
        let w = backing.pop().unwrap();
        assert(entries(backing@) =~= s.drop_last());
        Some(w)
    } else {
        None
    }
}

/// Update a wrapped node and move its priority forward by the node's update
/// delay (saturating at the largest priority).
pub fn advance<ID>(w: NodeWrapper<ID>) -> (r: NodeWrapper<ID>)
    ensures
        r.id == w.id,
        r.priority == advanced(w.priority, r.node.update_delay()),
        r.priority >= w.priority,
{
    let mut w = w;
    w.node.update();
    let delay = w.node.get_update_delay_us();
    w.priority = w.priority.saturating_add(delay);
    w
}


/// The identifiers of a schedule, in order.
pub open spec fn ids_of<ID>(s: Seq<(u128, ID)>) -> Seq<ID> {
    s.map_values(|e: (u128, ID)| e.1)
}

/// The identifiers of a schedule, counted with repetition.
pub open spec fn scheduled_ids<ID>(s: Seq<(u128, ID)>) -> Multiset<ID> {
    ids_of(s).to_multiset()
}

/// One scheduling step keeps every node: the schedule after the step has
/// as many entries and holds the same identifiers, each as often.
pub proof fn lemma_step_keeps_nodes<ID>(s: Seq<(u128, ID)>, next: u128)
    requires
        s.len() > 0,
    ensures
        stepped(s, next).len() == s.len(),
        scheduled_ids(stepped(s, next)) == scheduled_ids(s),
{
    let t = s.drop_last();
    let c = count_at_least(t, next);
    lemma_count_at_most_len(t, next);
    let id = s.last().1;
    assert(ids_of(stepped(s, next)) =~= ids_of(t).insert(c as int, id));
    assert(ids_of(s) =~= ids_of(t).push(id));
    vstd::seq_lib::to_multiset_insert(ids_of(t), c as int, id);
    vstd::seq_lib::to_multiset_build(ids_of(t), id);
}

/// Starting or stopping an executor keeps every node in place and sets
/// every priority to zero.
pub proof fn lemma_zeroed_keeps_nodes<ID>(s: Seq<(u128, ID)>)
    ensures
        all_zero(zeroed(s)),
        ids_of(zeroed(s)) == ids_of(s),
        sorted_by_priority(zeroed(s)),
{
    assert(ids_of(zeroed(s)) =~= ids_of(s));
}

/// When some entry carries `id`, a first such entry exists.
pub proof fn lemma_has_first<ID: PartialEq>(s: Seq<(u128, ID)>, id: ID)
    requires
        has_id(s, id),
    ensures
        is_first_with_id(s, id, first_with_id(s, id)),
    decreases s.len(),
{
    let t = s.drop_last();
    if has_id(t, id) {
        lemma_has_first(t, id);
        let k = first_with_id(t, id);
        assert(s[k] == t[k]);
        assert forall|j: int| 0 <= j < k implies !same_id(#[trigger] s[j].1, id) by {
            assert(s[j] == t[j]);
            assert(!same_id(t[j].1, id));
        }
        assert(is_first_with_id(s, id, k));
    } else {
        let k = s.len() - 1;
        assert(s.len() > 0);
        assert forall|j: int| 0 <= j < k implies !same_id(#[trigger] s[j].1, id) by {
            assert(s[j] == t[j]);
        }
        assert(is_first_with_id(s, id, k));
    }
}

/// Adding a node whose identifier is not scheduled, then removing that
/// identifier, gives back the schedule as it was (for an executor that is
/// not running).
pub proof fn lemma_remove_after_place<ID: PartialEq>(
    s: Seq<(u128, ID)>,
    state: ExecutorState,
    id: ID,
    now_us: u128,
)
    requires
        !has_id(s, id),
        same_id(id, id),
        state != ExecutorState::Running,
    ensures
        without_id(placed(s, state, id, now_us), id) == s,
{
    let c: int = if state == ExecutorState::Stopped {
        s.len() as int
    } else {
        count_at_least(s, now_us) as int
    };
    let e: (u128, ID) = if state == ExecutorState::Stopped { (0u128, id) } else { (now_us, id) };
    lemma_count_at_most_len(s, now_us);
    let t = s.insert(c, e);
    assert(placed(s, state, id, now_us) =~= t);
    assert forall|j: int| 0 <= j < c implies !same_id(#[trigger] t[j].1, id) by {
        assert(t[j] == s[j]);
    }
    assert(is_first_with_id(t, id, c));
    lemma_first_with_id(t, id, c);
    assert(t.remove(c) =~= s);
}

/// Adding a node replaces the node with the same identifier: the number of
/// nodes stays the same when the identifier is scheduled and grows by one
/// otherwise (for an executor that is not running).
pub proof fn lemma_place_count<ID: PartialEq>(
    s: Seq<(u128, ID)>,
    state: ExecutorState,
    id: ID,
    now_us: u128,
)
    requires
        state != ExecutorState::Running,
    ensures
        placed(s, state, id, now_us).len() == if has_id(s, id) { s.len() } else { s.len() + 1 },
{
    if has_id(s, id) {
        lemma_has_first(s, id);
    }
    let rest = without_id(s, id);
    lemma_count_at_most_len(rest, now_us);
}

/// Equality of identifiers is an equivalence, as `Eq` promises.
pub open spec fn id_equality_is_equivalence<ID: PartialEq>() -> bool {
    &&& forall|a: ID| #[trigger] same_id(a, a)
    &&& forall|a: ID, b: ID| #[trigger] same_id(a, b) ==> same_id(b, a)
    &&& forall|a: ID, b: ID, c: ID| #[trigger] same_id(a, b) && #[trigger] same_id(b, c) ==> same_id(a, c)
}

/// No two entries of the schedule carry equal identifiers.
pub open spec fn distinct_ids<ID: PartialEq>(s: Seq<(u128, ID)>) -> bool {
    forall|i: int, j: int| 0 <= i < j < s.len() ==> !same_id(#[trigger] s[i].1, #[trigger] s[j].1)
}

/// Adding a node keeps one node per identifier: when no two scheduled
/// nodes share an identifier, none do after the node is added.
#[verifier::rlimit(100)]
pub proof fn lemma_place_keeps_ids_distinct<ID: PartialEq>(
    s: Seq<(u128, ID)>,
    state: ExecutorState,
    id: ID,
    now_us: u128,
)
    requires
        id_equality_is_equivalence::<ID>(),
        distinct_ids(s),
    ensures
        distinct_ids(placed(s, state, id, now_us)),
{
    let rest = without_id(s, id);
    if has_id(s, id) {
        lemma_has_first(s, id);
        let k = first_with_id(s, id);
        assert forall|j: int| 0 <= j < rest.len() implies !same_id(#[trigger] rest[j].1, id) by {
            let o = if j < k { j } else { j + 1 };
            assert(rest[j] == s[o]);
            if same_id(s[o].1, id) {
                assert(same_id(id, s[k].1));
                assert(same_id(s[o].1, s[k].1));
                assert(same_id(s[k].1, s[o].1));
            }
        }
        assert forall|i: int, j: int| 0 <= i < j < rest.len() implies !same_id(#[trigger] rest[i].1, #[trigger] rest[j].1) by {
            let oi = if i < k { i } else { i + 1 };
            let oj = if j < k { j } else { j + 1 };
            assert(rest[i] == s[oi] && rest[j] == s[oj]);
        }
    } else {
        assert forall|j: int| 0 <= j < rest.len() implies !same_id(#[trigger] rest[j].1, id) by {
            if same_id(rest[j].1, id) {
                assert(has_id(s, id));
            }
        }
    }
    match state {
        ExecutorState::Running => {},
        _ => {
            let c: int = if state == ExecutorState::Stopped {
                rest.len() as int
            } else {
                count_at_least(rest, now_us) as int
            };
            let e: (u128, ID) = if state == ExecutorState::Stopped { (0u128, id) } else { (now_us, id) };
            lemma_count_at_most_len(rest, now_us);
            let t = rest.insert(c, e);
            assert(placed(s, state, id, now_us) =~= t);
            assert forall|i: int, j: int| 0 <= i < j < t.len() implies !same_id(#[trigger] t[i].1, #[trigger] t[j].1) by {
                if j < c {
                    assert(t[i] == rest[i] && t[j] == rest[j]);
                } else if j == c {
                    assert(t[i] == rest[i]);
                } else if i == c {
                    assert(t[j] == rest[j - 1]);
                    if same_id(id, rest[j - 1].1) {
                        assert(same_id(rest[j - 1].1, id));
                    }
                } else if i < c {
                    assert(t[i] == rest[i] && t[j] == rest[j - 1]);
                } else {
                    assert(t[i] == rest[i - 1] && t[j] == rest[j - 1]);
                }
            }
        },
    }
}

} // verus!
