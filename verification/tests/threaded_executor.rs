use std::sync::{Arc, Mutex};
use std::time::Duration;

use crossbeam::channel::unbounded;
use ncomm::{Executor, ExecutorState, Node, ThreadedExecutor};

#[derive(Clone, Copy, Debug, PartialEq, Eq)]
enum State {
    Stopped,
    Started,
    Updating,
}

/// What a test node has been through, shared with the test.
#[derive(Debug)]
struct Status {
    state: State,
    num: u8,
}

struct SimpleNode {
    id: u8,
    update_delay: u128,
    status: Arc<Mutex<Status>>,
}

impl SimpleNode {
    fn new(id: u8, update_delay: u128) -> (Box<dyn Node<u8>>, Arc<Mutex<Status>>) {
        let status = Arc::new(Mutex::new(Status { state: State::Stopped, num: 0 }));
        let node = SimpleNode { id, update_delay, status: status.clone() };
        (Box::new(node), status)
    }
}

impl Node<u8> for SimpleNode {
    fn node_id(&self) -> u8 {
        self.id
    }

    fn update_delay(&self) -> u128 {
        self.update_delay
    }

    fn get_id(&self) -> u8 {
        self.id
    }

    fn start(&mut self) {
        self.status.lock().unwrap().state = State::Started;
    }

    fn update(&mut self) {
        let mut status = self.status.lock().unwrap();
        status.state = State::Updating;
        status.num = status.num.wrapping_add(1);
    }

    fn shutdown(&mut self) {
        self.status.lock().unwrap().state = State::Stopped;
    }

    fn get_update_delay_us(&self) -> u128 {
        self.update_delay
    }
}

/// Run a threaded executor and each of its sub-executors, in turn on this
/// thread, for `ms` milliseconds.
fn update_for_ms(executor: &mut ThreadedExecutor<u8, u8>, ms: u128) {
    let mut subs = executor.take_executors();
    executor.begin_update();
    for (sub, _) in subs.iter_mut() {
        sub.begin_update();
    }
    while executor.elapsed_ms() < ms && !executor.check_interrupt() {
        executor.update_once();
        for (sub, _) in subs.iter_mut() {
            sub.update_once();
        }
    }
    for (sub, _) in subs.iter_mut() {
        sub.finish_update();
    }
    executor.finish_update();
    executor.restore_executors(subs);
}

type Groups = Vec<(Vec<Box<dyn Node<u8>>>, u8)>;

/// Three groups of one node each, for threads 0, 1 and 2.
fn three_groups(delays: [u128; 3]) -> (Groups, Vec<Arc<Mutex<Status>>>) {
    let mut groups: Groups = Vec::new();
    let mut statuses = Vec::new();
    for i in 0..3u8 {
        let (node, status) = SimpleNode::new(i, delays[i as usize]);
        groups.push((vec![node], i));
        statuses.push(status);
    }
    (groups, statuses)
}

#[test]
fn threaded_executor_test_start() {
    let (_, rx) = unbounded();
    let (groups, statuses) = three_groups([10_000, 100_000, 110_000]);
    let mut executor = ThreadedExecutor::new_with(rx, 0, groups);
    let earlier_start_instant = executor.start_instant();

    executor.start();

    for p in executor.priorities() {
        assert_eq!(p, 0);
    }
    for i in 0..executor.executor_count() {
        for p in executor.executor_at(i).0.priorities() {
            assert_eq!(p, 0);
        }
    }
    for status in statuses {
        assert_eq!(status.lock().unwrap().state, State::Started);
    }
    assert!(!executor.interrupted());
    assert_eq!(executor.state(), ExecutorState::Started);
    assert!(executor.start_instant() > earlier_start_instant);
}

#[test]
fn threaded_executor_test_check_interrupt() {
    let (tx, rx) = unbounded();
    let (groups, _) = three_groups([10_000, 100_000, 110_000]);
    let mut executor = ThreadedExecutor::new_with(rx, 0, groups);

    tx.send(true).unwrap();

    assert!(executor.check_interrupt());
    let mut subs = executor.take_executors();
    for (sub, _) in subs.iter_mut() {
        assert!(sub.check_interrupt());
    }
    executor.restore_executors(subs);
}

#[test]
fn threaded_executor_test_add_node() {
    let (_, rx) = unbounded();
    let (groups, _) = three_groups([10_000, 100_000, 110_000]);
    let mut executor = ThreadedExecutor::new_with(rx, 0, groups);

    let (node, _) = SimpleNode::new(3, 22_000);
    executor.add_node(node);

    assert_eq!(executor.node_count(), 2);
}

#[test]
fn test_add_node_with_context_backing() {
    let (_, rx) = unbounded();
    let (groups, _) = three_groups([10_000, 100_000, 110_000]);
    let mut executor = ThreadedExecutor::new_with(rx, 0, groups);

    let (node, _) = SimpleNode::new(3, 10_000);
    executor.add_node_with_context(node, 0);
    assert_eq!(executor.node_count(), 2);
}

#[test]
fn test_add_node_with_context_other_executor() {
    let (_, rx) = unbounded();
    let (groups, _) = three_groups([10_000, 100_000, 110_000]);
    let mut executor = ThreadedExecutor::new_with(rx, 0, groups);

    let (node, _) = SimpleNode::new(3, 10_000);
    executor.add_node_with_context(node, 1);
    let k = (0..executor.executor_count()).find(|i| executor.executor_at(*i).1.eq(&1)).unwrap();
    assert_eq!(executor.executor_at(k).0.node_count(), 2);
}

#[test]
fn threaded_executor_add_node_with_context_new_thread() {
    let (_, rx) = unbounded();
    let (groups, _) = three_groups([10_000, 100_000, 110_000]);
    let mut executor = ThreadedExecutor::new_with(rx, 0, groups);

    let (node, _) = SimpleNode::new(3, 10_000);
    executor.add_node_with_context(node, 9);
    assert_eq!(executor.executor_count(), 3);
    assert_eq!(executor.executor_at(2).1, 9);
    assert_eq!(executor.executor_at(2).0.node_count(), 1);
    assert_eq!(*executor.executor_at(2).0.id_at(0), 3);
}

#[test]
fn threaded_executor_test_add_node_same_id() {
    let (_, rx) = unbounded();
    let (groups, _) = three_groups([10_000, 100_000, 110_000]);
    let mut executor = ThreadedExecutor::new_with(rx, 0, groups);

    let (node, _) = SimpleNode::new(0, 100_000);
    executor.add_node(node);
    assert_eq!(executor.node_count(), 1);
    assert_eq!(executor.node_at(0).get_update_delay_us(), 100_000);
}

#[test]
fn test_remove_node_backing() {
    let (_, rx) = unbounded();
    let (groups, _) = three_groups([10_000, 100_000, 110_000]);
    let mut executor = ThreadedExecutor::new_with(rx, 0, groups);

    executor.remove_node(&0);
    assert_eq!(executor.node_count(), 0);
}

#[test]
fn test_remove_node_executors_no_remove_executor() {
    let (_, rx) = unbounded();
    let (n0, _) = SimpleNode::new(0, 10_000);
    let (n1, _) = SimpleNode::new(1, 100_000);
    let (n2, _) = SimpleNode::new(2, 111_111);
    let (n3, _) = SimpleNode::new(3, 110_000);
    let groups: Groups = vec![(vec![n0], 0), (vec![n1, n2], 1), (vec![n3], 2)];
    let mut executor = ThreadedExecutor::new_with(rx, 0, groups);

    executor.remove_node(&1);
    assert_eq!(executor.executor_at(0).0.node_count(), 1);
}

#[test]
fn test_remove_node_executors_remove_executor() {
    let (_, rx) = unbounded();
    let (groups, _) = three_groups([10_000, 100_000, 110_000]);
    let mut executor = ThreadedExecutor::new_with(rx, 0, groups);

    executor.remove_node(&1);
    assert_eq!(executor.executor_count(), 1);
}

#[test]
fn test_update_ms() {
    let (_, rx) = unbounded();
    let (groups, statuses) = three_groups([10_000, 10_000, 10_000]);
    let mut executor = ThreadedExecutor::new_with(rx, 0, groups);

    update_for_ms(&mut executor, 100);
    // The run is timed by the executor's own clock, from the instant it
    // started to the instant it stopped.
    let elapsed = Duration::from_micros(executor.elapsed_us() as u64);

    for p in executor.priorities() {
        assert!(p == 0);
    }
    for i in 0..executor.executor_count() {
        for p in executor.executor_at(i).0.priorities() {
            assert!(p == 0);
        }
    }
    for status in statuses {
        let status = status.lock().unwrap();
        assert_eq!(status.state, State::Stopped);
        assert!([9, 10, 11].contains(&status.num));
    }
    assert!(Duration::from_millis(95) < elapsed);
    assert!(elapsed < Duration::from_millis(105));
}

#[test]
fn threaded_executor_groups_by_thread() {
    let (_, rx) = unbounded();
    let (groups, _) = three_groups([10_000, 100_000, 110_000]);
    let executor = ThreadedExecutor::new_with(rx, 1, groups);

    assert_eq!(executor.node_count(), 1);
    assert_eq!(*executor.id_at(0), 1);
    assert_eq!(executor.executor_count(), 2);
    assert_eq!(executor.executor_at(0).1, 0);
    assert_eq!(executor.executor_at(1).1, 2);
}
