use std::sync::{Arc, Mutex};
use std::time::Duration;

use crossbeam::channel::unbounded;
use ncomm::{Executor, ExecutorState, Node, ThreadPoolExecutor};

#[derive(Clone, Copy, Debug, PartialEq, Eq)]
enum State {
    Stopped,
    Started,
    Updating,
}

/// What a test node has been through, shared with the test.
#[derive(Debug)]
struct Status {
    state: State,
    num: u8,
}

struct SimpleNode {
    id: u8,
    update_delay: u128,
    status: Arc<Mutex<Status>>,
}

impl SimpleNode {
    fn new(id: u8, update_delay: u128) -> (Box<dyn Node<u8>>, Arc<Mutex<Status>>) {
        let status = Arc::new(Mutex::new(Status { state: State::Stopped, num: 0 }));
        let node = SimpleNode { id, update_delay, status: status.clone() };
        (Box::new(node), status)
    }
}

impl Node<u8> for SimpleNode {
    fn node_id(&self) -> u8 {
        self.id
    }

    fn update_delay(&self) -> u128 {
        self.update_delay
    }

    fn get_id(&self) -> u8 {
        self.id
    }

    fn start(&mut self) {
        self.status.lock().unwrap().state = State::Started;
    }

    fn update(&mut self) {
        let mut status = self.status.lock().unwrap();
        status.state = State::Updating;
        status.num = status.num.wrapping_add(1);
    }

    fn shutdown(&mut self) {
        self.status.lock().unwrap().state = State::Stopped;
    }

    fn get_update_delay_us(&self) -> u128 {
        self.update_delay
    }
}

/// Run an executor for `ms` milliseconds or until it is interrupted.
fn update_for_ms<E: Executor<u8>>(executor: &mut E, ms: u128) {
    executor.begin_update();
    while executor.elapsed_ms() < ms && !executor.check_interrupt() {
        executor.update_once();
    }
    executor.finish_update();
}

fn two_nodes() -> (Vec<Box<dyn Node<u8>>>, Vec<Arc<Mutex<Status>>>) {
    let (a, sa) = SimpleNode::new(0, 10_000);
    let (b, sb) = SimpleNode::new(1, 25_000);
    (vec![a, b], vec![sa, sb])
}

#[test]
fn threadpool_executor_test_start() {
    let (_, rx) = unbounded();
    let (nodes, statuses) = two_nodes();
    let mut executor = ThreadPoolExecutor::new_with(3, rx, nodes);
    let earlier_start_instant = executor.start_instant();

    executor.start();

    for p in executor.priorities() {
        assert_eq!(p, 0);
    }
    for status in statuses {
        assert_eq!(status.lock().unwrap().state, State::Started);
    }
    assert!(!executor.interrupted());
    assert_eq!(executor.state(), ExecutorState::Started);
    assert!(executor.start_instant() > earlier_start_instant);
}

#[test]
fn threadpool_executor_test_update_for_ms() {
    let (_, rx) = unbounded();
    let (nodes, statuses) = two_nodes();
    let mut executor = ThreadPoolExecutor::new_with(3, rx, nodes);

    update_for_ms(&mut executor, 100);
    // The run is timed by the executor's own clock, from the instant it
    // started to the instant it stopped.
    let elapsed = Duration::from_micros(executor.elapsed_us() as u64);

    for p in executor.priorities() {
        assert_eq!(p, 0);
    }
    for i in 0..executor.node_count() {
        let id = *executor.id_at(i);
        let status = statuses[id as usize].lock().unwrap();
        assert_eq!(status.state, State::Stopped);
        assert!([3, 4, 5, 9, 10, 11].contains(&status.num));
    }
    assert!(Duration::from_millis(95) < elapsed);
    assert!(elapsed < Duration::from_millis(105));
}

#[test]
fn threadpool_executor_test_check_interrupt() {
    let (tx, rx) = unbounded();
    let (nodes, _) = two_nodes();
    let mut executor = ThreadPoolExecutor::new_with(3, rx, nodes);

    tx.send(true).unwrap();

    assert!(executor.check_interrupt());
}

#[test]
fn threadpool_executor_test_add_node() {
    let (_, rx) = unbounded();
    let (nodes, _) = two_nodes();
    let mut executor = ThreadPoolExecutor::new_with(3, rx, nodes);

    let (c, _) = SimpleNode::new(2, 1_000);
    executor.add_node(c);

    assert_eq!(executor.node_count(), 3);
}

#[test]
fn threadpool_executor_test_add_node_same_id() {
    let (_, rx) = unbounded();
    let (nodes, _) = two_nodes();
    let mut executor = ThreadPoolExecutor::new_with(3, rx, nodes);

    let (c, _) = SimpleNode::new(0, 1_000);
    executor.add_node(c);

    assert_eq!(executor.node_count(), 2);
    let zero = (0..executor.node_count()).find(|i| executor.node_at(*i).get_id().eq(&0)).unwrap();
    assert_eq!(executor.node_at(zero).get_update_delay_us(), 1_000);
}

#[test]
fn threadpool_executor_test_remove_node() {
    let (_, rx) = unbounded();
    let (nodes, _) = two_nodes();
    let mut executor = ThreadPoolExecutor::new_with(3, rx, nodes);

    executor.remove_node(&0);

    assert_eq!(executor.node_count(), 1);
    assert_eq!(executor.node_at(0).get_id(), 1);
}

#[test]
fn threadpool_executor_pool_size() {
    assert_eq!(ncomm::pool_size(0), 1);
    assert_eq!(ncomm::pool_size(1), 1);
    assert_eq!(ncomm::pool_size(2), 1);
    assert_eq!(ncomm::pool_size(3), 2);
    assert_eq!(ncomm::pool_size(8), 7);
    let (_, rx) = unbounded::<bool>();
    let executor: ThreadPoolExecutor<u8> = ThreadPoolExecutor::new(3, rx);
    assert_eq!(executor.workers(), 2);
}
