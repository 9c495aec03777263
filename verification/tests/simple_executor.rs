use std::sync::{Arc, Mutex};
use std::time::{Duration, Instant};

use crossbeam::channel::unbounded;
use ncomm::{Executor, ExecutorState, Node, SimpleExecutor};

#[derive(Clone, Copy, Debug, PartialEq, Eq)]
enum State {
    Stopped,
    Started,
    Updating,
}

/// What a test node has been through, shared with the test.
#[derive(Debug)]
struct Status {
    state: State,
    num: u8,
}

struct SimpleNode {
    id: u8,
    update_delay: u128,
    status: Arc<Mutex<Status>>,
}

impl SimpleNode {
    fn new(id: u8, update_delay: u128) -> (Box<dyn Node<u8>>, Arc<Mutex<Status>>) {
        let status = Arc::new(Mutex::new(Status { state: State::Stopped, num: 0 }));
        let node = SimpleNode { id, update_delay, status: status.clone() };
        (Box::new(node), status)
    }
}

impl Node<u8> for SimpleNode {
    fn node_id(&self) -> u8 {
        self.id
    }

    fn update_delay(&self) -> u128 {
        self.update_delay
    }

    fn get_id(&self) -> u8 {
        self.id
    }

    fn start(&mut self) {
        self.status.lock().unwrap().state = State::Started;
    }

    fn update(&mut self) {
        let mut status = self.status.lock().unwrap();
        status.state = State::Updating;
        status.num = status.num.wrapping_add(1);
    }

    fn shutdown(&mut self) {
        self.status.lock().unwrap().state = State::Stopped;
    }

    fn get_update_delay_us(&self) -> u128 {
        self.update_delay
    }
}

/// Run an executor for `ms` milliseconds or until it is interrupted.
fn update_for_ms<E: Executor<u8>>(executor: &mut E, ms: u128) {
    executor.begin_update();
    while executor.elapsed_ms() < ms && !executor.check_interrupt() {
        executor.update_once();
    }
    executor.finish_update();
}

#[test]
fn test_simple_executor_start() {
    let (_, rx) = unbounded();
    let (a, sa) = SimpleNode::new(0, 100_000);
    let (b, sb) = SimpleNode::new(1, 250_000);
    let mut executor = SimpleExecutor::new_with(rx, vec![a, b]);
    let earlier_start_instant = executor.start_instant();

    executor.start();

    for p in executor.priorities() {
        assert_eq!(p, 0);
    }
    assert_eq!(sa.lock().unwrap().state, State::Started);
    assert_eq!(sb.lock().unwrap().state, State::Started);
    assert!(!executor.interrupted());
    assert_eq!(executor.state(), ExecutorState::Started);
    assert!(executor.start_instant() > earlier_start_instant);
}

#[test]
fn simple_executor_test_update_for_ms() {
    let (_, rx) = unbounded();
    let (a, sa) = SimpleNode::new(0, 10_000);
    let (b, sb) = SimpleNode::new(1, 25_000);
    let mut executor = SimpleExecutor::new_with(rx, vec![a, b]);

    update_for_ms(&mut executor, 100);
    // The run is timed by the executor's own clock, from the instant it
    // started to the instant it stopped.
    let elapsed = Duration::from_micros(executor.elapsed_us() as u64);

    for p in executor.priorities() {
        assert!(p == 0);
    }
    for status in [sa, sb] {
        let status = status.lock().unwrap();
        assert_eq!(status.state, State::Stopped);
        assert!([9, 10, 11, 3, 4, 5].contains(&status.num));
    }
    assert!(Duration::from_millis(95) < elapsed);
    assert!(elapsed < Duration::from_millis(105));
}

#[test]
fn simple_executor_test_check_interrupt() {
    let (tx, rx) = unbounded();
    let (a, _) = SimpleNode::new(0, 110_000);
    let (b, _) = SimpleNode::new(1, 25_000);
    let mut executor = SimpleExecutor::new_with(rx, vec![a, b]);

    tx.send(true).unwrap();

    assert!(executor.check_interrupt());
}

#[test]
fn test_add_node_stopped() {
    let (_, rx) = unbounded();
    let (a, _) = SimpleNode::new(0, 10_000);
    let (b, _) = SimpleNode::new(1, 25_000);
    let mut executor = SimpleExecutor::new_with(rx, vec![a, b]);

    let (c, _) = SimpleNode::new(2, 1_000);
    executor.add_node(c);

    assert_eq!(executor.node_count(), 3);
}

#[test]
fn simple_executor_test_add_node_same_id() {
    let (_, rx) = unbounded();
    let (a, _) = SimpleNode::new(0, 10_000);
    let (b, _) = SimpleNode::new(1, 25_000);
    let mut executor = SimpleExecutor::new_with(rx, vec![a, b]);

    let (c, _) = SimpleNode::new(0, 1_000);
    executor.add_node(c);

    assert_eq!(executor.node_count(), 2);
    let zero = (0..executor.node_count()).find(|i| executor.node_at(*i).get_id().eq(&0)).unwrap();
    assert_eq!(executor.node_at(zero).get_update_delay_us(), 1_000);
}

#[test]
fn simple_executor_test_remove_node() {
    let (_, rx) = unbounded();
    let (a, _) = SimpleNode::new(0, 10_000);
    let (b, _) = SimpleNode::new(1, 25_000);
    let mut executor = SimpleExecutor::new_with(rx, vec![a, b]);

    executor.remove_node(&0);

    assert_eq!(executor.node_count(), 1);
    assert_eq!(executor.node_at(0).get_id(), 1);
}

#[test]
fn simple_executor_interrupt_stops_the_run() {
    let (tx, rx) = unbounded();
    let (a, sa) = SimpleNode::new(0, 10_000);
    let mut executor = SimpleExecutor::new_with(rx, vec![a]);

    tx.send(true).unwrap();
    let start = Instant::now();
    update_for_ms(&mut executor, 1_000);

    assert!(Instant::now() - start < Duration::from_millis(500));
    assert!(executor.interrupted());
    assert_eq!(executor.state(), ExecutorState::Stopped);
    assert_eq!(sa.lock().unwrap().state, State::Stopped);
}

#[test]
fn simple_executor_remove_returns_the_node() {
    let (_, rx) = unbounded();
    let (a, _) = SimpleNode::new(0, 10_000);
    let (b, _) = SimpleNode::new(1, 25_000);
    let mut executor = SimpleExecutor::new_with(rx, vec![a, b]);

    let removed = executor.remove_node(&1).unwrap();
    assert_eq!(removed.get_id(), 1);
    assert_eq!(removed.get_update_delay_us(), 25_000);
    assert!(executor.remove_node(&1).is_none());
    assert_eq!(executor.node_count(), 1);
}

#[test]
fn simple_executor_add_then_remove_restores_the_nodes() {
    let (_, rx) = unbounded();
    let (a, _) = SimpleNode::new(0, 10_000);
    let (b, _) = SimpleNode::new(1, 25_000);
    let mut executor = SimpleExecutor::new_with(rx, vec![a, b]);
    executor.start();
    let before: Vec<u8> = (0..executor.node_count()).map(|i| *executor.id_at(i)).collect();

    let (c, _) = SimpleNode::new(7, 1_000);
    executor.add_node(c);
    assert_eq!(executor.node_count(), 3);
    let removed = executor.remove_node(&7).unwrap();
    assert_eq!(removed.get_id(), 7);

    let after: Vec<u8> = (0..executor.node_count()).map(|i| *executor.id_at(i)).collect();
    assert_eq!(before, after);
}

#[test]
fn simple_executor_started_places_node_by_time() {
    let (_, rx) = unbounded();
    let (a, _) = SimpleNode::new(0, 10_000);
    let mut executor = SimpleExecutor::new_with(rx, vec![a]);
    executor.start();
    while executor.elapsed_us() == 0 {}
    let (b, _) = SimpleNode::new(1, 1_000);
    executor.add_node(b);
    // The node added later is due later, so it sits in front of the
    // earlier one.
    assert_eq!(*executor.id_at(0), 1);
    assert_eq!(*executor.id_at(1), 0);
    let p = executor.priorities();
    assert!(p[0] >= p[1]);
}

#[test]
fn simple_executor_running_keeps_the_node_count() {
    let (_, rx) = unbounded();
    let (a, _) = SimpleNode::new(0, 1_000);
    let (b, _) = SimpleNode::new(1, 2_000);
    let mut executor = SimpleExecutor::new_with(rx, vec![a, b]);
    executor.begin_update();
    for _ in 0..1000 {
        executor.update_once();
        let p = executor.priorities();
        assert_eq!(p.len(), 2);
        assert!(p[0] >= p[1]);
    }
    executor.finish_update();
    assert_eq!(executor.priorities(), vec![0, 0]);
}
