//! NComm: a robotics framework built from nodes that are scheduled by
//! executors and that talk to each other through publishers, subscribers,
//! clients and servers.

mod channel;
pub mod client_server;
mod clock;
pub mod executor;
pub mod local;
pub mod local_client_server;
pub mod minimal_publisher;
pub mod node;
pub mod packing;
pub mod publisher_subscriber;
pub mod rerun_node;
pub mod routing;
pub mod scheduling;
pub mod simple_executor;
pub mod subscription;
pub mod threaded_executor;
pub mod threadpool_executor;
pub mod update_client_server;
pub mod update_inbox;

pub use client_server::{Client, Server};
pub use executor::{next_interrupt_flag, Executor, ExecutorState};
pub use local::{ttl_start_data, LocalPublisher, LocalSubscriber, LocalTTLSubscriber};
pub use local_client_server::{
    LocalClient, LocalServer, LocalUpdateClient, LocalUpdateServer,
};
pub use minimal_publisher::{greeting_message, MinimalPublisher};
pub use node::Node;
pub use packing::{read_be, write_be, Packable, PackingError};
pub use publisher_subscriber::{Publisher, Subscriber};
pub use rerun_node::{to_log_nanos, RerunNode, RerunPublisher, RerunTimestampedPublisher};
pub use routing::{
    classify_datagram, pack_pair, pack_value, position_of_address, position_of_key,
    prepare_reply, resolve_request, DatagramKind, UdpClientServerError,
};
pub use scheduling::{insert_into, NodeWrapper};
pub use simple_executor::SimpleExecutor;
pub use subscription::{
    add_to_whitelist, has_expired, keep_if_alive, latest, remove_from_whitelist,
    tcp_publish_outcome, whitelist_admits, TcpPublishError, UdpPublishError,
};
pub use threaded_executor::ThreadedExecutor;
pub use threadpool_executor::{advance_and_return, pool_size, ThreadPoolExecutor};
pub use update_client_server::{UpdateClient, UpdateServer};
pub use update_inbox::{unpack_datagram, unpack_pair, zero_buffer, PollStep, Unpacked, UpdateInbox};
