# ncomm

A robotics framework of nodes, executors that schedule them, and the
publishers, subscribers, clients and servers through which nodes talk,
written in Verus with its logic proved against contracts.

## Layout

- `src/` — the verified library.
  - `scheduling`, `simple_executor`, `threadpool_executor`,
    `threaded_executor`, `executor`, `node`: nodes ordered by the time of
    their next update, and three executors that run them one step at a
    time.  The schedule stays ordered, a node replaces the node with the
    same identifier, and a step of the simple and threaded executors keeps
    every node and moves the updated one forward by its update delay (the
    thread-pool executor hands the due node to its pool instead).
  - `packing`: big-endian, two's-complement packing of the integer types,
    with round-trip lemmas.
  - `local`, `local_client_server`, `minimal_publisher`: publishers,
    subscribers, clients and servers over in-process channels.
  - `routing`, `subscription`, `update_inbox`: the decisions of the network
    publishers, subscribers, clients and servers (whom a request came from,
    where a reply goes, what a datagram carries, which data a subscriber
    keeps).
  - `rerun_node`: the Rerun node and publishers, around a recording stream.
- `app/` — ordinary Rust around the library: the loops that drive
  executors (for a time, or until interrupted, with threads), and the UDP,
  TCP, serial and Rerun endpoints, which do their input and output here and
  leave every decision to the library.
- `tests/` — tests of the library on concrete values.
