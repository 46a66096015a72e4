//! A cluster node that takes part in a gossip-based broadcast of integer
//! values, together with the sibling workloads that share its protocol: an
//! echo responder, a unique-identifier generator, a grow-only counter and an
//! append-only keyed log.
//!
//! Each node is a state machine: `handle` takes the node and one request and
//! gives back the next node and at most one reply, and `gossip` gives the
//! messages of one gossip round. Reading and writing messages is left to the
//! caller.

// Identities and sets of values.
pub mod ids;
pub mod values;

// The broadcast core: neighbours, estimates, the node and its properties.
pub mod topology;
pub mod estimates;
pub mod broadcast;
pub mod laws;

// A node that serves echo, unique ids and broadcast at once.
pub mod node;

// The sibling workloads.
pub mod echo_node;
pub mod unique_ids_node;
pub mod counter;
pub mod counter_node;
pub mod log_entries;
pub mod keyed;
pub mod logs;
pub mod kafka_node;

// A simpler broadcast server state, and the requests it reads.
pub mod server;
pub mod request;
