//! The scan engine of a concurrent TCP reachability prober.
//!
//! A scan takes a network in CIDR notation and a list of ports, pairs every
//! address of the network with every port, probes each pair with one
//! connection attempt, and reports each result as it comes in. This library is
//! the part of that which decides: it reads the inputs, lists the targets,
//! classifies what a connection attempt came to, and keeps the books of the
//! scan. It opens no socket and prints nothing; whoever does hands it plain
//! values and gets plain values back.
//!
//! - [`input`]: the shape of the three inputs.
//! - [`ports`]: the list of ports.
//! - [`network`]: the network and its addresses.
//! - [`target`]: the targets and their endpoints.
//! - [`probe`]: the status of an endpoint.
//! - [`coordinator`]: one event for every target.
//! - [`report`]: what is shown for an event, and where.
//! - [`error`]: failures, their codes and their messages.
//! - [`text`]: trimming, searching and decimal numbers.

pub mod coordinator;
pub mod error;
pub mod input;
pub mod network;
pub mod ports;
pub mod probe;
pub mod report;
pub mod target;
pub mod text;
