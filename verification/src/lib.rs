//! Core of a ROS 2 client library layered over a DDS publish-subscribe
//! transport: naming of graph entities, request/response correlation for
//! services, the action goal state machine, and the node's local view of
//! the discovery graph.
//!
//! The transport itself (readers, writers, QoS, participant discovery) is an
//! external collaborator; this crate holds the rules that decide what is
//! sent, how replies are matched to requests, and how the local graph state
//! evolves in response to transport events.

pub mod action;
pub mod channels;
pub mod entities;
pub mod errors;
pub mod goals;
pub mod graph;
pub mod ids;
pub mod names;
pub mod node;
pub mod random;
pub mod service;
pub mod spinner;
pub mod status;
pub mod type_names;
