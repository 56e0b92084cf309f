//! Multi-decree Paxos for atomic broadcast of 32-bit integers: the wire
//! codec and the per-role state machines (proposer, acceptor, learner) with
//! the proposer's restart timer. Sockets, configuration and the processes
//! that drive these machines live outside this library.

pub mod codec;
pub mod message;
pub mod acceptor;
pub mod proposer;
pub mod learner;
pub mod timer;
pub mod client;
pub mod provenance;
pub mod config;
