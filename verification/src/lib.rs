//! Deterministic simulation of distributed systems: simulated time, timers,
//! random numbers, task scheduling, network and file system, each as a
//! verified state machine.

pub mod time;
pub mod interval;
pub mod timer;
pub mod runtime_time;
pub mod rand;
pub mod buggify;
pub mod production;
pub mod rpc;
pub mod addr;
pub mod addr_text;
pub mod mailbox;
pub mod network;
pub mod tcp;
pub mod stream;
pub mod dns;
pub mod ipvs;
pub mod mpsc;
pub mod assoc;
pub mod task;
pub mod fs;
pub mod wire;
pub mod runtime;
pub mod builder;
pub mod collections;
pub mod fault;
